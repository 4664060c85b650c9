//! Backups: what is copied and in which order, what a copy is worth, and its
//! manifest.
//!
//! A backup may run beside a purge. The journal is copied before the
//! snapshots: purging only moves the journal's start up to what some
//! retained snapshot covers, so that a snapshot copied after the journal
//! covers whatever was purged before it.

use crate::node::boot;
use crate::text;
use crate::text::{
    bool_str, chars_of, decimal, find, parse_u64, push_decimal, quote, same_text, string_between,
};
use vstd::prelude::*;
use vstd::string::StringExecFns;

verus! {

/// How many state files there are.
pub const STATE_FILE_COUNT: usize = 5;

/// The state files that boot always creates.
pub fn state_files() -> (v: Vec<&'static str>)
    ensures
        v@.len() == STATE_FILE_COUNT,
        v@.map_values(|n: &'static str| n@) == seq![
            "vote.state"@,
            "term_map.state"@,
            "output_progress.state"@,
            "snapshot.state"@,
            "config.state"@,
        ],
{
    let v = vec![
        "vote.state",
        "term_map.state",
        "output_progress.state",
        "snapshot.state",
        "config.state",
    ];
    assert(v@.map_values(|n: &'static str| n@) =~= seq![
        "vote.state"@,
        "term_map.state"@,
        "output_progress.state"@,
        "snapshot.state"@,
        "config.state"@,
    ]);
    v
}

/// The positions that a copy holds.
#[derive(Debug, Clone, Copy, PartialEq, Eq, Structural)]
pub struct BackupReport {
    /// The lowest position that the journal still covers; 0 where nothing
    /// was purged.
    pub journal_first_base: u64,
    /// The copy's own durable frontier.
    pub journal_last_pos: u64,
    /// The newest complete snapshot, if there is one.
    pub newest_snapshot: Option<u64>,
    /// The snapshot floor that was durable.
    pub snapshot_floor: u64,
    /// Whether opening the journal healed a torn tail.
    pub healed_torn_tail: bool,
    /// How many files were copied or found.
    pub files: usize,
}

/// Why a backup or its verification failed.
#[derive(Debug)]
pub enum BackupError {
    /// An I/O error, with its cause.
    Io(String),
    NotAnInstanceDir,
    ArtifactExists,
    /// The journal starts above 0 and no snapshot covers its start.
    Hole { first_base: u64, newest_snapshot: Option<u64> },
    ManifestMismatch(String),
    NotAnArtifact,
}

/// An optional position in words.
pub open spec fn optional_text(o: Option<u64>) -> Seq<char> {
    match o {
        Some(n) => "Some("@ + text::digits(n as nat) + ")"@,
        None => "None"@,
    }
}

impl BackupError {
    /// The failure in words.
    pub open spec fn text(self) -> Seq<char> {
        match self {
            BackupError::Io(cause) => "io error: "@ + cause@,
            BackupError::NotAnInstanceDir =>
            "not an instance directory: missing journal/, state/, or one of the state/*.state files"@,
            BackupError::ArtifactExists =>
            "artifact output directory already exists and is not empty"@,
            BackupError::Hole { first_base, newest_snapshot } => "hole: journal first_base="@
                + text::digits(first_base as nat)
                + " is not covered by any retained snapshot (newest_snapshot="@ + optional_text(
                newest_snapshot,
            ) + ")"@,
            BackupError::ManifestMismatch(detail) => "manifest mismatch: "@ + detail@,
            BackupError::NotAnArtifact =>
            "not a backup artifact: missing or corrupt journal/state layout"@,
        }
    }

    /// The failure in words.
    pub fn message(&self) -> (s: String)
        ensures
            s@ == self.text(),
    {
        match self {
            BackupError::Io(cause) => {
                let mut s = "io error: ".to_owned();
                s.append(cause.as_str());
                s
            },
            BackupError::NotAnInstanceDir =>
            "not an instance directory: missing journal/, state/, or one of the state/*.state files".to_owned(),
            BackupError::ArtifactExists =>
            "artifact output directory already exists and is not empty".to_owned(),
            BackupError::Hole { first_base, newest_snapshot } => {
                let mut s = "hole: journal first_base=".to_owned();
                push_decimal(&mut s, *first_base as u128);
                s.append(" is not covered by any retained snapshot (newest_snapshot=");
                match newest_snapshot {
                    Some(n) => {
                        s.append("Some(");
                        push_decimal(&mut s, *n as u128);
                        s.append(")");
                    },
                    None => {
                        s.append("None");
                    },
                }
                s.append(")");
                assert(s@ =~= self.text());
                s
            },
            BackupError::ManifestMismatch(detail) => {
                let mut s = "manifest mismatch: ".to_owned();
                s.append(detail.as_str());
                s
            },
            BackupError::NotAnArtifact =>
            "not a backup artifact: missing or corrupt journal/state layout".to_owned(),
        }
    }
}

/// Whether a directory is laid out as an instance: both directories and
/// every state file are there.
pub fn looks_like_instance_layout(
    journal_dir: bool,
    state_dir: bool,
    state_files_present: &Vec<bool>,
) -> (r: bool)
    ensures
        r == has_layout(journal_dir, state_dir, state_files_present@),
{
    if !journal_dir || !state_dir {
        return false;
    }
    let mut i: usize = 0;
    while i < state_files_present.len()
        invariant
            i <= state_files_present.len(),
            forall|j: int| 0 <= j < i ==> #[trigger] state_files_present@[j],
        decreases state_files_present.len() - i,
    {
        if !state_files_present[i] {
            return false;
        }
        i = i + 1;
    }
    true
}

/// The position in a snapshot's file name, `snap-<position>.ultsnap`.
pub open spec fn snap_pos(name: Seq<char>) -> Option<u64> {
    if name.len() >= 13 && name.take(5) == "snap-"@ && name.skip(name.len() - 8) == ".ultsnap"@ {
        text::u64_of(name.subrange(5, name.len() - 8))
    } else {
        None
    }
}

/// The position in a snapshot's file name. A file still being written has
/// another ending and is none.
pub fn parse_snap_pos(name: &str) -> (r: Option<u64>)
    ensures
        r == snap_pos(name@),
{
    let v = chars_of(name);
    if v.len() < 13 {
        return None;
    }
    let cut: usize = v.len() - 8;
    let head = string_between(&v, 0, 5);
    let tail = string_between(&v, cut, v.len());
    assert(head@ =~= name@.take(5));
    assert(tail@ =~= name@.skip(name@.len() - 8));
    if !same_text(head.as_str(), "snap-") || !same_text(tail.as_str(), ".ultsnap") {
        return None;
    }
    let middle = string_between(&v, 5, cut);
    parse_u64(middle.as_str())
}

/// The directories of a backup.
#[derive(Debug, Clone, Copy, PartialEq, Eq, Structural)]
pub enum BackupDir {
    Journal,
    State,
    Snapshots,
}

/// The order of copying.
pub open spec fn copy_order() -> Seq<BackupDir> {
    seq![BackupDir::Journal, BackupDir::State, BackupDir::Snapshots]
}

/// The directory to copy next, after `done` are finished: one is copied in
/// full before the next is looked at.
pub fn next_dir(done: usize) -> (d: Option<BackupDir>)
    ensures
        d == (if done < copy_order().len() {
            Some(copy_order()[done as int])
        } else {
            None
        }),
{
    match done {
        0 => Some(BackupDir::Journal),
        1 => Some(BackupDir::State),
        2 => Some(BackupDir::Snapshots),
        _ => None,
    }
}

/// The names of files.
pub open spec fn names(v: Seq<String>) -> Seq<Seq<char>> {
    v.map_values(|s: String| s@)
}

/// Whether a file is copied: of the snapshots only the complete ones.
pub open spec fn copied(d: BackupDir, name: Seq<char>) -> bool {
    d is Snapshots ==> snap_pos(name) is Some
}

/// The order of names: by their characters.
pub open spec fn not_after(a: Seq<char>, b: Seq<char>) -> bool
    decreases a.len(),
{
    if a.len() == 0 {
        true
    } else if b.len() == 0 {
        false
    } else if a[0] != b[0] {
        a[0] < b[0]
    } else {
        not_after(a.skip(1), b.skip(1))
    }
}

/// Whether names stand in order.
pub open spec fn in_order(s: Seq<Seq<char>>) -> bool {
    forall|i: int, j: int| 0 <= i < j < s.len() ==> not_after(#[trigger] s[i], #[trigger] s[j])
}

/// The order of two names.
fn name_not_after(a: &str, b: &str) -> (r: bool)
    ensures
        r == not_after(a@, b@),
{
    let x = chars_of(a);
    let y = chars_of(b);
    let mut i: usize = 0;
    assert(a@.skip(0) =~= a@);
    assert(b@.skip(0) =~= b@);
    while i < x.len()
        invariant
            x@ == a@,
            y@ == b@,
            i <= x.len(),
            i <= y.len(),
            not_after(a@, b@) == not_after(a@.skip(i as int), b@.skip(i as int)),
        decreases x.len() - i,
    {
        if i >= y.len() {
            return false;
        }
        if x[i] != y[i] {
            return x[i] < y[i];
        }
        assert(a@.skip(i as int).skip(1) =~= a@.skip(i as int + 1));
        assert(b@.skip(i as int).skip(1) =~= b@.skip(i as int + 1));
        i = i + 1;
    }
    true
}

proof fn lemma_order_is_total(a: Seq<char>, b: Seq<char>)
    ensures
        not_after(a, b) || not_after(b, a),
    decreases a.len(),
{
    if a.len() > 0 && b.len() > 0 && a[0] == b[0] {
        lemma_order_is_total(a.skip(1), b.skip(1));
    }
}

proof fn lemma_order_is_transitive(a: Seq<char>, b: Seq<char>, c: Seq<char>)
    requires
        not_after(a, b),
        not_after(b, c),
    ensures
        not_after(a, c),
    decreases a.len(),
{
    if a.len() > 0 && a[0] == b[0] && b[0] == c[0] {
        lemma_order_is_transitive(a.skip(1), b.skip(1), c.skip(1));
    }
}

proof fn lemma_insert_keeps_order(s: Seq<Seq<char>>, k: int, x: Seq<char>)
    requires
        in_order(s),
        0 <= k <= s.len(),
        forall|j: int| 0 <= j < k ==> not_after(#[trigger] s[j], x),
        k < s.len() ==> !not_after(s[k], x),
    ensures
        in_order(s.insert(k, x)),
        s.insert(k, x).to_multiset() == s.to_multiset().insert(x),
{
    let t = s.insert(k, x);
    assert forall|i: int, j: int| 0 <= i < j < t.len() implies not_after(
        #[trigger] t[i],
        #[trigger] t[j],
    ) by {
        if i == k {
            lemma_order_is_total(s[k], x);
            if j > k + 1 {
                lemma_order_is_transitive(x, s[k], s[j - 1]);
            }
        } else if j == k {
        } else {
            let a = if i < k {
                i
            } else {
                i - 1
            };
            let b = if j < k {
                j
            } else {
                j - 1
            };
            assert(t[i] == s[a]);
            assert(t[j] == s[b]);
        }
    }
    broadcast use vstd::seq_lib::group_to_multiset_ensures;

    assert(t.remove(k) =~= s);
    assert(t[k] == x);
    assert(t.contains(x));
    assert(t.to_multiset().count(x) > 0);
    assert(t.to_multiset() =~= s.to_multiset().insert(x));
}

/// The names of those files of a directory that are copied, in order: the
/// journal's active segment, whose name is the highest, comes last.
pub fn names_to_copy(d: BackupDir, found: &Vec<String>) -> (r: Vec<String>)
    ensures
        in_order(names(r@)),
        names(r@).to_multiset() == names(found@).filter(
            |n: Seq<char>| copied(d, n),
        ).to_multiset(),
{
    let mut r: Vec<String> = Vec::new();
    let ghost all = names(found@);
    let ghost keep = |n: Seq<char>| copied(d, n);
    assert(names(r@) =~= Seq::<Seq<char>>::empty());
    assert(all.take(0).filter(keep) =~= Seq::<Seq<char>>::empty()) by {
        reveal(Seq::filter);
    }
    let mut i: usize = 0;
    while i < found.len()
        invariant
            i <= found.len(),
            all == names(found@),
            keep == (|n: Seq<char>| copied(d, n)),
            in_order(names(r@)),
            names(r@).to_multiset() == all.take(i as int).filter(keep).to_multiset(),
        decreases found.len() - i,
    {
        let name = found[i].as_str();
        assert(all.take(i as int + 1) =~= all.take(i as int).push(name@));
        let kept = match d {
            BackupDir::Snapshots => parse_snap_pos(name).is_some(),
            _ => true,
        };
        proof {
            reveal(Seq::filter);
            assert(all.take(i as int + 1).drop_last() =~= all.take(i as int));
            broadcast use vstd::seq_lib::group_to_multiset_ensures;

        }
        if kept {
            let mut k: usize = 0;
            while k < r.len() && name_not_after(r[k].as_str(), name)
                invariant
                    k <= r.len(),
                    forall|j: int| 0 <= j < k ==> not_after(#[trigger] names(r@)[j], name@),
                decreases r.len() - k,
            {
                k = k + 1;
            }
            let ghost before = names(r@);
            proof {
                lemma_insert_keeps_order(before, k as int, name@);
            }
            r.insert(k, name.to_owned());
            assert(names(r@) =~= before.insert(k as int, name@));
        }
        i = i + 1;
    }
    assert(all.take(i as int) =~= all);
    r
}

/// The newest complete snapshot among files.
pub open spec fn newest(files: Seq<Seq<char>>) -> Option<u64>
    decreases files.len(),
{
    if files.len() == 0 {
        None
    } else {
        let rest = newest(files.drop_last());
        match snap_pos(files.last()) {
            None => rest,
            Some(pos) => match rest {
                Some(n) => if n >= pos {
                    Some(n)
                } else {
                    Some(pos)
                },
                None => Some(pos),
            },
        }
    }
}

/// How many of the files are complete snapshots.
pub open spec fn complete(files: Seq<Seq<char>>) -> nat
    decreases files.len(),
{
    if files.len() == 0 {
        0
    } else {
        complete(files.drop_last()) + if snap_pos(files.last()) is Some {
            1nat
        } else {
            0nat
        }
    }
}

/// The newest complete snapshot among the files of a directory, and how many
/// complete ones there are.
pub fn scan_snapshots(files: &Vec<String>) -> (r: (Option<u64>, usize))
    ensures
        r.0 == newest(names(files@)),
        r.1 == complete(names(files@)),
{
    let ghost all = names(files@);
    let mut best: Option<u64> = None;
    let mut count: usize = 0;
    let mut i: usize = 0;
    assert(all.take(0) =~= Seq::<Seq<char>>::empty());
    while i < files.len()
        invariant
            i <= files.len(),
            all == names(files@),
            best == newest(all.take(i as int)),
            count == complete(all.take(i as int)),
            count <= i,
        decreases files.len() - i,
    {
        assert(all.take(i as int + 1).drop_last() =~= all.take(i as int));
        assert(all.take(i as int + 1).last() == files@[i as int]@);
        match parse_snap_pos(files[i].as_str()) {
            Some(pos) => {
                count = count + 1;
                best =
                match best {
                    Some(n) => if n >= pos {
                        Some(n)
                    } else {
                        Some(pos)
                    },
                    None => Some(pos),
                };
            },
            None => {},
        }
        i = i + 1;
    }
    assert(all.take(i as int) =~= all);
    (best, count)
}

/// Whether a copy has a hole: its journal starts above 0, and no snapshot
/// reaches its start.
pub open spec fn has_hole(first_base: u64, newest_snapshot: Option<u64>) -> bool {
    first_base > 0 && !(newest_snapshot matches Some(pos) && pos >= first_base)
}

/// What was recovered from a copy.
#[derive(Debug)]
pub struct Recovered {
    pub journal_first_base: u64,
    pub journal_last_pos: u64,
    pub healed_torn_tail: bool,
    /// The recorded snapshot floor, where one was ever recorded.
    pub snapshot_floor: Option<u64>,
    pub journal_files: usize,
    pub state_files: usize,
}

/// What a copy's report says. The files are all those of the journal and of
/// the state, and the complete snapshots.
pub open spec fn report_of(rec: Recovered, files: Seq<Seq<char>>) -> BackupReport {
    BackupReport {
        journal_first_base: rec.journal_first_base,
        journal_last_pos: rec.journal_last_pos,
        newest_snapshot: newest(files),
        snapshot_floor: match rec.snapshot_floor {
            Some(n) => n,
            None => 0,
        },
        healed_torn_tail: rec.healed_torn_tail,
        files: (rec.journal_files + rec.state_files + complete(files)) as usize,
    }
}

/// Report on a copy whose journal and state were opened, and whose snapshot
/// directory holds `snapshots`, whether or not it has a hole.
pub fn report_recovered(rec: &Recovered, snapshots: &Vec<String>) -> (r: BackupReport)
    requires
        rec.journal_files + rec.state_files + snapshots@.len() <= usize::MAX,
    ensures
        r == report_of(*rec, names(snapshots@)),
{
    let (newest_snapshot, snapshot_files) = scan_snapshots(snapshots);
    proof {
        lemma_complete_is_bounded(names(snapshots@));
    }
    BackupReport {
        journal_first_base: rec.journal_first_base,
        journal_last_pos: rec.journal_last_pos,
        newest_snapshot,
        snapshot_floor: match rec.snapshot_floor {
            Some(n) => n,
            None => 0,
        },
        healed_torn_tail: rec.healed_torn_tail,
        files: rec.journal_files + rec.state_files + snapshot_files,
    }
}

/// Report on a copy, as [`report_recovered`] does; a copy with a hole is
/// none.
pub fn verify_recovered(rec: &Recovered, snapshots: &Vec<String>) -> (r: Result<
    BackupReport,
    BackupError,
>)
    requires
        rec.journal_files + rec.state_files + snapshots@.len() <= usize::MAX,
    ensures
        ({
            let found = names(snapshots@);
            match r {
                Ok(report) => verified(*rec, found) == Ok::<_, BackupError>(report)
                    && !has_hole(rec.journal_first_base, newest(found)),
                Err(e) => verified(*rec, found) == Err::<BackupReport, _>(e) && has_hole(
                    rec.journal_first_base,
                    newest(found),
                ),
            }
        }),
{
    let report = report_recovered(rec, snapshots);
    let covered = match report.newest_snapshot {
        Some(pos) => pos >= rec.journal_first_base,
        None => rec.journal_first_base == 0,
    };
    if rec.journal_first_base > 0 && !covered {
        return Err(
            BackupError::Hole {
                first_base: rec.journal_first_base,
                newest_snapshot: report.newest_snapshot,
            },
        );
    }
    Ok(report)
}

proof fn lemma_complete_is_bounded(files: Seq<Seq<char>>)
    ensures
        complete(files) <= files.len(),
    decreases files.len(),
{
    if files.len() > 0 {
        lemma_complete_is_bounded(files.drop_last());
    }
}

/// A snapshot position as the manifest spells it.
pub open spec fn snapshot_value(o: Option<u64>) -> Seq<char> {
    match o {
        Some(pos) => text::digits(pos as nat),
        None => "none"@,
    }
}

/// A snapshot position as the manifest spells it.
pub fn manifest_value(o: Option<u64>) -> (s: String)
    ensures
        s@ == snapshot_value(o),
{
    match o {
        Some(pos) => decimal(pos),
        None => "none".to_owned(),
    }
}

/// A line of the manifest.
pub open spec fn entry_line(key: Seq<char>, value: Seq<char>) -> Seq<char> {
    key + seq!['='] + value
}

/// The lines of a manifest.
pub open spec fn manifest_lines(r: BackupReport, created_unix_ns: u128) -> Seq<Seq<char>> {
    seq![
        entry_line("format"@, "uc2-backup-v1"@),
        entry_line("journal_first_base"@, text::digits(r.journal_first_base as nat)),
        entry_line("journal_last_pos"@, text::digits(r.journal_last_pos as nat)),
        entry_line("newest_snapshot"@, snapshot_value(r.newest_snapshot)),
        entry_line("snapshot_floor"@, text::digits(r.snapshot_floor as nat)),
        entry_line("healed_torn_tail"@, text::bool_text(r.healed_torn_tail)),
        entry_line("created_unix_ns"@, text::digits(created_unix_ns as nat)),
    ]
}

/// Lines one after the other, each with its end.
pub open spec fn joined(lines: Seq<Seq<char>>) -> Seq<char>
    decreases lines.len(),
{
    if lines.len() == 0 {
        Seq::empty()
    } else {
        lines[0].push('\n') + joined(lines.skip(1))
    }
}

/// Append a line of the manifest.
fn push_entry(out: &mut String, key: &str, value: &str)
    ensures
        final(out)@ == old(out)@ + entry_line(key@, value@).push('\n'),
{
    out.append(key);
    out.push('=');
    out.append(value);
    out.push('\n');
    assert(out@ =~= old(out)@ + entry_line(key@, value@).push('\n'));
}

/// The manifest of a copy.
pub fn manifest_text(r: &BackupReport, created_unix_ns: u128) -> (s: String)
    ensures
        s@ == joined(manifest_lines(*r, created_unix_ns)),
{
    let mut s = String::new();
    push_entry(&mut s, "format", "uc2-backup-v1");
    let v = decimal(r.journal_first_base);
    push_entry(&mut s, "journal_first_base", v.as_str());
    let v = decimal(r.journal_last_pos);
    push_entry(&mut s, "journal_last_pos", v.as_str());
    let v = manifest_value(r.newest_snapshot);
    push_entry(&mut s, "newest_snapshot", v.as_str());
    let v = decimal(r.snapshot_floor);
    push_entry(&mut s, "snapshot_floor", v.as_str());
    push_entry(&mut s, "healed_torn_tail", bool_str(r.healed_torn_tail));
    let mut v = String::new();
    push_decimal(&mut v, created_unix_ns);
    assert(v@ =~= text::digits(created_unix_ns as nat));
    push_entry(&mut s, "created_unix_ns", v.as_str());
    proof {
        let l = manifest_lines(*r, created_unix_ns);
        reveal_with_fuel(joined, 8);
        assert(l.skip(1).skip(1) =~= l.skip(2));
        assert(l.skip(2).skip(1) =~= l.skip(3));
        assert(l.skip(3).skip(1) =~= l.skip(4));
        assert(l.skip(4).skip(1) =~= l.skip(5));
        assert(l.skip(5).skip(1) =~= l.skip(6));
        assert(l.skip(6).skip(1) =~= l.skip(7));
        assert(s@ =~= l[0].push('\n') + (l[1].push('\n') + (l[2].push('\n') + (l[3].push('\n') + (
        l[4].push('\n') + (l[5].push('\n') + (l[6].push('\n') + Seq::empty())))))));
    }
    s
}

/// The lines of a text, without their ends.
pub open spec fn lines_of(s: Seq<char>) -> Seq<Seq<char>>
    decreases s.len(),
{
    if s.len() == 0 {
        Seq::empty()
    } else {
        let n = text::until(s, '\n').len() as int;
        let rest = if n < s.len() {
            s.skip(n + 1)
        } else {
            Seq::empty()
        };
        seq![text::first_line(s)] + lines_of(rest)
    }
}

/// The value of the last line with the key `key`; a line without `=` has no
/// key.
pub open spec fn lookup(lines: Seq<Seq<char>>, key: Seq<char>) -> Option<Seq<char>>
    decreases lines.len(),
{
    if lines.len() == 0 {
        None
    } else {
        let l = lines.last();
        let k = text::until(l, '=');
        if k.len() < l.len() && k == key {
            Some(l.skip(k.len() as int + 1))
        } else {
            lookup(lines.drop_last(), key)
        }
    }
}

/// A manifest's keys and values, in order.
pub type Manifest = Vec<(String, String)>;

/// Whether parsed entries are those of `lines`.
pub open spec fn holds(m: Seq<(String, String)>, lines: Seq<Seq<char>>) -> bool {
    forall|key: Seq<char>| #[trigger] find_entry(m, key) == lookup(lines, key)
}

/// The value of the last entry with the key `key`.
pub open spec fn find_entry(m: Seq<(String, String)>, key: Seq<char>) -> Option<Seq<char>>
    decreases m.len(),
{
    if m.len() == 0 {
        None
    } else if m.last().0@ == key {
        Some(m.last().1@)
    } else {
        find_entry(m.drop_last(), key)
    }
}

/// Read a manifest: its lines with `=`, split at the first.
pub fn parse_manifest(content: &str) -> (m: Manifest)
    ensures
        holds(m@, lines_of(content@)),
{
    let v = chars_of(content);
    let mut m: Manifest = Vec::new();
    let ghost mut seen: Seq<Seq<char>> = Seq::empty();
    let mut at: usize = 0;
    assert(v@.skip(0) =~= v@);
    assert(seen + lines_of(v@) =~= lines_of(v@));
    while at < v.len()
        invariant
            v@ == content@,
            at <= v.len(),
            holds(m@, seen),
            seen + lines_of(v@.skip(at as int)) == lines_of(content@),
        decreases v.len() - at,
    {
        let ghost rest = v@.skip(at as int);
        let end: usize = find(&v, at, v.len(), '\n');
        assert(v@.subrange(at as int, v@.len() as int) =~= rest);
        assert(text::until(rest, '\n') == v@.subrange(at as int, end as int));
        let cut: usize = if end < v.len() && end > at && v[end - 1] == '\r' {
            end - 1
        } else {
            end
        };
        let ghost line = v@.subrange(at as int, cut as int);
        assert(line =~= text::first_line(rest));
        let next: usize = if end < v.len() {
            end + 1
        } else {
            end
        };
        let eq: usize = find(&v, at, cut, '=');
        let ghost key = text::until(line, '=');
        assert(key == v@.subrange(at as int, eq as int));
        let ghost before = m@;
        if eq < cut {
            let k = string_between(&v, at, eq);
            let value = string_between(&v, eq + 1, cut);
            m.push((k, value));
            assert(value@ =~= line.skip(key.len() as int + 1));
        }
        proof {
            let grown = seen.push(line);
            assert forall|q: Seq<char>| #[trigger] find_entry(m@, q) == lookup(grown, q) by {
                assert(grown.drop_last() =~= seen);
                assert(find_entry(before, q) == lookup(seen, q));
                if eq < cut {
                    assert(m@.drop_last() =~= before);
                }
            }
            let after = v@.skip(next as int);
            assert(after =~= (if end < v@.len() {
                rest.skip(end - at + 1)
            } else {
                Seq::empty()
            }));
            assert(lines_of(rest) =~= seq![line] + lines_of(after));
            assert(grown + lines_of(after) =~= seen + lines_of(rest));
            seen = grown;
        }
        at = next;
    }
    assert(v@.skip(at as int) =~= Seq::empty());
    assert(seen =~= lines_of(content@));
    m
}

/// The value of a key.
fn get<'a>(m: &'a Manifest, key: &str) -> (r: Option<&'a String>)
    ensures
        match r {
            Some(v) => find_entry(m@, key@) == Some(v@),
            None => find_entry(m@, key@) is None,
        },
{
    let mut i: usize = m.len();
    assert(m@.take(m@.len() as int) =~= m@);
    while i > 0
        invariant
            i <= m.len(),
            find_entry(m@, key@) == find_entry(m@.take(i as int), key@),
        decreases i,
    {
        assert(m@.take(i as int).drop_last() =~= m@.take(i as int - 1));
        if same_text(m[i - 1].0.as_str(), key) {
            return Some(&m[i - 1].1);
        }
        i = i - 1;
    }
    None
}

/// What is wrong where a key is missing.
pub open spec fn missing_text(key: Seq<char>) -> Seq<char> {
    "missing key "@ + key
}

/// What is wrong where a value is no number.
pub open spec fn not_a_number_text(key: Seq<char>, raw: Seq<char>) -> Seq<char> {
    key + ": not a u64 in manifest ("@ + text::quoted(raw) + ")"@
}

/// What is wrong where a value differs.
pub open spec fn mismatch_text(key: Seq<char>, says: Seq<char>, actual: Seq<char>) -> Seq<char> {
    key + ": manifest says "@ + says + ", artifact recovers "@ + actual
}

/// What is wrong with a number of the manifest.
pub open spec fn number_fault(
    value: Option<Seq<char>>,
    key: Seq<char>,
    actual: u64,
) -> Option<Seq<char>> {
    match value {
        None => Some(missing_text(key)),
        Some(raw) => match text::u64_of(raw) {
            None => Some(not_a_number_text(key, raw)),
            Some(n) => if n == actual {
                None
            } else {
                Some(mismatch_text(key, text::digits(n as nat), text::digits(actual as nat)))
            },
        },
    }
}

/// What is wrong with the manifest's format.
pub open spec fn format_fault(value: Option<Seq<char>>) -> Option<Seq<char>> {
    match value {
        None => Some(missing_text("format"@)),
        Some(f) => if f == "uc2-backup-v1"@ {
            None
        } else {
            Some("unknown format "@ + text::quoted(f))
        },
    }
}

/// What is wrong with the manifest's snapshot.
pub open spec fn snapshot_fault(
    value: Option<Seq<char>>,
    actual: Option<u64>,
) -> Option<Seq<char>> {
    match value {
        None => Some(missing_text("newest_snapshot"@)),
        Some(raw) => if raw == "none"@ {
            if actual is None {
                None
            } else {
                Some(mismatch_text("newest_snapshot"@, "none"@, snapshot_value(actual)))
            }
        } else {
            match text::u64_of(raw) {
                None => Some(not_a_number_text("newest_snapshot"@, raw)),
                Some(n) => if actual == Some(n) {
                    None
                } else {
                    Some(
                        mismatch_text(
                            "newest_snapshot"@,
                            text::digits(n as nat),
                            snapshot_value(actual),
                        ),
                    )
                },
            }
        },
    }
}

/// What is wrong with the manifest's torn-tail flag.
pub open spec fn torn_fault(value: Option<Seq<char>>, actual: bool) -> Option<Seq<char>> {
    match value {
        None => Some(missing_text("healed_torn_tail"@)),
        Some(raw) => if raw == text::bool_text(true) || raw == text::bool_text(false) {
            if raw == text::bool_text(actual) {
                None
            } else {
                Some(mismatch_text("healed_torn_tail"@, raw, text::bool_text(actual)))
            }
        } else {
            Some("healed_torn_tail: not a bool ("@ + text::quoted(raw) + ")"@)
        },
    }
}

/// What is wrong where the time stamp is missing. Its value is not checked.
pub open spec fn created_fault(value: Option<Seq<char>>) -> Option<Seq<char>> {
    match value {
        None => Some(missing_text("created_unix_ns"@)),
        Some(_) => None,
    }
}

/// The first thing that is wrong with a manifest.
pub open spec fn manifest_fault(lines: Seq<Seq<char>>, r: BackupReport) -> Option<Seq<char>> {
    let format = format_fault(lookup(lines, "format"@));
    let first = number_fault(
        lookup(lines, "journal_first_base"@),
        "journal_first_base"@,
        r.journal_first_base,
    );
    let last = number_fault(
        lookup(lines, "journal_last_pos"@),
        "journal_last_pos"@,
        r.journal_last_pos,
    );
    let snapshot = snapshot_fault(lookup(lines, "newest_snapshot"@), r.newest_snapshot);
    let floor = number_fault(
        lookup(lines, "snapshot_floor"@),
        "snapshot_floor"@,
        r.snapshot_floor,
    );
    let torn = torn_fault(lookup(lines, "healed_torn_tail"@), r.healed_torn_tail);
    if format is Some {
        format
    } else if first is Some {
        first
    } else if last is Some {
        last
    } else if snapshot is Some {
        snapshot
    } else if floor is Some {
        floor
    } else if torn is Some {
        torn
    } else {
        created_fault(lookup(lines, "created_unix_ns"@))
    }
}

/// What an optional finding says.
pub open spec fn finding(r: Option<String>) -> Option<Seq<char>> {
    crate::node::effects::text_view(r)
}

/// A missing key.
fn missing(key: &str) -> (r: Option<String>)
    ensures
        finding(r) == Some(missing_text(key@)),
{
    let mut s = "missing key ".to_owned();
    s.append(key);
    Some(s)
}

/// A value that differs.
fn mismatch(key: &str, says: &str, actual: &str) -> (r: Option<String>)
    ensures
        finding(r) == Some(mismatch_text(key@, says@, actual@)),
{
    let mut s = key.to_owned();
    s.append(": manifest says ");
    s.append(says);
    s.append(", artifact recovers ");
    s.append(actual);
    Some(s)
}

/// A value that is no number.
fn not_a_number(key: &str, raw: &str) -> (r: Option<String>)
    ensures
        finding(r) == Some(not_a_number_text(key@, raw@)),
{
    let mut s = key.to_owned();
    s.append(": not a u64 in manifest (");
    let q = quote(raw);
    s.append(q.as_str());
    s.append(")");
    Some(s)
}

/// Check a number of the manifest.
fn check_number(m: &Manifest, key: &str, actual: u64) -> (r: Option<String>)
    ensures
        finding(r) == number_fault(find_entry(m@, key@), key@, actual),
{
    match get(m, key) {
        None => missing(key),
        Some(raw) => match parse_u64(raw.as_str()) {
            None => not_a_number(key, raw.as_str()),
            Some(n) => {
                if n == actual {
                    None
                } else {
                    let says = decimal(n);
                    let is = decimal(actual);
                    mismatch(key, says.as_str(), is.as_str())
                }
            },
        },
    }
}

/// Check the manifest's format.
fn check_format(m: &Manifest) -> (r: Option<String>)
    ensures
        finding(r) == format_fault(find_entry(m@, "format"@)),
{
    match get(m, "format") {
        None => missing("format"),
        Some(f) => {
            if same_text(f.as_str(), "uc2-backup-v1") {
                None
            } else {
                let mut s = "unknown format ".to_owned();
                let q = quote(f.as_str());
                s.append(q.as_str());
                Some(s)
            }
        },
    }
}

/// Check the manifest's snapshot.
fn check_snapshot(m: &Manifest, actual: Option<u64>) -> (r: Option<String>)
    ensures
        finding(r) == snapshot_fault(find_entry(m@, "newest_snapshot"@), actual),
{
    let raw = match get(m, "newest_snapshot") {
        None => {
            return missing("newest_snapshot");
        },
        Some(raw) => raw,
    };
    let is = manifest_value(actual);
    if same_text(raw.as_str(), "none") {
        if actual.is_none() {
            return None;
        }
        return mismatch("newest_snapshot", "none", is.as_str());
    }
    match parse_u64(raw.as_str()) {
        None => not_a_number("newest_snapshot", raw.as_str()),
        Some(n) => {
            let same = match actual {
                Some(a) => a == n,
                None => false,
            };
            if same {
                None
            } else {
                let says = decimal(n);
                mismatch("newest_snapshot", says.as_str(), is.as_str())
            }
        },
    }
}

/// Check the manifest's torn-tail flag.
fn check_torn(m: &Manifest, actual: bool) -> (r: Option<String>)
    ensures
        finding(r) == torn_fault(find_entry(m@, "healed_torn_tail"@), actual),
{
    let raw = match get(m, "healed_torn_tail") {
        None => {
            return missing("healed_torn_tail");
        },
        Some(raw) => raw,
    };
    if same_text(raw.as_str(), bool_str(true)) || same_text(raw.as_str(), bool_str(false)) {
        if same_text(raw.as_str(), bool_str(actual)) {
            None
        } else {
            mismatch("healed_torn_tail", raw.as_str(), bool_str(actual))
        }
    } else {
        let mut s = "healed_torn_tail: not a bool (".to_owned();
        let q = quote(raw.as_str());
        s.append(q.as_str());
        s.append(")");
        Some(s)
    }
}

/// Hold a manifest against what a copy recovers.
pub fn check_manifest(content: &str, report: &BackupReport) -> (r: Result<(), BackupError>)
    ensures
        match r {
            Ok(_) => manifest_fault(lines_of(content@), *report) is None,
            Err(e) => e matches BackupError::ManifestMismatch(detail) && manifest_fault(
                lines_of(content@),
                *report,
            ) == Some(detail@),
        },
{
    let m = parse_manifest(content);
    let ghost lines = lines_of(content@);
    assert(find_entry(m@, "format"@) == lookup(lines, "format"@));
    assert(find_entry(m@, "journal_first_base"@) == lookup(lines, "journal_first_base"@));
    assert(find_entry(m@, "journal_last_pos"@) == lookup(lines, "journal_last_pos"@));
    assert(find_entry(m@, "newest_snapshot"@) == lookup(lines, "newest_snapshot"@));
    assert(find_entry(m@, "snapshot_floor"@) == lookup(lines, "snapshot_floor"@));
    assert(find_entry(m@, "healed_torn_tail"@) == lookup(lines, "healed_torn_tail"@));
    assert(find_entry(m@, "created_unix_ns"@) == lookup(lines, "created_unix_ns"@));
    match check_format(&m) {
        Some(d) => {
            return Err(BackupError::ManifestMismatch(d));
        },
        None => {},
    }
    match check_number(&m, "journal_first_base", report.journal_first_base) {
        Some(d) => {
            return Err(BackupError::ManifestMismatch(d));
        },
        None => {},
    }
    match check_number(&m, "journal_last_pos", report.journal_last_pos) {
        Some(d) => {
            return Err(BackupError::ManifestMismatch(d));
        },
        None => {},
    }
    match check_snapshot(&m, report.newest_snapshot) {
        Some(d) => {
            return Err(BackupError::ManifestMismatch(d));
        },
        None => {},
    }
    match check_number(&m, "snapshot_floor", report.snapshot_floor) {
        Some(d) => {
            return Err(BackupError::ManifestMismatch(d));
        },
        None => {},
    }
    match check_torn(&m, report.healed_torn_tail) {
        Some(d) => {
            return Err(BackupError::ManifestMismatch(d));
        },
        None => {},
    }
    match get(&m, "created_unix_ns") {
        None => {
            match missing("created_unix_ns") {
                Some(d) => Err(BackupError::ManifestMismatch(d)),
                None => Ok(()),
            }
        },
        Some(_) => Ok(()),
    }
}

/// The name of a snapshot's file reads back as its position.
pub proof fn law_snapshot_name_reads_back(pos: u64)
    ensures
        snap_pos(boot::snapshot_name(pos)) == Some(pos),
{
    let name = boot::snapshot_name(pos);
    let d = text::digits(pos as nat);
    text::law_decimal_reads_back(pos as nat);
    reveal_strlit("snap-");
    reveal_strlit(".ultsnap");
    assert(name.take(5) =~= "snap-"@);
    assert(name.skip(name.len() - 8) =~= ".ultsnap"@);
    assert(name.subrange(5, name.len() - 8) =~= d);
}

/// A copy without a hole can be restored: from the journal alone, or from a
/// snapshot at or above the journal's start.
pub proof fn law_accepted_copy_is_covered(rec: Recovered, files: Seq<Seq<char>>)
    requires
        !has_hole(rec.journal_first_base, newest(files)),
    ensures
        rec.journal_first_base == 0 || exists|i: int|
            0 <= i < files.len() && (snap_pos(#[trigger] files[i]) matches Some(pos) && pos
                >= rec.journal_first_base),
{
    if rec.journal_first_base > 0 {
        lemma_newest_is_there(files);
        let i = choose|i: int|
            0 <= i < files.len() && snap_pos(#[trigger] files[i]) == newest(files);
        assert(snap_pos(files[i]) matches Some(pos) && pos >= rec.journal_first_base);
    }
}

proof fn lemma_newest_is_there(files: Seq<Seq<char>>)
    requires
        newest(files) is Some,
    ensures
        exists|i: int| 0 <= i < files.len() && snap_pos(#[trigger] files[i]) == newest(files),
    decreases files.len(),
{
    let rest = files.drop_last();
    if snap_pos(files.last()) == newest(files) {
        assert(files[files.len() - 1] == files.last());
    } else {
        lemma_newest_is_there(rest);
        let i = choose|i: int|
            0 <= i < rest.len() && snap_pos(#[trigger] rest[i]) == newest(rest);
        assert(files[i] == rest[i]);
    }
}

/// The journal is copied before the snapshots.
pub proof fn law_journal_is_copied_first(i: int, j: int)
    requires
        0 <= i < copy_order().len(),
        0 <= j < copy_order().len(),
        copy_order()[i] is Journal,
        copy_order()[j] is Snapshots,
    ensures
        i < j,
{
}

/// One moment of an instance in use.
pub struct Moment {
    /// Where its journal starts.
    pub first_base: u64,
    /// What its snapshot directory holds.
    pub files: Seq<Seq<char>>,
}

/// Whether `b` is a snapshot at least as new as `a`, where there is an `a`.
pub open spec fn not_older(a: Option<u64>, b: Option<u64>) -> bool {
    a matches Some(x) ==> (b matches Some(y) && x <= y)
}

/// How an instance in use may change: its journal is purged no further than
/// a snapshot it keeps reaches, and its newest snapshot only gets newer.
pub open spec fn keeps_covered(h: Seq<Moment>) -> bool {
    &&& forall|i: int|
        0 <= i < h.len() ==> !has_hole((#[trigger] h[i]).first_base, newest(h[i].files))
    &&& forall|i: int, j: int|
        0 <= i <= j < h.len() ==> not_older(
            newest((#[trigger] h[i]).files),
            newest((#[trigger] h[j]).files),
        )
}

proof fn lemma_newest_is_not_below(files: Seq<Seq<char>>, i: int)
    requires
        0 <= i < files.len(),
    ensures
        not_older(snap_pos(files[i]), newest(files)),
    decreases files.len(),
{
    if i < files.len() - 1 {
        lemma_newest_is_not_below(files.drop_last(), i);
        assert(files.drop_last()[i] == files[i]);
    }
}

/// A copy taken beside a purge has no hole: a snapshot copied at or after the
/// moment at which the journal was copied covers whatever had been purged by
/// then. `kept` are the snapshots copied at `snapshots_at`, in any order.
pub proof fn law_ordered_copy_has_no_hole(
    h: Seq<Moment>,
    journal_at: int,
    snapshots_at: int,
    kept: Seq<Seq<char>>,
)
    requires
        keeps_covered(h),
        0 <= journal_at <= snapshots_at < h.len(),
        kept.to_multiset() == h[snapshots_at].files.filter(
            |n: Seq<char>| copied(BackupDir::Snapshots, n),
        ).to_multiset(),
    ensures
        !has_hole(h[journal_at].first_base, newest(kept)),
{
    let files = h[snapshots_at].files;
    let keep = |n: Seq<char>| copied(BackupDir::Snapshots, n);
    if h[journal_at].first_base > 0 {
        assert(not_older(newest(h[journal_at].files), newest(files)));
        lemma_newest_is_there(files);
        let i = choose|i: int|
            0 <= i < files.len() && snap_pos(#[trigger] files[i]) == newest(files);
        files.lemma_filter_contains(keep, i);
        broadcast use vstd::seq_lib::group_to_multiset_ensures;

        assert(files.filter(keep).to_multiset().count(files[i]) > 0);
        assert(kept.contains(files[i]));
        let k = choose|k: int| 0 <= k < kept.len() && kept[k] == files[i];
        lemma_newest_is_not_below(kept, k);
    }
}

proof fn lemma_until_stops(a: Seq<char>, c: char, tail: Seq<char>)
    requires
        !a.contains(c),
    ensures
        text::until(a.push(c) + tail, c) == a,
    decreases a.len(),
{
    let s = a.push(c) + tail;
    if a.len() == 0 {
        assert(s[0] == c);
        assert(text::until(s, c) =~= a);
    } else {
        assert(s[0] == a[0]);
        assert(a.contains(a[0]));
        let b = a.skip(1);
        assert forall|i: int| 0 <= i < b.len() implies b[i] != c by {
            assert(a[i + 1] == b[i]);
            assert(a.contains(a[i + 1]));
        }
        lemma_until_stops(b, c, tail);
        assert(s.skip(1) =~= b.push(c) + tail);
        assert(text::until(s, c) =~= a);
    }
}

proof fn lemma_lines_read_back(lines: Seq<Seq<char>>)
    requires
        forall|i: int| 0 <= i < lines.len() ==> crate::obs::log::printable(#[trigger] lines[i]),
    ensures
        lines_of(joined(lines)) == lines,
    decreases lines.len(),
{
    let s = joined(lines);
    if lines.len() > 0 {
        let l = lines[0];
        let rest = lines.skip(1);
        assert forall|i: int| 0 <= i < rest.len() implies crate::obs::log::printable(
            #[trigger] rest[i],
        ) by {
            assert(rest[i] == lines[i + 1]);
        }
        lemma_lines_read_back(rest);
        assert(!l.contains('\n')) by {
            if l.contains('\n') {
                let i = choose|i: int| 0 <= i < l.len() && l[i] == '\n';
                assert(l[i] as int >= 0x20);
            }
        }
        lemma_until_stops(l, '\n', joined(rest));
        assert(text::until(s, '\n') == l);
        if l.len() > 0 {
            assert(l[l.len() - 1] as int >= 0x20);
        }
        assert(s.skip(l.len() as int + 1) =~= joined(rest));
        assert(lines_of(s) =~= seq![l] + rest);
        assert(seq![l] + rest =~= lines);
    } else {
        assert(lines_of(s) =~= lines);
    }
}

proof fn lemma_lookup_step(lines: Seq<Seq<char>>, n: int, key: Seq<char>, k: Seq<char>, v: Seq<char>)
    requires
        0 <= n < lines.len(),
        lines[n] == entry_line(k, v),
        !k.contains('='),
    ensures
        lookup(lines.take(n + 1), key) == (if k == key {
            Some(v)
        } else {
            lookup(lines.take(n), key)
        }),
{
    let l = lines[n];
    lemma_until_stops(k, '=', v);
    assert(l =~= k.push('=') + v);
    assert(lines.take(n + 1).drop_last() =~= lines.take(n));
    assert(l.skip(k.len() as int + 1) =~= v);
}

/// The manifest keys, told apart.
proof fn lemma_keys()
    ensures
        !"format"@.contains('='),
        !"journal_first_base"@.contains('='),
        !"journal_last_pos"@.contains('='),
        !"newest_snapshot"@.contains('='),
        !"snapshot_floor"@.contains('='),
        !"healed_torn_tail"@.contains('='),
        !"created_unix_ns"@.contains('='),
        "format"@.len() == 6,
        "journal_first_base"@.len() == 18,
        "journal_last_pos"@.len() == 16,
        "newest_snapshot"@.len() == 15,
        "snapshot_floor"@.len() == 14,
        "healed_torn_tail"@.len() == 16,
        "created_unix_ns"@.len() == 15,
        "journal_last_pos"@[0] == 'j',
        "healed_torn_tail"@[0] == 'h',
        "newest_snapshot"@[0] == 'n',
        "created_unix_ns"@[0] == 'c',
{
    reveal_strlit("format");
    reveal_strlit("journal_first_base");
    reveal_strlit("journal_last_pos");
    reveal_strlit("newest_snapshot");
    reveal_strlit("snapshot_floor");
    reveal_strlit("healed_torn_tail");
    reveal_strlit("created_unix_ns");
}

proof fn lemma_manifest_is_printable(r: BackupReport, created: u128)
    ensures
        forall|i: int|
            0 <= i < manifest_lines(r, created).len() ==> crate::obs::log::printable(
                #[trigger] manifest_lines(r, created)[i],
            ),
{
    reveal_strlit("format");
    reveal_strlit("journal_first_base");
    reveal_strlit("journal_last_pos");
    reveal_strlit("newest_snapshot");
    reveal_strlit("snapshot_floor");
    reveal_strlit("healed_torn_tail");
    reveal_strlit("created_unix_ns");
    reveal_strlit("uc2-backup-v1");
    reveal_strlit("none");
    reveal_strlit("true");
    reveal_strlit("false");
    crate::obs::log::lemma_digits_are_printable(r.journal_first_base as nat);
    crate::obs::log::lemma_digits_are_printable(r.journal_last_pos as nat);
    crate::obs::log::lemma_digits_are_printable(r.snapshot_floor as nat);
    crate::obs::log::lemma_digits_are_printable(created as nat);
    match r.newest_snapshot {
        Some(n) => {
            crate::obs::log::lemma_digits_are_printable(n as nat);
        },
        None => {},
    }
    let l = manifest_lines(r, created);
    assert(crate::obs::log::printable(l[0]));
    assert(crate::obs::log::printable(l[1]));
    assert(crate::obs::log::printable(l[2]));
    assert(crate::obs::log::printable(l[3]));
    assert(crate::obs::log::printable(l[4]));
    assert(crate::obs::log::printable(l[5]));
    assert(crate::obs::log::printable(l[6]));
}

proof fn lemma_manifest_lookup(r: BackupReport, created: u128)
    ensures
        ({
            let l = manifest_lines(r, created);
            &&& lookup(l, "format"@) == Some("uc2-backup-v1"@)
            &&& lookup(l, "journal_first_base"@) == Some(text::digits(r.journal_first_base as nat))
            &&& lookup(l, "journal_last_pos"@) == Some(text::digits(r.journal_last_pos as nat))
            &&& lookup(l, "newest_snapshot"@) == Some(snapshot_value(r.newest_snapshot))
            &&& lookup(l, "snapshot_floor"@) == Some(text::digits(r.snapshot_floor as nat))
            &&& lookup(l, "healed_torn_tail"@) == Some(text::bool_text(r.healed_torn_tail))
            &&& lookup(l, "created_unix_ns"@) == Some(text::digits(created as nat))
        }),
{
    let l = manifest_lines(r, created);
    lemma_keys();
    assert(l.take(7) =~= l);
    lemma_manifest_steps(r, created, "format"@);
    lemma_manifest_steps(r, created, "journal_first_base"@);
    lemma_manifest_steps(r, created, "journal_last_pos"@);
    lemma_manifest_steps(r, created, "newest_snapshot"@);
    lemma_manifest_steps(r, created, "snapshot_floor"@);
    lemma_manifest_steps(r, created, "healed_torn_tail"@);
    lemma_manifest_steps(r, created, "created_unix_ns"@);
}

proof fn lemma_manifest_steps(r: BackupReport, created: u128, key: Seq<char>)
    ensures
        ({
            let l = manifest_lines(r, created);
            lookup(l, key) == (if "created_unix_ns"@ == key {
                Some(text::digits(created as nat))
            } else if "healed_torn_tail"@ == key {
                Some(text::bool_text(r.healed_torn_tail))
            } else if "snapshot_floor"@ == key {
                Some(text::digits(r.snapshot_floor as nat))
            } else if "newest_snapshot"@ == key {
                Some(snapshot_value(r.newest_snapshot))
            } else if "journal_last_pos"@ == key {
                Some(text::digits(r.journal_last_pos as nat))
            } else if "journal_first_base"@ == key {
                Some(text::digits(r.journal_first_base as nat))
            } else if "format"@ == key {
                Some("uc2-backup-v1"@)
            } else {
                None
            })
        }),
{
    let l = manifest_lines(r, created);
    lemma_keys();
    assert(l.take(7) =~= l);
    assert(l.take(0) =~= Seq::<Seq<char>>::empty());
    lemma_lookup_step(l, 0, key, "format"@, "uc2-backup-v1"@);
    lemma_lookup_step(
        l,
        1,
        key,
        "journal_first_base"@,
        text::digits(r.journal_first_base as nat),
    );
    lemma_lookup_step(l, 2, key, "journal_last_pos"@, text::digits(r.journal_last_pos as nat));
    lemma_lookup_step(l, 3, key, "newest_snapshot"@, snapshot_value(r.newest_snapshot));
    lemma_lookup_step(l, 4, key, "snapshot_floor"@, text::digits(r.snapshot_floor as nat));
    lemma_lookup_step(l, 5, key, "healed_torn_tail"@, text::bool_text(r.healed_torn_tail));
    lemma_lookup_step(l, 6, key, "created_unix_ns"@, text::digits(created as nat));
}

/// A manifest passes against a report exactly where the report it was
/// written of has the same positions and the same torn-tail flag: what was
/// written reads back, and a changed figure is caught.
pub proof fn law_manifest_vouches_for_its_report(
    written: BackupReport,
    created: u128,
    recovered: BackupReport,
)
    ensures
        (manifest_fault(lines_of(joined(manifest_lines(written, created))), recovered) is None)
            == (written.journal_first_base == recovered.journal_first_base
            && written.journal_last_pos == recovered.journal_last_pos && written.newest_snapshot
            == recovered.newest_snapshot && written.snapshot_floor == recovered.snapshot_floor
            && written.healed_torn_tail == recovered.healed_torn_tail),
{
    let l = manifest_lines(written, created);
    lemma_manifest_is_printable(written, created);
    lemma_lines_read_back(l);
    lemma_manifest_lookup(written, created);
    text::law_decimal_reads_back(written.journal_first_base as nat);
    text::law_decimal_reads_back(written.journal_last_pos as nat);
    text::law_decimal_reads_back(written.snapshot_floor as nat);
    reveal_strlit("none");
    reveal_strlit("true");
    reveal_strlit("false");
    assert("true"@.len() != "false"@.len());
    match written.newest_snapshot {
        Some(n) => {
            text::law_decimal_reads_back(n as nat);
            assert(text::is_digit(text::digits(n as nat)[0]));
            assert("none"@[0] == 'n');
            assert(text::digits(n as nat) != "none"@);
        },
        None => {},
    }
}

/// Whether a directory has an instance's layout: the journal, the state, and
/// every state file.
pub open spec fn has_layout(journal_dir: bool, state_dir: bool, present: Seq<bool>) -> bool {
    journal_dir && state_dir && forall|i: int|
        0 <= i < present.len() ==> #[trigger] present[i]
}

/// A directory without its journal, without its state or without any one of
/// the state files is no instance; with all of them it is.
pub proof fn law_layout_misses_nothing(journal_dir: bool, state_dir: bool, present: Seq<bool>)
    ensures
        !journal_dir || !state_dir || present.contains(false) ==> !has_layout(
            journal_dir,
            state_dir,
            present,
        ),
        journal_dir && state_dir && !present.contains(false) ==> has_layout(
            journal_dir,
            state_dir,
            present,
        ),
{
    if journal_dir && state_dir && !present.contains(false) {
        assert forall|i: int| 0 <= i < present.len() implies #[trigger] present[i] by {
            if !present[i] {
                assert(present.contains(false));
            }
        }
    }
}

/// The newest snapshot is one of the complete ones, and none is newer; there
/// is none exactly where no file is a complete snapshot. The count is that of
/// the complete ones.
pub proof fn law_newest_snapshot_is_the_highest(files: Seq<Seq<char>>, i: int)
    ensures
        newest(files) matches Some(n) ==> exists|k: int|
            0 <= k < files.len() && snap_pos(#[trigger] files[k]) == Some(n),
        0 <= i < files.len() && snap_pos(files[i]) is Some ==> newest(files) is Some && snap_pos(
            files[i],
        )->0 <= newest(files)->0,
        complete(files) == files.filter(|n: Seq<char>| snap_pos(n) is Some).len(),
    decreases files.len(),
{
    if newest(files) is Some {
        lemma_newest_is_there(files);
    }
    if 0 <= i < files.len() {
        lemma_newest_is_not_below(files, i);
    }
    lemma_complete_counts(files);
}

proof fn lemma_complete_counts(files: Seq<Seq<char>>)
    ensures
        complete(files) == files.filter(|n: Seq<char>| snap_pos(n) is Some).len(),
    decreases files.len(),
{
    reveal(Seq::filter);
    if files.len() > 0 {
        lemma_complete_counts(files.drop_last());
    }
}

/// A snapshot's file is named for its position between a fixed beginning and a
/// fixed end, and one that is still being written is none.
pub proof fn law_snapshot_names_have_their_form(name: Seq<char>)
    ensures
        snap_pos(name) matches Some(pos) ==> exists|middle: Seq<char>|
            name == "snap-"@ + middle + ".ultsnap"@ && #[trigger] text::u64_of(middle) == Some(pos),
        snap_pos(name + ".tmp"@) is None,
{
    reveal_strlit("snap-");
    reveal_strlit(".ultsnap");
    reveal_strlit(".tmp");
    if snap_pos(name) is Some {
        let middle = name.subrange(5, name.len() - 8);
        assert(name =~= name.take(5) + middle + name.skip(name.len() - 8));
        assert(text::u64_of(middle) == snap_pos(name));
    }
    let t = name + ".tmp"@;
    if t.len() >= 13 {
        let tail = t.skip(t.len() - 8);
        assert(tail[7] == 'p');
        assert(".ultsnap"@[7] == 'p');
        assert(tail[6] == 'm');
        assert(".ultsnap"@[6] == 'a');
        assert(tail != ".ultsnap"@);
    }
}

/// All of the journal and of the state is copied, and of the snapshots
/// exactly the complete ones; each directory once, the journal first and the
/// snapshots last.
pub proof fn law_every_directory_is_copied(d: BackupDir, name: Seq<char>)
    ensures
        !(d is Snapshots) ==> copied(d, name),
        copied(BackupDir::Snapshots, name) <==> snap_pos(name) is Some,
        copy_order().len() == 3,
        copy_order()[0] is Journal,
        copy_order()[1] is State,
        copy_order()[2] is Snapshots,
{
}

/// Names are ordered: any two of them one way, both ways only where they are
/// the same, and the first character in which they differ decides. A name
/// comes before those that it begins.
pub proof fn law_names_are_ordered(a: Seq<char>, b: Seq<char>, x: char, y: char, more: Seq<char>)
    ensures
        not_after(a, a),
        not_after(a, b) || not_after(b, a),
        not_after(a, b) && not_after(b, a) ==> a == b,
        not_after(a, a + more),
        x < y ==> not_after(a.push(x) + more, a.push(y) + b) && !not_after(
            a.push(y) + b,
            a.push(x) + more,
        ),
    decreases a.len(),
{
    if a.len() > 0 {
        let s = a.skip(1);
        assert((a + more).skip(1) =~= s + more);
        assert((a + more)[0] == a[0]);
        assert((a.push(x) + more).skip(1) =~= s.push(x) + more);
        assert((a.push(x) + more)[0] == a[0]);
        assert((a.push(y) + b).skip(1) =~= s.push(y) + b);
        assert((a.push(y) + b)[0] == a[0]);
        law_names_are_ordered(s, b, x, y, more);
        if b.len() > 0 {
            law_names_are_ordered(s, b.skip(1), x, y, more);
            if a[0] == b[0] && s == b.skip(1) {
                assert(a =~= seq![a[0]] + s);
                assert(b =~= seq![b[0]] + b.skip(1));
            }
        }
    } else {
        assert((a.push(x) + more)[0] == x);
        assert((a.push(y) + b)[0] == y);
        if b.len() == 0 {
            assert(a =~= b);
        }
    }
}

/// A copy is refused exactly where its journal starts above 0 and no snapshot
/// in it reaches that far.
pub proof fn law_hole_is_a_start_that_nothing_reaches(first_base: u64, files: Seq<Seq<char>>)
    ensures
        has_hole(first_base, newest(files)) <==> first_base > 0 && forall|i: int|
            0 <= i < files.len() ==> !(snap_pos(#[trigger] files[i]) matches Some(pos) && pos
                >= first_base),
{
    if !has_hole(first_base, newest(files)) && first_base > 0 {
        lemma_newest_is_there(files);
    }
    if has_hole(first_base, newest(files)) {
        assert forall|i: int| 0 <= i < files.len() implies !(snap_pos(#[trigger] files[i]) matches Some(
            pos,
        ) && pos >= first_base) by {
            lemma_newest_is_not_below(files, i);
        }
    }
}

/// The report carries what was recovered: where the journal starts and ends,
/// whether its tail was healed, the recorded floor (0 where none was ever
/// recorded), the newest complete snapshot, and every file of the copy.
pub proof fn law_report_carries_what_was_recovered(rec: Recovered, files: Seq<Seq<char>>)
    ensures
        ({
            let r = report_of(rec, files);
            let found = files.filter(|n: Seq<char>| snap_pos(n) is Some).len();
            &&& r.journal_first_base == rec.journal_first_base
            &&& r.journal_last_pos == rec.journal_last_pos
            &&& r.healed_torn_tail == rec.healed_torn_tail
            &&& rec.snapshot_floor matches Some(floor) ==> r.snapshot_floor == floor
            &&& rec.snapshot_floor is None ==> r.snapshot_floor == 0
            &&& r.newest_snapshot == newest(files)
            &&& rec.journal_files + rec.state_files + found <= usize::MAX ==> r.files
                == rec.journal_files + rec.state_files + found
        }),
{
    lemma_complete_counts(files);
}

/// A manifest written of one copy passes against another exactly where the
/// same was recovered from both: the journal from the same start to the same
/// end, the same newest snapshot, the same floor, and the tail healed in both
/// or in neither. So a copy that has since lost some of its journal or its
/// snapshots is caught.
pub proof fn law_manifest_vouches_for_what_was_recovered(
    a: Recovered,
    files_a: Seq<Seq<char>>,
    b: Recovered,
    files_b: Seq<Seq<char>>,
    created: u128,
)
    ensures
        manifest_fault(
            lines_of(joined(manifest_lines(report_of(a, files_a), created))),
            report_of(b, files_b),
        ) is None <==> {
            &&& a.journal_first_base == b.journal_first_base
            &&& a.journal_last_pos == b.journal_last_pos
            &&& a.healed_torn_tail == b.healed_torn_tail
            &&& newest(files_a) == newest(files_b)
            &&& (if a.snapshot_floor is Some {
                a.snapshot_floor->0
            } else {
                0
            }) == (if b.snapshot_floor is Some {
                b.snapshot_floor->0
            } else {
                0
            })
        },
{
    law_manifest_vouches_for_its_report(report_of(a, files_a), created, report_of(b, files_b));
}

/// Whatever a manifest holds, it passes only where it is of the known format,
/// every figure in it is there and is the one recovered, and it is dated.
pub proof fn law_manifest_passes_only_in_full(lines: Seq<Seq<char>>, r: BackupReport)
    requires
        manifest_fault(lines, r) is None,
    ensures
        lookup(lines, "format"@) == Some("uc2-backup-v1"@),
        lookup(lines, "journal_first_base"@) matches Some(v) && text::u64_of(v) == Some(
            r.journal_first_base,
        ),
        lookup(lines, "journal_last_pos"@) matches Some(v) && text::u64_of(v) == Some(
            r.journal_last_pos,
        ),
        lookup(lines, "newest_snapshot"@) matches Some(v) && (match r.newest_snapshot {
            Some(n) => text::u64_of(v) == Some(n),
            None => v == "none"@,
        }),
        lookup(lines, "snapshot_floor"@) matches Some(v) && text::u64_of(v) == Some(
            r.snapshot_floor,
        ),
        lookup(lines, "healed_torn_tail"@) == Some(
            if r.healed_torn_tail {
                "true"@
            } else {
                "false"@
            },
        ),
        lookup(lines, "created_unix_ns"@) is Some,
{
}

/// A key's value is that of its last line, and other lines do not change it.
pub proof fn law_last_line_of_a_key_counts(
    lines: Seq<Seq<char>>,
    key: Seq<char>,
    other: Seq<char>,
    value: Seq<char>,
)
    requires
        !key.contains('='),
        !other.contains('='),
    ensures
        lookup(lines.push(key + seq!['='] + value), key) == Some(value),
        other != key ==> lookup(lines.push(key + seq!['='] + value), other) == lookup(lines, other),
        lookup(lines.push(key), other) == lookup(lines, other),
        lookup(Seq::empty(), key) is None,
{
    let l = key + seq!['='] + value;
    assert(lines.push(l).drop_last() =~= lines);
    assert(lines.push(key).drop_last() =~= lines);
    text::law_text_up_to_a_character(key, value, '=');
    text::law_text_without_a_character(key, '=');
    assert(l =~= key + (seq!['='] + value));
    assert(l.skip(key.len() as int + 1) =~= value);
}

/// What verifying a copy comes to.
pub open spec fn verified(rec: Recovered, files: Seq<Seq<char>>) -> Result<
    BackupReport,
    BackupError,
> {
    if has_hole(rec.journal_first_base, newest(files)) {
        Err(
            BackupError::Hole {
                first_base: rec.journal_first_base,
                newest_snapshot: newest(files),
            },
        )
    } else {
        Ok(report_of(rec, files))
    }
}

/// A copy is verified exactly where it has no hole, and is then reported on as
/// it is; a hole is reported with both its ends.
pub proof fn law_only_a_whole_copy_is_verified(rec: Recovered, files: Seq<Seq<char>>)
    ensures
        rec.journal_first_base == 0 ==> verified(rec, files) is Ok,
        verified(rec, files) is Ok <==> rec.journal_first_base == 0 || exists|i: int|
            0 <= i < files.len() && (snap_pos(#[trigger] files[i]) matches Some(pos) && pos
                >= rec.journal_first_base),
        verified(rec, files) matches Ok(r) ==> r == report_of(rec, files),
        verified(rec, files) matches Err(e) ==> (e matches BackupError::Hole {
            first_base,
            newest_snapshot,
        } && first_base == rec.journal_first_base && newest_snapshot == newest(files)),
{
    law_hole_is_a_start_that_nothing_reaches(rec.journal_first_base, files);
}

/// Names in order are so pair by pair, and one alone is.
pub proof fn law_ordered_names_ascend(s: Seq<Seq<char>>, i: int, j: int)
    requires
        in_order(s),
        0 <= i < j < s.len(),
    ensures
        not_after(s[i], s[j]),
        s[i] != s[j] ==> !not_after(s[j], s[i]),
{
    law_names_are_ordered(s[i], s[j], 'a', 'b', Seq::empty());
}

/// Entries are found by their key, the last of each; entries that hold a
/// text's lines give what the lines give.
pub proof fn law_entries_are_found_by_key(
    m: Seq<(String, String)>,
    key: String,
    value: String,
    other: Seq<char>,
    lines: Seq<Seq<char>>,
)
    ensures
        find_entry(m.push((key, value)), key@) == Some(value@),
        other != key@ ==> find_entry(m.push((key, value)), other) == find_entry(m, other),
        find_entry(Seq::empty(), other) is None,
        holds(m, lines) ==> find_entry(m, other) == lookup(lines, other),
{
    assert(m.push((key, value)).drop_last() =~= m);
}

/// A manifest whose every figure is the one recovered passes.
pub proof fn law_faultless_manifest_passes(lines: Seq<Seq<char>>, r: BackupReport)
    requires
        lookup(lines, "format"@) == Some("uc2-backup-v1"@),
        lookup(lines, "journal_first_base"@) matches Some(v) && text::u64_of(v) == Some(
            r.journal_first_base,
        ),
        lookup(lines, "journal_last_pos"@) matches Some(v) && text::u64_of(v) == Some(
            r.journal_last_pos,
        ),
        lookup(lines, "newest_snapshot"@) == Some(
            match r.newest_snapshot {
                Some(n) => text::digits(n as nat),
                None => "none"@,
            },
        ),
        lookup(lines, "snapshot_floor"@) matches Some(v) && text::u64_of(v) == Some(
            r.snapshot_floor,
        ),
        lookup(lines, "healed_torn_tail"@) == Some(
            if r.healed_torn_tail {
                "true"@
            } else {
                "false"@
            },
        ),
        lookup(lines, "created_unix_ns"@) is Some,
    ensures
        manifest_fault(lines, r) is None,
{
    match r.newest_snapshot {
        Some(n) => {
            text::law_decimal_reads_back(n as nat);
            reveal_strlit("none");
            assert(text::is_digit(text::digits(n as nat)[0]));
            assert("none"@[0] == 'n');
        },
        None => {},
    }
}

/// What is wrong with a figure tells its name, what the manifest says and what
/// was recovered.
pub proof fn law_mismatch_tells_both_figures(key: Seq<char>, says: u64, actual: u64)
    requires
        says != actual,
    ensures
        ({
            let f = number_fault(Some(text::digits(says as nat)), key, actual);
            &&& f is Some
            &&& crate::audit::tells(
                f->0,
                key + ": manifest says "@ + text::digits(says as nat),
            )
            &&& crate::audit::tells(f->0, "artifact recovers "@ + text::digits(actual as nat))
        }),
        number_fault(None, key, actual) == Some("missing key "@ + key),
{
    text::law_decimal_reads_back(says as nat);
    reveal_strlit(", artifact recovers ");
    reveal_strlit(", ");
    reveal_strlit("artifact recovers ");
    let s = text::digits(says as nat);
    let a = text::digits(actual as nat);
    let f = number_fault(Some(s), key, actual)->0;
    assert(", artifact recovers "@ =~= ", "@ + "artifact recovers "@);
    let head = key + ": manifest says "@ + s;
    let e = Seq::<char>::empty();
    crate::audit::lemma_told(f, e, head, ", "@ + ("artifact recovers "@ + a));
    crate::audit::lemma_told(f, head + ", "@, "artifact recovers "@ + a, e);
}

} // verus!
