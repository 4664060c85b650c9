//! Boot recovery from the journal: the term map, and the durable
//! configuration record.

use crate::node::cluster;
use crate::node::cluster::{
    ClusterConfig, ConfigRecord, ConfigV, Member, NodeId, RecordV, WireConfig,
    cluster_to_stored, copy_members, same_config, stored_to_cluster,
    wire_to_cluster_config,
};
use vstd::prelude::*;

verus! {

/// A term map: each leadership term with the position it opens at, oldest
/// first.
pub type TermMap = Vec<(u32, u64)>;

/// What a replayed journal frame says.
pub struct FrameV {
    pub term: u32,
    pub position: u64,
    pub end: u64,
    pub config: Option<ConfigV>,
}

/// A journal frame as replay hands it out: the leadership term stamped on it,
/// where it starts and ends, and the configuration it carries, for a
/// configuration frame.
#[derive(Debug)]
pub struct ReplayFrame {
    pub term: u32,
    pub position: u64,
    pub end: u64,
    pub config: Option<WireConfig>,
}

impl View for ReplayFrame {
    type V = FrameV;

    open spec fn view(&self) -> FrameV {
        FrameV {
            term: self.term,
            position: self.position,
            end: self.end,
            config: match self.config {
                Some(w) => Some(w@),
                None => None,
            },
        }
    }
}

/// What a run of replayed frames says.
pub open spec fn frames_view(frames: Seq<ReplayFrame>) -> Seq<FrameV> {
    frames.map_values(|f: ReplayFrame| f@)
}

/// The newest term a map knows, 0 for an empty one.
pub open spec fn newest_term(map: Seq<(u32, u64)>) -> u32 {
    if map.len() == 0 {
        0
    } else {
        map.last().0
    }
}

/// The base of the newest term a map knows, 0 for an empty one.
pub open spec fn newest_base(map: Seq<(u32, u64)>) -> u64 {
    if map.len() == 0 {
        0
    } else {
        map.last().1
    }
}

/// `map` completed by `frames`: a frame of a strictly higher term than any
/// before it opens that term at its own position.
pub open spec fn extend_map(map: Seq<(u32, u64)>, frames: Seq<FrameV>) -> Seq<(u32, u64)>
    decreases frames.len(),
{
    if frames.len() == 0 {
        map
    } else {
        let m = extend_map(map, frames.drop_last());
        let f = frames.last();
        if f.term > newest_term(m) {
            m.push((f.term, f.position))
        } else {
            m
        }
    }
}

/// The newest term of a map, 0 for an empty one.
pub fn map_term(map: &TermMap) -> (t: u32)
    ensures
        t == newest_term(map@),
{
    if map.len() == 0 {
        0
    } else {
        map[map.len() - 1].0
    }
}

/// Where the scan that completes `map` starts: at its newest term's base, but
/// never below the first position the archive still holds.
pub fn term_scan_start(map: &TermMap, first_base: u64) -> (start: u64)
    ensures
        start == scan_from(newest_base(map@), first_base),
{
    let base: u64 = if map.len() == 0 {
        0
    } else {
        map[map.len() - 1].1
    };
    if base < first_base {
        first_base
    } else {
        base
    }
}

/// A term map copied entry by entry.
pub fn copy_map(map: &TermMap) -> (r: TermMap)
    ensures
        r@ == map@,
{
    let mut r: TermMap = Vec::new();
    for i in 0..map.len()
        invariant
            r@ == map@.take(i as int),
    {
        r.push(map[i]);
        assert(r@ =~= map@.take(i as int + 1));
    }
    assert(map@.take(map@.len() as int) =~= map@);
    r
}

/// Whether two term maps agree entry for entry.
pub fn same_map(a: &TermMap, b: &TermMap) -> (r: bool)
    ensures
        r == (a@ == b@),
{
    if a.len() != b.len() {
        return false;
    }
    for i in 0..a.len()
        invariant
            a.len() == b.len(),
            forall|j: int| 0 <= j < i ==> a@[j] == b@[j],
    {
        if a[i].0 != b[i].0 || a[i].1 != b[i].1 {
            assert(a@[i as int] != b@[i as int]);
            return false;
        }
    }
    assert(a@ =~= b@);
    true
}

/// Complete the persisted term map from the frames that replay yields from
/// [`term_scan_start`] on.
pub fn rederive_term_map(recovered: &TermMap, frames: &Vec<ReplayFrame>) -> (map: TermMap)
    ensures
        map@ == extend_map(recovered@, frames_view(frames@)),
{
    let mut map = copy_map(recovered);
    let ghost fv = frames_view(frames@);
    assert(fv.take(0) =~= Seq::<FrameV>::empty());
    for i in 0..frames.len()
        invariant
            fv == frames_view(frames@),
            map@ == extend_map(recovered@, fv.take(i as int)),
    {
        assert(fv.take(i as int + 1).drop_last() =~= fv.take(i as int));
        assert(fv.take(i as int + 1).last() == frames@[i as int]@);
        if frames[i].term > map_term(&map) {
            map.push((frames[i].term, frames[i].position));
        }
    }
    assert(fv.take(fv.len() as int) =~= fv);
    map
}

/// The entries of a term map that fit on the wire: its first `max`.
pub fn wire_term_map(entries: &TermMap, max: usize) -> (r: TermMap)
    ensures
        r@ == fitting(entries@, max),
{
    let n: usize = if entries.len() < max {
        entries.len()
    } else {
        max
    };
    let mut r: TermMap = Vec::new();
    for i in 0..n
        invariant
            n <= entries.len(),
            r@ == entries@.take(i as int),
    {
        r.push(entries[i]);
        assert(r@ =~= entries@.take(i as int + 1));
    }
    assert(entries@.take(entries@.len() as int) =~= entries@);
    r
}

/// A vote granted in a term that the term map has not reached: the tail this
/// node holds was never validated under that term's leader.
pub open spec fn vote_outruns_map(vote: Option<(u32, NodeId)>, map: Seq<(u32, u64)>) -> bool {
    match vote {
        Some(v) => v.0 > newest_term(map),
        None => false,
    }
}

/// Whether intake boots closed, waiting for a reconcile.
pub fn boot_awaiting_reconcile(vote: Option<(u32, NodeId)>, map: &TermMap) -> (r: bool)
    ensures
        r == vote_outruns_map(vote, map@),
{
    let vote_term: u32 = match vote {
        Some(v) => v.0,
        None => 0,
    };
    vote_term > map_term(map)
}

/// The record of a fresh instance over the configured members.
pub open spec fn seed_record(members: Seq<Member>, learners: Seq<Member>) -> RecordV {
    let genesis = cluster::genesis_config(members, learners);
    RecordV { position: 0, config: genesis, prev_position: 0, prev: genesis }
}

/// The record whose history is exhausted: `prev` promoted, and duplicated.
pub open spec fn reverted(rec: RecordV) -> RecordV {
    RecordV {
        position: rec.prev_position,
        config: rec.prev,
        prev_position: rec.prev_position,
        prev: rec.prev,
    }
}

/// The record a boot trusts before it looks at the journal: the stored one
/// where the durable frontier backs it, its predecessor where only that is
/// backed, and the seed where neither is or nothing was stored.
pub open spec fn trusted_record(
    stored: Option<RecordV>,
    durable: u64,
    seed: RecordV,
) -> RecordV {
    match stored {
        None => seed,
        Some(rec) => if rec.position <= durable {
            rec
        } else if rec.prev_position <= durable {
            reverted(rec)
        } else {
            seed
        },
    }
}

/// `rec` moved forward over `frames`: every configuration frame of a strictly
/// higher version is adopted, and what it replaces becomes the history.
pub open spec fn fold_config(rec: RecordV, frames: Seq<FrameV>) -> RecordV
    decreases frames.len(),
{
    if frames.len() == 0 {
        rec
    } else {
        let cur = fold_config(rec, frames.drop_last());
        let f = frames.last();
        match f.config {
            Some(c) => if c.version > cur.config.version {
                RecordV {
                    position: f.end,
                    config: c,
                    prev_position: cur.position,
                    prev: cur.config,
                }
            } else {
                cur
            },
            None => cur,
        }
    }
}

/// Where the scan that moves `rec` forward starts.
pub fn config_scan_start(rec: &ConfigRecord, first_base: u64) -> (start: u64)
    ensures
        start == scan_from(rec@.position, first_base),
{
    if rec.position < first_base {
        first_base
    } else {
        rec.position
    }
}

/// The seed record over the configured members.
fn seed(members: &Vec<Member>, learners: &Vec<Member>) -> (r: ConfigRecord)
    ensures
        r@ == seed_record(members@, learners@),
{
    let genesis = ClusterConfig::genesis(copy_members(members), copy_members(learners));
    let config = cluster_to_stored(&genesis);
    let prev = cluster_to_stored(&genesis);
    ConfigRecord { position: 0, config, prev_position: 0, prev }
}

/// `rec` taken back one level.
pub fn revert_record(rec: &ConfigRecord) -> (r: ConfigRecord)
    ensures
        r@ == reverted(rec@),
{
    ConfigRecord {
        position: rec.prev_position,
        config: rec.prev.clone(),
        prev_position: rec.prev_position,
        prev: rec.prev.clone(),
    }
}

/// What an optional stored record says.
pub open spec fn stored_view(stored: Option<ConfigRecord>) -> Option<RecordV> {
    match stored {
        Some(rec) => Some(rec@),
        None => None,
    }
}

/// The record a boot trusts before it looks at the journal.
pub fn trust_record(
    stored: &Option<ConfigRecord>,
    durable: u64,
    members: &Vec<Member>,
    learners: &Vec<Member>,
) -> (r: ConfigRecord)
    ensures
        r@ == trusted_record(stored_view(*stored), durable, seed_record(members@, learners@)),
{
    match stored {
        None => seed(members, learners),
        Some(rec) => {
            if rec.position <= durable {
                rec.clone()
            } else if rec.prev_position <= durable {
                revert_record(rec)
            } else {
                seed(members, learners)
            }
        },
    }
}

/// Move `rec` forward over the frames that replay yields from
/// [`config_scan_start`] on.
pub fn rederive_config(rec: ConfigRecord, frames: &Vec<ReplayFrame>) -> (r: ConfigRecord)
    ensures
        r@ == fold_config(rec@, frames_view(frames@)),
{
    let mut cur = rec;
    let ghost fv = frames_view(frames@);
    assert(fv.take(0) =~= Seq::<FrameV>::empty());
    for i in 0..frames.len()
        invariant
            fv == frames_view(frames@),
            cur@ == fold_config(rec@, fv.take(i as int)),
    {
        assert(fv.take(i as int + 1).drop_last() =~= fv.take(i as int));
        assert(fv.take(i as int + 1).last() == frames@[i as int]@);
        match &frames[i].config {
            Some(w) => {
                if w.version > cur.config.version {
                    let c = wire_to_cluster_config(w);
                    cur = ConfigRecord {
                        position: frames[i].end,
                        config: cluster_to_stored(&c),
                        prev_position: cur.position,
                        prev: cur.config,
                    };
                }
            },
            None => {},
        }
    }
    assert(fv.take(fv.len() as int) =~= fv);
    cur
}

/// Whether two records say the same.
pub fn same_record(a: &ConfigRecord, b: &ConfigRecord) -> (r: bool)
    ensures
        r == (a@ == b@),
{
    let ac = stored_to_cluster(&a.config);
    let bc = stored_to_cluster(&b.config);
    let ap = stored_to_cluster(&a.prev);
    let bp = stored_to_cluster(&b.prev);
    let r = a.position == b.position && a.prev_position == b.prev_position && same_config(&ac, &bc)
        && same_config(&ap, &bp);
    assert(r ==> a@ =~= b@);
    r
}

/// What boot recovery of the configuration came to.
pub struct ConfigRecovery {
    /// The record the node boots with.
    pub record: ConfigRecord,
    /// The records to store durably, in this order; the last one is `record`.
    pub stores: Vec<ConfigRecord>,
}

/// What a run of records says.
pub open spec fn records_view(s: Seq<ConfigRecord>) -> Seq<RecordV> {
    s.map_values(|r: ConfigRecord| r@)
}

/// The records a boot stores: the trusted one where it is not what was
/// stored already, then the one the journal moved it forward to.
pub open spec fn recovery_stores(
    stored: Option<RecordV>,
    durable: u64,
    seed: RecordV,
    frames: Seq<FrameV>,
) -> Seq<RecordV> {
    let base = trusted_record(stored, durable, seed);
    let moved = fold_config(base, frames);
    let first = match stored {
        None => seq![base],
        Some(rec) => if rec.position > durable {
            seq![base]
        } else {
            Seq::empty()
        },
    };
    if moved == base {
        first
    } else {
        first.push(moved)
    }
}

/// Recover the configuration record a boot adopts from what was stored, the
/// durable frontier, the configured members (for a fresh instance), and the
/// frames that replay yields from [`config_scan_start`] of the trusted record
/// on.
pub fn recover_config_record(
    stored: &Option<ConfigRecord>,
    frames: &Vec<ReplayFrame>,
    durable: u64,
    members: &Vec<Member>,
    learners: &Vec<Member>,
) -> (r: ConfigRecovery)
    ensures
        r.record@ == fold_config(
            trusted_record(stored_view(*stored), durable, seed_record(members@, learners@)),
            frames_view(frames@),
        ),
        records_view(r.stores@) == recovery_stores(
            stored_view(*stored),
            durable,
            seed_record(members@, learners@),
            frames_view(frames@),
        ),
{
    let base = trust_record(stored, durable, members, learners);
    let mut stores: Vec<ConfigRecord> = Vec::new();
    let replaced = match stored {
        None => true,
        Some(rec) => rec.position > durable,
    };
    if replaced {
        stores.push(base.clone());
    }
    let ghost first = records_view(stores@);
    let kept = base.clone();
    let record = rederive_config(base, frames);
    if !same_record(&record, &kept) {
        stores.push(record.clone());
        assert(records_view(stores@) =~= first.push(record@));
    }
    assert(first =~= (if replaced {
        seq![kept@]
    } else {
        Seq::empty()
    }));
    ConfigRecovery { record, stores }
}

/// A trusted record never claims a position that the durable frontier does
/// not back.
pub proof fn law_trusted_record_is_backed(
    stored: Option<RecordV>,
    durable: u64,
    members: Seq<Member>,
    learners: Seq<Member>,
)
    ensures
        trusted_record(stored, durable, seed_record(members, learners)).position <= durable,
{
}

/// Moving a record forward never lowers the configuration's version, and
/// leaves it at least as high as that of every configuration frame it passed.
pub proof fn law_fold_reaches_every_version(rec: RecordV, frames: Seq<FrameV>)
    ensures
        fold_config(rec, frames).config.version >= rec.config.version,
        forall|i: int|
            0 <= i < frames.len() && (#[trigger] frames[i]).config is Some
                ==> fold_config(rec, frames).config.version >= frames[i].config->0.version,
    decreases frames.len(),
{
    if frames.len() > 0 {
        law_fold_reaches_every_version(rec, frames.drop_last());
        assert forall|i: int|
            0 <= i < frames.len() && (#[trigger] frames[i]).config is Some implies fold_config(
            rec,
            frames,
        ).config.version >= frames[i].config->0.version by {
            if i < frames.len() - 1 {
                assert(frames.drop_last()[i] == frames[i]);
            }
        }
    }
}

/// A record at least as new as every configuration frame is left as it is.
pub proof fn law_newest_record_stays(rec: RecordV, frames: Seq<FrameV>)
    requires
        forall|i: int|
            0 <= i < frames.len() && (#[trigger] frames[i]).config is Some
                ==> rec.config.version >= frames[i].config->0.version,
    ensures
        fold_config(rec, frames) == rec,
    decreases frames.len(),
{
    if frames.len() > 0 {
        let shorter = frames.drop_last();
        assert forall|i: int|
            0 <= i < shorter.len() && (#[trigger] shorter[i]).config is Some implies rec.config.version
            >= shorter[i].config->0.version by {
            assert(shorter[i] == frames[i]);
        }
        law_newest_record_stays(rec, shorter);
    }
}

/// Moving a record forward over the same frames twice is moving it once:
/// re-observing a configuration adopts nothing.
pub proof fn law_fold_is_idempotent(rec: RecordV, frames: Seq<FrameV>)
    ensures
        fold_config(fold_config(rec, frames), frames) == fold_config(rec, frames),
{
    law_fold_reaches_every_version(rec, frames);
    law_newest_record_stays(fold_config(rec, frames), frames);
}

/// A record that the durable frontier backs, moved forward over frames that
/// it backs, is backed by it too.
pub proof fn law_fold_stays_backed(rec: RecordV, frames: Seq<FrameV>, durable: u64)
    requires
        rec.position <= durable,
        forall|i: int|
            0 <= i < frames.len() && (#[trigger] frames[i]).config is Some ==> frames[i].end
                <= durable,
    ensures
        fold_config(rec, frames).position <= durable,
    decreases frames.len(),
{
    if frames.len() > 0 {
        let shorter = frames.drop_last();
        assert forall|i: int|
            0 <= i < shorter.len() && (#[trigger] shorter[i]).config is Some implies shorter[i].end
            <= durable by {
            assert(shorter[i] == frames[i]);
        }
        law_fold_stays_backed(rec, shorter, durable);
        assert(frames[frames.len() - 1] == frames.last());
    }
}

/// After recovery the durable record and the record the node boots with are
/// one and the same.
pub proof fn law_recovered_record_is_durable(
    stored: Option<RecordV>,
    durable: u64,
    seed: RecordV,
    frames: Seq<FrameV>,
)
    ensures
        ({
            let stores = recovery_stores(stored, durable, seed, frames);
            let record = fold_config(trusted_record(stored, durable, seed), frames);
            if stores.len() > 0 {
                stores.last() == record
            } else {
                stored == Some(record)
            }
        }),
{
}

/// A second boot over the same journal, whichever of its frames it replays,
/// adopts what the first one did and stores nothing, as long as the frames
/// that the first one adopted end within the durable frontier.
pub proof fn law_recovery_is_stable(
    stored: Option<RecordV>,
    durable: u64,
    seed: RecordV,
    frames: Seq<FrameV>,
    later: Seq<FrameV>,
)
    requires
        fold_config(trusted_record(stored, durable, seed), frames).position <= durable,
        forall|i: int| 0 <= i < later.len() ==> frames.contains(#[trigger] later[i]),
    ensures
        ({
            let record = fold_config(trusted_record(stored, durable, seed), frames);
            &&& fold_config(trusted_record(Some(record), durable, seed), later) == record
            &&& recovery_stores(Some(record), durable, seed, later).len() == 0
        }),
{
    let record = fold_config(trusted_record(stored, durable, seed), frames);
    law_fold_reaches_every_version(trusted_record(stored, durable, seed), frames);
    assert forall|i: int|
        0 <= i < later.len() && (#[trigger] later[i]).config is Some implies record.config.version
        >= later[i].config->0.version by {
        let j = choose|j: int| 0 <= j < frames.len() && frames[j] == later[i];
        assert(frames[j].config is Some);
    }
    law_newest_record_stays(record, later);
}

/// A completed term map keeps what was persisted and opens only strictly
/// newer terms; it reaches the term of every frame.
pub proof fn law_extended_map_covers_frames(map: Seq<(u32, u64)>, frames: Seq<FrameV>)
    ensures
        map.is_prefix_of(extend_map(map, frames)),
        newest_term(extend_map(map, frames)) >= newest_term(map),
        forall|i: int|
            0 <= i < frames.len() ==> newest_term(extend_map(map, frames))
                >= (#[trigger] frames[i]).term,
        forall|i: int|
            map.len() <= i < extend_map(map, frames).len() ==> (#[trigger] extend_map(
                map,
                frames,
            )[i]).0 > (if i == 0 {
                0
            } else {
                extend_map(map, frames)[i - 1].0
            }),
    decreases frames.len(),
{
    if frames.len() > 0 {
        let shorter = frames.drop_last();
        law_extended_map_covers_frames(map, shorter);
        let m = extend_map(map, shorter);
        let full = extend_map(map, frames);
        assert(m.is_prefix_of(full));
        assert forall|i: int| 0 <= i < frames.len() implies newest_term(full) >= (
        #[trigger] frames[i]).term by {
            if i < frames.len() - 1 {
                assert(shorter[i] == frames[i]);
            }
        }
        assert forall|i: int| map.len() <= i < full.len() implies (#[trigger] full[i]).0 > (if i
            == 0 {
            0
        } else {
            full[i - 1].0
        }) by {
            if i < m.len() {
                assert(full[i] == m[i]);
                if i > 0 {
                    assert(full[i - 1] == m[i - 1]);
                }
            }
        }
    }
}

/// Completing a term map over the same frames twice is completing it once.
pub proof fn law_extend_is_idempotent(map: Seq<(u32, u64)>, frames: Seq<FrameV>)
    ensures
        extend_map(extend_map(map, frames), frames) == extend_map(map, frames),
{
    law_extended_map_covers_frames(map, frames);
    lemma_extend_of_newest(extend_map(map, frames), frames);
}

/// A term map at least as new as every frame is left as it is.
proof fn lemma_extend_of_newest(map: Seq<(u32, u64)>, frames: Seq<FrameV>)
    requires
        forall|i: int| 0 <= i < frames.len() ==> newest_term(map) >= (#[trigger] frames[i]).term,
    ensures
        extend_map(map, frames) == map,
    decreases frames.len(),
{
    if frames.len() > 0 {
        let shorter = frames.drop_last();
        assert forall|i: int| 0 <= i < shorter.len() implies newest_term(map) >= (
        #[trigger] shorter[i]).term by {
            assert(shorter[i] == frames[i]);
        }
        lemma_extend_of_newest(map, shorter);
    }
}

/// Where a scan that goes on from `base` starts, given the first position
/// that is still held.
pub open spec fn scan_from(base: u64, first_base: u64) -> u64 {
    if base < first_base {
        first_base
    } else {
        base
    }
}

/// The entries of a term map that fit, of `max`.
pub open spec fn fitting(entries: Seq<(u32, u64)>, max: usize) -> Seq<(u32, u64)> {
    if entries.len() <= max {
        entries
    } else {
        entries.take(max as int)
    }
}

/// A scan misses nothing that is still held: it starts where what is known
/// ends, or at the first position held where that is above.
pub proof fn law_scans_miss_nothing(base: u64, first_base: u64)
    ensures
        scan_from(base, first_base) >= base,
        scan_from(base, first_base) >= first_base,
        scan_from(base, first_base) == base || scan_from(base, first_base) == first_base,
{
}

/// What goes on the wire of a term map are its oldest entries, as many as
/// fit, unchanged.
pub proof fn law_wire_map_is_a_prefix(entries: Seq<(u32, u64)>, max: usize)
    ensures
        fitting(entries, max).is_prefix_of(entries),
        fitting(entries, max).len() == (if entries.len() <= max {
            entries.len()
        } else {
            max as nat
        }),
{
}

/// A replayed frame says where it is, in which term, and what it carries.
pub proof fn law_frames_say_what_they_hold(f: ReplayFrame)
    ensures
        f@.term == f.term && f@.position == f.position && f@.end == f.end,
        f.config is None <==> f@.config is None,
        f.config matches Some(w) ==> f@.config == Some(w@),
{
}

/// The newest of a map is its last entry; a map without entries knows no term
/// and starts at 0.
pub proof fn law_newest_term_is_the_last(map: Seq<(u32, u64)>, term: u32, base: u64)
    ensures
        newest_term(map.push((term, base))) == term,
        newest_base(map.push((term, base))) == base,
        newest_term(Seq::empty()) == 0,
        newest_base(Seq::empty()) == 0,
{
}

/// A frame opens its term in the map exactly where that is newer than every
/// term before it, at the frame's own position; otherwise the map stays.
pub proof fn law_frame_opens_a_newer_term(map: Seq<(u32, u64)>, frames: Seq<FrameV>, f: FrameV)
    ensures
        extend_map(map, Seq::empty()) == map,
        ({
            let m = extend_map(map, frames);
            let top: u32 = if m.len() == 0 {
                0
            } else {
                m.last().0
            };
            extend_map(map, frames.push(f)) == (if f.term > top {
                m.push((f.term, f.position))
            } else {
                m
            })
        }),
{
    assert(frames.push(f).drop_last() =~= frames);
}

/// Every term that completing a map adds is a replayed frame's own, opened
/// where that frame starts.
pub proof fn law_added_terms_come_from_frames(map: Seq<(u32, u64)>, frames: Seq<FrameV>, i: int)
    requires
        map.len() <= i < extend_map(map, frames).len(),
    ensures
        exists|k: int|
            0 <= k < frames.len() && extend_map(map, frames)[i] == (
                (#[trigger] frames[k]).term,
                frames[k].position,
            ),
    decreases frames.len(),
{
    let head = frames.drop_last();
    let m = extend_map(map, head);
    if i < m.len() {
        law_added_terms_come_from_frames(map, head, i);
        let k = choose|k: int|
            0 <= k < head.len() && m[i] == ((#[trigger] head[k]).term, head[k].position);
        assert(frames[k] == head[k]);
    } else {
        assert(frames[frames.len() - 1] == frames.last());
    }
}

/// A vote leaves a node waiting for a reconcile exactly where it was cast in
/// a later term than any that its log knows.
pub proof fn law_vote_beyond_the_log_waits(term: u32, who: NodeId, map: Seq<(u32, u64)>)
    ensures
        !vote_outruns_map(None, map),
        map.len() == 0 ==> (vote_outruns_map(Some((term, who)), map) <==> term > 0),
        map.len() > 0 ==> (vote_outruns_map(Some((term, who)), map) <==> term > map.last().0),
{
}

/// A fresh instance starts from its configured members, at version 0 and
/// position 0, with nothing before.
pub proof fn law_seed_is_the_configured_members(members: Seq<Member>, learners: Seq<Member>)
    ensures
        ({
            let s = seed_record(members, learners);
            &&& s.position == 0 && s.prev_position == 0
            &&& s.config.version == 0 && s.config.voters == members && s.config.learners == learners
            &&& s.config.tombstones.len() == 0
            &&& s.prev == s.config
        }),
{
}

/// The stored record is trusted where the log is durable to its frame; where
/// it is durable only to the frame before, the configuration before is; where
/// it is durable to neither, or nothing was stored, the configured members
/// are.
pub proof fn law_only_a_backed_record_is_trusted(rec: RecordV, durable: u64, seed: RecordV)
    ensures
        trusted_record(None, durable, seed) == seed,
        rec.position <= durable ==> trusted_record(Some(rec), durable, seed) == rec,
        rec.prev_position <= durable < rec.position ==> trusted_record(Some(rec), durable, seed)
            == (RecordV {
            position: rec.prev_position,
            config: rec.prev,
            prev_position: rec.prev_position,
            prev: rec.prev,
        }),
        durable < rec.position && durable < rec.prev_position ==> trusted_record(
            Some(rec),
            durable,
            seed,
        ) == seed,
        reverted(rec).config == rec.prev && reverted(rec).position == rec.prev_position,
        reverted(rec).prev == rec.prev && reverted(rec).prev_position == rec.prev_position,
{
}

/// A configuration frame is adopted exactly where its version is above the
/// one in force, at the position where it ends, and what it replaces becomes
/// the level of history below it. Every other frame changes nothing.
pub proof fn law_newer_configuration_is_adopted(rec: RecordV, frames: Seq<FrameV>, f: FrameV)
    ensures
        fold_config(rec, Seq::empty()) == rec,
        ({
            let cur = fold_config(rec, frames);
            let next = fold_config(rec, frames.push(f));
            &&& f.config is None ==> next == cur
            &&& f.config matches Some(c) ==> if c.version > cur.config.version {
                next == (RecordV {
                    position: f.end,
                    config: c,
                    prev_position: cur.position,
                    prev: cur.config,
                })
            } else {
                next == cur
            }
        }),
{
    assert(frames.push(f).drop_last() =~= frames);
}

/// What a boot stores is the trusted record, where that is not what was
/// stored, and then what the journal moved it to, where it moved.
pub proof fn law_recovery_stores_what_changed(
    stored: Option<RecordV>,
    durable: u64,
    seed: RecordV,
    frames: Seq<FrameV>,
)
    ensures
        ({
            let s = recovery_stores(stored, durable, seed, frames);
            let base = trusted_record(stored, durable, seed);
            let moved = fold_config(base, frames);
            let replaced = stored is None || stored->0.position > durable;
            &&& s.len() <= 2
            &&& replaced ==> s.len() >= 1 && s[0] == base
            &&& moved != base ==> s.len() >= 1 && s.last() == moved
            &&& !replaced && moved == base ==> s.len() == 0
            &&& replaced && moved == base ==> s.len() == 1
            &&& !replaced && moved != base ==> s.len() == 1
        }),
{
}

/// Runs of frames and of records, and a record that may be missing, say what
/// they hold.
pub proof fn law_recovered_runs_say_what_they_hold(
    frames: Seq<ReplayFrame>,
    records: Seq<ConfigRecord>,
    r: ConfigRecord,
    i: int,
)
    ensures
        frames_view(frames).len() == frames.len(),
        0 <= i < frames.len() ==> frames_view(frames)[i] == frames[i]@,
        records_view(records).len() == records.len(),
        0 <= i < records.len() ==> records_view(records)[i] == records[i]@,
        stored_view(Some(r)) == Some(r@),
        stored_view(None) is None,
{
}

} // verus!
