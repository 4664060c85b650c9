//! The daemon's watch over a running node: which derived events are due, and
//! what it prints.

use crate::audit;
use crate::node::cluster::NodeId;
use crate::node::ingress::DrainOutcome;
use crate::obs::events;
use crate::obs::events::emit_fields;
use crate::obs::log::{EventLog, Field, FieldValue, LogLevel};
use crate::text;
use crate::text::push_decimal;
use vstd::prelude::*;
use vstd::string::StringExecFns;

verus! {

/// A pass over the derived events comes every this many ticks.
pub const DERIVED_EVENTS_EVERY_N_TICKS: u64 = 10;

/// How long an event stays silent after it was recorded.
pub const DERIVED_EVENT_RATE_LIMIT_NS: u64 = 10_000_000_000;

/// Whether a tick makes a pass.
pub fn makes_pass(tick: u64) -> (r: bool)
    ensures
        r == pass_due(tick),
{
    tick % DERIVED_EVENTS_EVERY_N_TICKS == 0
}

/// What a pass reads.
#[derive(Debug, Clone, Copy)]
pub struct Reading {
    /// Monotonic time.
    pub now_ns: u64,
    pub naks_dropped: u64,
    pub naks_served: u64,
    /// Of the sender and of the receiver together.
    pub seal_failures: u64,
    pub snapshot_pos: u64,
    pub is_leader: bool,
    /// Free bytes on the instance's file system, where the probe worked.
    pub free_disk_bytes: Option<u64>,
}

/// What a pass asks for.
#[derive(Debug, Clone, Copy, PartialEq, Eq, Structural)]
pub enum Derived {
    NakStorm { naks_dropped: u64, naks_served: u64 },
    /// `count` failures since the last such record.
    SealFailures { count: u64, is_leader: bool },
    SnapshotPublished { pos: u64 },
    /// Publish the free space.
    FreeDisk { bytes: u64 },
    /// Warn that the probe failed.
    DiskProbeFailed,
}

/// What the watch remembers: the figures as of the last pass, and when each
/// event was last recorded.
#[derive(Debug, Clone, Copy)]
pub struct Watch {
    pub naks_dropped: u64,
    pub seal_failures: u64,
    /// The failures as of the last record of them.
    pub recorded_seal_failures: u64,
    pub snapshot_pos: u64,
    pub nak_storm_at: Option<u64>,
    pub seal_failures_at: Option<u64>,
    pub snapshot_at: Option<u64>,
    pub disk_warned_at: Option<u64>,
}

/// Whether an event last recorded at `at` may be recorded again.
pub open spec fn due(at: Option<u64>, now_ns: u64) -> bool {
    match at {
        None => true,
        Some(t) => now_ns - t >= DERIVED_EVENT_RATE_LIMIT_NS,
    }
}

/// Whether an event last recorded at `at` may be recorded again.
pub fn is_due(at: Option<u64>, now_ns: u64) -> (r: bool)
    ensures
        r == due(at, now_ns),
{
    match at {
        None => true,
        Some(t) => now_ns.saturating_sub(t) >= DERIVED_EVENT_RATE_LIMIT_NS,
    }
}

impl Watch {
    /// A watch that has seen the figures of a starting node.
    pub fn start(naks_dropped: u64, seal_failures: u64, snapshot_pos: u64) -> (w: Watch)
        ensures
            w == (Watch {
                naks_dropped,
                seal_failures,
                recorded_seal_failures: seal_failures,
                snapshot_pos,
                nak_storm_at: None,
                seal_failures_at: None,
                snapshot_at: None,
                disk_warned_at: None,
            }),
            w.wf(),
    {
        Watch {
            naks_dropped,
            seal_failures,
            recorded_seal_failures: seal_failures,
            snapshot_pos,
            nak_storm_at: None,
            seal_failures_at: None,
            snapshot_at: None,
            disk_warned_at: None,
        }
    }

    /// What was recorded was seen.
    pub open spec fn wf(self) -> bool {
        self.recorded_seal_failures <= self.seal_failures
    }

    /// Whether dropped repair requests are recorded.
    pub open spec fn storms(self, r: Reading) -> bool {
        r.naks_dropped > self.naks_dropped && due(self.nak_storm_at, r.now_ns)
    }

    /// Whether seal failures are recorded.
    pub open spec fn fails_to_seal(self, r: Reading) -> bool {
        r.seal_failures > self.seal_failures && due(self.seal_failures_at, r.now_ns)
    }

    /// Whether a new snapshot is recorded.
    pub open spec fn publishes(self, r: Reading) -> bool {
        r.snapshot_pos > self.snapshot_pos && due(self.snapshot_at, r.now_ns)
    }

    /// Whether a failed probe is warned of.
    pub open spec fn warns(self, r: Reading) -> bool {
        r.free_disk_bytes is None && due(self.disk_warned_at, r.now_ns)
    }

    /// What a pass asks for.
    pub open spec fn derived(self, r: Reading) -> Seq<Derived> {
        (if self.storms(r) {
            seq![
                Derived::NakStorm { naks_dropped: r.naks_dropped, naks_served: r.naks_served },
            ]
        } else {
            Seq::empty()
        }) + (if self.fails_to_seal(r) {
            seq![
                Derived::SealFailures {
                    count: (r.seal_failures - self.recorded_seal_failures) as u64,
                    is_leader: r.is_leader,
                },
            ]
        } else {
            Seq::empty()
        }) + (if self.publishes(r) {
            seq![Derived::SnapshotPublished { pos: r.snapshot_pos }]
        } else {
            Seq::empty()
        }) + (match r.free_disk_bytes {
            Some(bytes) => seq![Derived::FreeDisk { bytes }],
            None => if self.warns(r) {
                seq![Derived::DiskProbeFailed]
            } else {
                Seq::empty()
            },
        })
    }

    /// The watch after a pass.
    pub open spec fn passed(self, r: Reading) -> Watch {
        Watch {
            naks_dropped: r.naks_dropped,
            seal_failures: r.seal_failures,
            recorded_seal_failures: if self.fails_to_seal(r) {
                r.seal_failures
            } else {
                self.recorded_seal_failures
            },
            snapshot_pos: r.snapshot_pos,
            nak_storm_at: if self.storms(r) {
                Some(r.now_ns)
            } else {
                self.nak_storm_at
            },
            seal_failures_at: if self.fails_to_seal(r) {
                Some(r.now_ns)
            } else {
                self.seal_failures_at
            },
            snapshot_at: if self.publishes(r) {
                Some(r.now_ns)
            } else {
                self.snapshot_at
            },
            disk_warned_at: if self.warns(r) {
                Some(r.now_ns)
            } else {
                self.disk_warned_at
            },
        }
    }

    /// Make a pass. A record of seal failures is never made for fewer than
    /// were recorded already, which counters that only grow never ask for.
    pub fn pass(&mut self, r: &Reading) -> (out: Vec<Derived>)
        requires
            old(self).fails_to_seal(*r) ==> r.seal_failures >= old(self).recorded_seal_failures,
        ensures
            *final(self) == old(self).passed(*r),
            old(self).wf() && r.seal_failures >= old(self).seal_failures ==> final(self).wf(),
            out@ == old(self).derived(*r),
    {
        let mut out: Vec<Derived> = Vec::new();
        if r.naks_dropped > self.naks_dropped && is_due(self.nak_storm_at, r.now_ns) {
            out.push(
                Derived::NakStorm { naks_dropped: r.naks_dropped, naks_served: r.naks_served },
            );
            self.nak_storm_at = Some(r.now_ns);
        }
        self.naks_dropped = r.naks_dropped;
        if r.seal_failures > self.seal_failures && is_due(self.seal_failures_at, r.now_ns) {
            out.push(
                Derived::SealFailures {
                    count: r.seal_failures - self.recorded_seal_failures,
                    is_leader: r.is_leader,
                },
            );
            self.seal_failures_at = Some(r.now_ns);
            self.recorded_seal_failures = r.seal_failures;
        }
        self.seal_failures = r.seal_failures;
        if r.snapshot_pos > self.snapshot_pos && is_due(self.snapshot_at, r.now_ns) {
            out.push(Derived::SnapshotPublished { pos: r.snapshot_pos });
            self.snapshot_at = Some(r.now_ns);
        }
        self.snapshot_pos = r.snapshot_pos;
        match r.free_disk_bytes {
            Some(bytes) => {
                out.push(Derived::FreeDisk { bytes });
            },
            None => {
                if is_due(self.disk_warned_at, r.now_ns) {
                    out.push(Derived::DiskProbeFailed);
                    self.disk_warned_at = Some(r.now_ns);
                }
            },
        }
        assert(out@ =~= old(self).derived(*r));
        out
    }
}

/// The level, the name and the fields of a derived event's record; `None`
/// where it is none.
pub open spec fn derived_record(node: NodeId, d: Derived) -> Option<
    (LogLevel, Seq<char>, Seq<char>),
> {
    let n = audit::number_field("node"@, node as nat);
    match d {
        Derived::NakStorm { naks_dropped, naks_served } => Some(
            (
                LogLevel::Warn,
                "nak_storm"@,
                n + audit::number_field("naks_dropped"@, naks_dropped as nat)
                    + audit::number_field("naks_served"@, naks_served as nat),
            ),
        ),
        Derived::SealFailures { count, is_leader } => Some(
            (
                LogLevel::Warn,
                "seal_failures"@,
                n + audit::number_field("count"@, count as nat) + (seq![',', '"'] + "is_leader"@
                    + "\":"@ + text::bool_text(is_leader)),
            ),
        ),
        Derived::SnapshotPublished { pos } => Some(
            (
                LogLevel::Info,
                "snapshot_published"@,
                n + audit::number_field("pos"@, pos as nat),
            ),
        ),
        _ => None,
    }
}

/// Record a derived event of `node`.
pub fn record_derived(log: &mut EventLog, ts_ns: u128, node: NodeId, d: Derived) -> (line: Option<
    String,
>)
    requires
        derived_record(node, d) is Some,
    ensures
        ({
            let (l, name, fields) = derived_record(node, d)->0;
            events::recorded(
                *old(log),
                *final(log),
                line,
                l,
                events::stamped(ts_ns, l, name, fields),
            )
        }),
{
    let n = Field { key: "node", value: FieldValue::U64(node as u64) };
    match d {
        Derived::NakStorm { naks_dropped, naks_served } => {
            let v = vec![
                n,
                Field { key: "naks_dropped", value: FieldValue::U64(naks_dropped) },
                Field { key: "naks_served", value: FieldValue::U64(naks_served) },
            ];
            proof {
                events::lemma_few_fields(v@);
            }
            emit_fields(log, ts_ns, LogLevel::Warn, "nak_storm", &v)
        },
        Derived::SealFailures { count, is_leader } => {
            let v = vec![
                n,
                Field { key: "count", value: FieldValue::U64(count) },
                Field { key: "is_leader", value: FieldValue::Bool(is_leader) },
            ];
            proof {
                events::lemma_few_fields(v@);
            }
            emit_fields(log, ts_ns, LogLevel::Warn, "seal_failures", &v)
        },
        Derived::SnapshotPublished { pos } => {
            let v = vec![n, Field { key: "pos", value: FieldValue::U64(pos) }];
            proof {
                events::lemma_few_fields(v@);
            }
            emit_fields(log, ts_ns, LogLevel::Info, "snapshot_published", &v)
        },
        _ => None,
    }
}

/// Record that an agent's loop has ended.
pub fn record_failstop(log: &mut EventLog, ts_ns: u128, agent: &str) -> (line: Option<String>)
    ensures
        events::recorded(
            *old(log),
            *final(log),
            line,
            LogLevel::Error,
            events::stamped(
                ts_ns,
                LogLevel::Error,
                "agent_failstopped"@,
                audit::text_field("agent"@, agent@),
            ),
        ),
{
    let v = vec![Field { key: "agent", value: FieldValue::Str(agent) }];
    proof {
        events::lemma_few_fields(v@);
    }
    emit_fields(log, ts_ns, LogLevel::Error, "agent_failstopped", &v)
}

/// What is printed of a role.
pub open spec fn role_text(node: NodeId, is_leader: bool, term: u32) -> Seq<char> {
    "uc2-node: node "@ + text::digits(node as nat) + " is now "@ + (if is_leader {
        "LEADER"@
    } else {
        "follower"@
    }) + " (term "@ + text::digits(term as nat) + ")"@
}

/// What to print of a node's role, where it is not the one last printed.
pub fn role_notice(
    printed: Option<bool>,
    node: NodeId,
    is_leader: bool,
    term: u32,
) -> (s: Option<String>)
    ensures
        match s {
            Some(s) => printed != Some(is_leader) && s@ == role_text(node, is_leader, term),
            None => printed == Some(is_leader),
        },
{
    let same = match printed {
        Some(p) => p == is_leader,
        None => false,
    };
    if same {
        return None;
    }
    let mut s = "uc2-node: node ".to_owned();
    push_decimal(&mut s, node as u128);
    s.append(" is now ");
    if is_leader {
        s.append("LEADER");
    } else {
        s.append("follower");
    }
    s.append(" (term ");
    push_decimal(&mut s, term as u128);
    s.append(")");
    Some(s)
}

/// What is printed of a finished drain.
pub open spec fn drain_text(o: DrainOutcome) -> Seq<char> {
    match o {
        DrainOutcome::Drained => "uc2-node: drained, stopped cleanly"@,
        DrainOutcome::DeadlineExpired { append, durable } =>
        "uc2-node: drain deadline expired with "@ + text::digits(
            crate::obs::metrics::lag(append, durable) as nat,
        ) + " bytes unrecorded (append "@ + text::digits(append as nat) + ", durable "@
            + text::digits(durable as nat)
            + "); stopped anyway — the restarted node will re-fetch them"@,
    }
}

/// What is printed of a finished drain.
pub fn drain_notice(o: DrainOutcome) -> (s: String)
    ensures
        s@ == drain_text(o),
{
    match o {
        DrainOutcome::Drained => "uc2-node: drained, stopped cleanly".to_owned(),
        DrainOutcome::DeadlineExpired { append, durable } => {
            let mut s = "uc2-node: drain deadline expired with ".to_owned();
            push_decimal(&mut s, append.saturating_sub(durable) as u128);
            s.append(" bytes unrecorded (append ");
            push_decimal(&mut s, append as u128);
            s.append(", durable ");
            push_decimal(&mut s, durable as u128);
            s.append("); stopped anyway — the restarted node will re-fetch them");
            s
        },
    }
}

/// No event is recorded twice within the rate limit.
pub proof fn law_events_are_spaced(w: Watch, first: Reading, second: Reading)
    requires
        first.now_ns <= second.now_ns < first.now_ns + DERIVED_EVENT_RATE_LIMIT_NS,
    ensures
        w.storms(first) ==> !w.passed(first).storms(second),
        w.fails_to_seal(first) ==> !w.passed(first).fails_to_seal(second),
        w.publishes(first) ==> !w.passed(first).publishes(second),
        w.warns(first) ==> !w.passed(first).warns(second),
{
}

/// Seal failures are counted from record to record, none of them lost to the
/// rate limit: what a record counts and what was recorded before add up to
/// all there were.
pub proof fn law_seal_failures_add_up(w: Watch, r: Reading)
    requires
        w.wf(),
        w.fails_to_seal(r),
    ensures
        r.seal_failures - w.recorded_seal_failures > 0,
        w.derived(r).contains(
            Derived::SealFailures {
                count: (r.seal_failures - w.recorded_seal_failures) as u64,
                is_leader: r.is_leader,
            },
        ),
        w.passed(r).recorded_seal_failures == r.seal_failures,
{
    let d = w.derived(r);
    let e = Derived::SealFailures {
        count: (r.seal_failures - w.recorded_seal_failures) as u64,
        is_leader: r.is_leader,
    };
    let i: int = if w.storms(r) {
        1
    } else {
        0
    };
    assert(d[i] == e);
}

/// Whether a tick makes a pass over the derived events.
pub open spec fn pass_due(tick: u64) -> bool {
    tick % DERIVED_EVENTS_EVERY_N_TICKS == 0
}

/// One tick in ten makes a pass, the first among them.
pub proof fn law_one_tick_in_ten_makes_a_pass(tick: u64)
    ensures
        pass_due(0),
        pass_due(tick) <==> tick % 10 == 0,
        tick <= u64::MAX - 10 ==> (pass_due((tick + 10) as u64) <==> pass_due(tick)),
{
}

/// An event is due at first and then ten seconds after its last record.
pub proof fn law_events_are_due_after_ten_seconds(t: u64, now_ns: u64)
    ensures
        due(None, now_ns),
        due(Some(t), now_ns) <==> now_ns >= t + 10_000_000_000,
{
}

/// A pass asks for what has happened since the last one and is due, with the
/// figures as they stand: dropped repair requests, failures to seal, a newer
/// snapshot; and it always shows the free space or, where that could not be
/// read, warns of it when due.
pub proof fn law_pass_tells_what_happened(w: Watch, r: Reading)
    ensures
        ({
            let d = w.derived(r);
            let storm = r.naks_dropped > w.naks_dropped && due(w.nak_storm_at, r.now_ns);
            let seal = r.seal_failures > w.seal_failures && due(w.seal_failures_at, r.now_ns);
            let snap = r.snapshot_pos > w.snapshot_pos && due(w.snapshot_at, r.now_ns);
            &&& storm ==> d.contains(
                Derived::NakStorm { naks_dropped: r.naks_dropped, naks_served: r.naks_served },
            )
            &&& seal ==> d.contains(
                Derived::SealFailures {
                    count: (r.seal_failures - w.recorded_seal_failures) as u64,
                    is_leader: r.is_leader,
                },
            )
            &&& snap ==> d.contains(Derived::SnapshotPublished { pos: r.snapshot_pos })
            &&& r.free_disk_bytes matches Some(bytes) ==> d.contains(Derived::FreeDisk { bytes })
            &&& r.free_disk_bytes is None && due(w.disk_warned_at, r.now_ns) ==> d.contains(
                Derived::DiskProbeFailed,
            )
            &&& d.len() == (if storm {
                1int
            } else {
                0
            }) + (if seal {
                1int
            } else {
                0
            }) + (if snap {
                1int
            } else {
                0
            }) + (if r.free_disk_bytes is Some || due(w.disk_warned_at, r.now_ns) {
                1int
            } else {
                0
            })
        }),
{
    let d = w.derived(r);
    let a: int = if w.storms(r) {
        1
    } else {
        0
    };
    let b: int = a + if w.fails_to_seal(r) {
        1int
    } else {
        0
    };
    let c: int = b + if w.publishes(r) {
        1int
    } else {
        0
    };
    if w.storms(r) {
        assert(d[0] == Derived::NakStorm {
            naks_dropped: r.naks_dropped,
            naks_served: r.naks_served,
        });
    }
    if w.fails_to_seal(r) {
        assert(d[a] == Derived::SealFailures {
            count: (r.seal_failures - w.recorded_seal_failures) as u64,
            is_leader: r.is_leader,
        });
    }
    if w.publishes(r) {
        assert(d[b] == Derived::SnapshotPublished { pos: r.snapshot_pos });
    }
    if r.free_disk_bytes is Some {
        assert(d[c] == Derived::FreeDisk { bytes: r.free_disk_bytes->0 });
    } else if due(w.disk_warned_at, r.now_ns) {
        assert(d[c] == Derived::DiskProbeFailed);
    }
}

/// After a pass the watch knows the figures it read, and the time of each
/// event that it asked for; of the others it keeps what it knew.
pub proof fn law_pass_remembers_what_it_read(w: Watch, r: Reading)
    ensures
        ({
            let a = w.passed(r);
            let storm = r.naks_dropped > w.naks_dropped && due(w.nak_storm_at, r.now_ns);
            let seal = r.seal_failures > w.seal_failures && due(w.seal_failures_at, r.now_ns);
            let snap = r.snapshot_pos > w.snapshot_pos && due(w.snapshot_at, r.now_ns);
            let warn = r.free_disk_bytes is None && due(w.disk_warned_at, r.now_ns);
            &&& a.naks_dropped == r.naks_dropped && a.seal_failures == r.seal_failures
            &&& a.snapshot_pos == r.snapshot_pos
            &&& storm ==> a.nak_storm_at == Some(r.now_ns)
            &&& !storm ==> a.nak_storm_at == w.nak_storm_at
            &&& seal ==> a.seal_failures_at == Some(r.now_ns) && a.recorded_seal_failures
                == r.seal_failures
            &&& !seal ==> a.seal_failures_at == w.seal_failures_at && a.recorded_seal_failures
                == w.recorded_seal_failures
            &&& snap ==> a.snapshot_at == Some(r.now_ns)
            &&& !snap ==> a.snapshot_at == w.snapshot_at
            &&& warn ==> a.disk_warned_at == Some(r.now_ns)
            &&& !warn ==> a.disk_warned_at == w.disk_warned_at
        }),
{
}

/// A derived event's record tells the node and the event's own figures, under
/// its own name: a warning for what went wrong, information for a snapshot.
/// What only publishes is not recorded.
pub proof fn law_derived_records_tell_their_figures(
    node: NodeId,
    a: u64,
    b: u64,
    leads: bool,
)
    ensures
        derived_record(node, Derived::NakStorm { naks_dropped: a, naks_served: b }) matches Some(r)
            && r.0 == LogLevel::Warn && r.1 == "nak_storm"@ && audit::tells(
            r.2,
            audit::number_field("node"@, node as nat),
        ) && audit::tells(r.2, audit::number_field("naks_dropped"@, a as nat)) && audit::tells(
            r.2,
            audit::number_field("naks_served"@, b as nat),
        ),
        derived_record(node, Derived::SealFailures { count: a, is_leader: leads }) matches Some(r)
            && r.0 == LogLevel::Warn && r.1 == "seal_failures"@ && audit::tells(
            r.2,
            audit::number_field("node"@, node as nat),
        ) && audit::tells(r.2, audit::number_field("count"@, a as nat)) && audit::tells(
            r.2,
            text::bool_text(leads),
        ),
        derived_record(node, Derived::SnapshotPublished { pos: a }) matches Some(r) && r.0
            == LogLevel::Info && r.1 == "snapshot_published"@ && audit::tells(
            r.2,
            audit::number_field("node"@, node as nat),
        ) && audit::tells(r.2, audit::number_field("pos"@, a as nat)),
        derived_record(node, Derived::FreeDisk { bytes: a }) is None,
        derived_record(node, Derived::DiskProbeFailed) is None,
{
    let e = Seq::<char>::empty();
    let n = audit::number_field("node"@, node as nat);
    let x = audit::number_field("naks_dropped"@, a as nat);
    let y = audit::number_field("naks_served"@, b as nat);
    audit::lemma_told(n + x + y, e, n, x + y);
    audit::lemma_told(n + x + y, n, x, y);
    audit::lemma_told(n + x + y, n + x, y, e);
    let c = audit::number_field("count"@, a as nat);
    let k = seq![',', '"'] + "is_leader"@ + "\":"@;
    let v = text::bool_text(leads);
    audit::lemma_told(n + c + (k + v), e, n, c + (k + v));
    audit::lemma_told(n + c + (k + v), n, c, k + v);
    audit::lemma_told(n + c + (k + v), n + c + k, v, e);
    let p = audit::number_field("pos"@, a as nat);
    audit::lemma_told(n + p, e, n, p);
    audit::lemma_told(n + p, n, p, e);
}

/// What is printed of a role names the node, the role and the term.
pub proof fn law_role_notice_tells_the_role(node: NodeId, leads: bool, term: u32)
    ensures
        audit::tells(role_text(node, leads, term), "node "@ + text::digits(node as nat)),
        audit::tells(
            role_text(node, leads, term),
            if leads {
                " is now LEADER (term "@
            } else {
                " is now follower (term "@
            } + text::digits(term as nat) + ")"@,
        ),
{
    reveal_strlit("uc2-node: node ");
    reveal_strlit("uc2-node: ");
    reveal_strlit("node ");
    reveal_strlit(" is now ");
    reveal_strlit("LEADER");
    reveal_strlit("follower");
    reveal_strlit(" (term ");
    reveal_strlit(" is now LEADER (term ");
    reveal_strlit(" is now follower (term ");
    let d = text::digits(node as nat);
    let t = text::digits(term as nat);
    let role = if leads {
        "LEADER"@
    } else {
        "follower"@
    };
    let said = if leads {
        " is now LEADER (term "@
    } else {
        " is now follower (term "@
    };
    let all = role_text(node, leads, term);
    assert(said =~= " is now "@ + role + " (term "@);
    assert("uc2-node: node "@ =~= "uc2-node: "@ + "node "@);
    audit::lemma_told(all, "uc2-node: "@, "node "@ + d, said + t + ")"@);
    audit::lemma_told(all, "uc2-node: "@ + ("node "@ + d), said + t + ")"@, Seq::empty());
}

/// What is printed of a drain that ran out of time tells how many bytes are
/// missing, and the two positions.
pub proof fn law_drain_notice_tells_what_is_missing(append: u64, durable: u64)
    requires
        durable < append,
    ensures
        ({
            let s = drain_text(DrainOutcome::DeadlineExpired { append, durable });
            &&& audit::tells(s, text::digits((append - durable) as nat) + " bytes unrecorded"@)
            &&& audit::tells(s, "append "@ + text::digits(append as nat))
            &&& audit::tells(s, "durable "@ + text::digits(durable as nat))
        }),
        drain_text(DrainOutcome::Drained) == "uc2-node: drained, stopped cleanly"@,
{
    reveal_strlit(" bytes unrecorded (append ");
    reveal_strlit(" bytes unrecorded");
    reveal_strlit(" (append ");
    reveal_strlit(" (");
    reveal_strlit("append ");
    reveal_strlit(", durable ");
    reveal_strlit(", ");
    reveal_strlit("durable ");
    let h = "uc2-node: drain deadline expired with "@;
    let n = text::digits((append - durable) as nat);
    let a = text::digits(append as nat);
    let d = text::digits(durable as nat);
    let z = "); stopped anyway — the restarted node will re-fetch them"@;
    let s = drain_text(DrainOutcome::DeadlineExpired { append, durable });
    assert(" bytes unrecorded (append "@ =~= " bytes unrecorded"@ + " ("@ + "append "@);
    assert(", durable "@ =~= ", "@ + "durable "@);
    let u = " bytes unrecorded"@;
    audit::lemma_told(s, h, n + u, " ("@ + ("append "@ + a) + ", "@ + ("durable "@ + d) + z);
    audit::lemma_told(s, h + n + u + " ("@, "append "@ + a, ", "@ + ("durable "@ + d) + z);
    audit::lemma_told(s, h + n + u + " ("@ + ("append "@ + a) + ", "@, "durable "@ + d, z);
}

} // verus!
