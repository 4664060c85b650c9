//! What the node's transitions are logged as.

use crate::audit;
use crate::node::effects::{AuditedReq, NodeEvent};
use crate::obs::log;
use crate::obs::log::{emit_at, EventLog, Field, FieldValue, LogLevel, Sink};
use crate::text;
use crate::text::{push_addr, push_decimal};
use vstd::prelude::*;
use vstd::string::StringExecFns;

verus! {

proof fn lemma_fields_grow(v: Seq<Field>, n: int)
    requires
        0 <= n < v.len(),
    ensures
        log::fields_text(v.take(n + 1)) == log::fields_text(v.take(n)) + log::field_text(v[n]),
{
    assert(v.take(n + 1).drop_last() =~= v.take(n));
}

/// The fields of a record one after the other, for up to six of them.
pub proof fn lemma_few_fields(v: Seq<Field>)
    requires
        v.len() <= 6,
    ensures
        v.len() == 0 ==> log::fields_text(v) == Seq::<char>::empty(),
        v.len() == 1 ==> log::fields_text(v) == log::field_text(v[0]),
        v.len() == 2 ==> log::fields_text(v) == log::field_text(v[0]) + log::field_text(v[1]),
        v.len() == 3 ==> log::fields_text(v) == log::field_text(v[0]) + log::field_text(v[1])
            + log::field_text(v[2]),
        v.len() == 4 ==> log::fields_text(v) == log::field_text(v[0]) + log::field_text(v[1])
            + log::field_text(v[2]) + log::field_text(v[3]),
        v.len() == 6 ==> log::fields_text(v) == log::field_text(v[0]) + log::field_text(v[1])
            + log::field_text(v[2]) + log::field_text(v[3]) + log::field_text(v[4])
            + log::field_text(v[5]),
{
    assert(v.take(0) =~= Seq::empty());
    if v.len() >= 1 {
        lemma_fields_grow(v, 0);
        assert(log::fields_text(v.take(0)) + log::field_text(v[0]) =~= log::field_text(v[0]));
    }
    if v.len() >= 2 {
        lemma_fields_grow(v, 1);
    }
    if v.len() >= 3 {
        lemma_fields_grow(v, 2);
    }
    if v.len() >= 4 {
        lemma_fields_grow(v, 3);
    }
    if v.len() >= 5 {
        lemma_fields_grow(v, 4);
    }
    if v.len() >= 6 {
        lemma_fields_grow(v, 5);
    }
    assert(v.take(v.len() as int) =~= v);
}

/// The level and the name of a transition's record; `None` where it is a
/// plain notice.
pub open spec fn record_kind(ev: NodeEvent) -> Option<(LogLevel, Seq<char>)> {
    match ev {
        NodeEvent::BecameLeader { .. } => Some((LogLevel::Info, "became_leader"@)),
        NodeEvent::BecameFollower { .. } => Some((LogLevel::Info, "became_follower"@)),
        NodeEvent::LogTruncated { .. } => Some((LogLevel::Warn, "log_truncated"@)),
        NodeEvent::LogWiped => Some((LogLevel::Warn, "log_wiped"@)),
        NodeEvent::ConfigAdopted { .. } => Some((LogLevel::Info, "config_adopted"@)),
        NodeEvent::HaltRemoved { .. } => Some((LogLevel::Error, "halt_removed"@)),
        NodeEvent::StepdownRemoved { .. } => Some((LogLevel::Warn, "stepdown_removed"@)),
        NodeEvent::SnapshotInstalled { .. } => Some((LogLevel::Info, "snapshot_installed"@)),
        NodeEvent::ServingChanged { .. } => Some((LogLevel::Info, "serving_changed"@)),
        NodeEvent::ConfigProposalNonMember { .. } => Some(
            (LogLevel::Warn, "config_proposal_non_member"@),
        ),
        NodeEvent::SelfDemoted => None,
        NodeEvent::ForwardSuperseded => None,
        NodeEvent::ImplausibleConfig { .. } => None,
        NodeEvent::DivergentConfig { .. } => None,
    }
}

/// The fields of a transition's record.
pub open spec fn record_fields(node: u32, ev: NodeEvent) -> Seq<char> {
    let n = audit::number_field("node"@, node as nat);
    match ev {
        NodeEvent::BecameLeader { term, base } => n + audit::number_field("term"@, term as nat)
            + audit::number_field("base"@, base as nat),
        NodeEvent::BecameFollower { term, leader } => match leader {
            Some(l) => n + audit::number_field("term"@, term as nat) + audit::number_field(
                "leader"@,
                l as nat,
            ),
            None => n + audit::number_field("term"@, term as nat),
        },
        NodeEvent::LogTruncated { epoch, to } => n + audit::number_field("epoch"@, epoch as nat)
            + audit::number_field("to"@, to as nat),
        NodeEvent::LogWiped => n,
        NodeEvent::ConfigAdopted { position, version, prev_position } => n + audit::number_field(
            "position"@,
            position as nat,
        ) + audit::number_field("version"@, version as nat) + audit::number_field(
            "prev_position"@,
            prev_position as nat,
        ),
        NodeEvent::HaltRemoved { term } => n + audit::number_field("term"@, term as nat)
            + audit::text_field("msg"@, "removed from cluster config — halting"@),
        NodeEvent::StepdownRemoved { term } => n + audit::number_field("term"@, term as nat)
            + audit::text_field(
            "msg"@,
            "removed from cluster (self-removal committed) — halting"@,
        ),
        NodeEvent::SnapshotInstalled { pos } => n + audit::number_field("pos"@, pos as nat),
        NodeEvent::ServingChanged { term, can_serve } => n + audit::number_field(
            "term"@,
            term as nat,
        ) + (seq![',', '"'] + "can_serve"@ + "\":"@ + text::bool_text(can_serve)),
        NodeEvent::ConfigProposalNonMember { from } => n + audit::text_field(
            "from"@,
            text::addr_text(from.0, from.1),
        ),
        _ => Seq::empty(),
    }
}

/// The text of a plain notice.
pub open spec fn notice_text(node: u32, ev: NodeEvent) -> Seq<char> {
    match ev {
        NodeEvent::SelfDemoted => "node "@ + text::digits(node as nat)
            + ": leader adopted a config demoting itself from the log (crash-handoff of a demote a prior leader proposed against this id) — will relinquish leadership to a non-voting learner-follower once the demote commits (T1 self-heal); no operator action required"@,
        NodeEvent::ForwardSuperseded => "uc2_node: admin forward superseded by newer request"@,
        NodeEvent::ImplausibleConfig { position, durable } => "node "@ + text::digits(node as nat)
            + ": ignoring implausible ConfigObserved at "@ + text::digits(position as nat)
            + " (durable "@ + text::digits(durable as nat) + ")"@,
        NodeEvent::DivergentConfig { position, version } => "node "@ + text::digits(node as nat)
            + ": DIVERGENT config observed at "@ + text::digits(position as nat) + ": version "@
            + text::digits(version as nat) + " content differs from adopted"@,
        _ => Seq::empty(),
    }
}

/// A record of a given level, name and field text, without the line end.
pub open spec fn stamped(
    ts_ns: u128,
    l: LogLevel,
    event: Seq<char>,
    fields: Seq<char>,
) -> Seq<char> {
    "{\"ts_ns\":"@ + text::digits(ts_ns as nat) + log::level_text(Some(l)) + ",\"event\":\""@
        + log::escaped(event) + seq!['"'] + fields + seq!['}']
}

/// What becomes of a record: whether a line goes to standard error, and what
/// the log captured.
pub open spec fn recorded(
    before: EventLog,
    after: EventLog,
    line: Option<String>,
    l: LogLevel,
    record: Seq<char>,
) -> bool {
    let kept = log::keeps(before.level, l);
    &&& match line {
        Some(line) => kept && before.sink == Sink::Stderr && line@ == record.push('\n'),
        None => !kept || before.sink == Sink::Capture,
    }
    &&& after.level == before.level
    &&& after.sink == before.sink
    &&& after.captured@ == (if kept && before.sink == Sink::Capture {
        before.captured@ + record.push('\n')
    } else {
        before.captured@
    })
}

/// Number fields.
fn num(key: &'static str, n: u64) -> (f: Field<'static>)
    ensures
        log::field_text(f) == audit::number_field(key@, n as nat),
{
    Field { key, value: FieldValue::U64(n) }
}

/// Emit a record and relate it to the text of its fields.
pub fn emit_fields(
    log: &mut EventLog,
    ts_ns: u128,
    l: LogLevel,
    event: &str,
    fields: &Vec<Field>,
) -> (line: Option<String>)
    ensures
        recorded(
            *old(log),
            *final(log),
            line,
            l,
            stamped(ts_ns, l, event@, log::fields_text(fields@)),
        ),
{
    emit_at(log, ts_ns, l, event, fields)
}

/// Record a transition of `node`.
pub fn record_event(log: &mut EventLog, ts_ns: u128, node: u32, ev: NodeEvent) -> (line: Option<
    String,
>)
    requires
        record_kind(ev) is Some,
    ensures
        ({
            let (l, name) = record_kind(ev)->0;
            recorded(
                *old(log),
                *final(log),
                line,
                l,
                stamped(ts_ns, l, name, record_fields(node, ev)),
            )
        }),
{
    let n = num("node", node as u64);
    match ev {
        NodeEvent::BecameLeader { term, base } => {
            let v = vec![n, num("term", term as u64), num("base", base)];
            proof {
                lemma_few_fields(v@);
            }
            emit_fields(log, ts_ns, LogLevel::Info, "became_leader", &v)
        },
        NodeEvent::BecameFollower { term, leader } => {
            let v = match leader {
                Some(l) => vec![n, num("term", term as u64), num("leader", l as u64)],
                None => vec![n, num("term", term as u64)],
            };
            proof {
                lemma_few_fields(v@);
            }
            emit_fields(log, ts_ns, LogLevel::Info, "became_follower", &v)
        },
        NodeEvent::LogTruncated { epoch, to } => {
            let v = vec![n, num("epoch", epoch), num("to", to)];
            proof {
                lemma_few_fields(v@);
            }
            emit_fields(log, ts_ns, LogLevel::Warn, "log_truncated", &v)
        },
        NodeEvent::LogWiped => {
            let v = vec![n];
            proof {
                lemma_few_fields(v@);
            }
            emit_fields(log, ts_ns, LogLevel::Warn, "log_wiped", &v)
        },
        NodeEvent::ConfigAdopted { position, version, prev_position } => {
            let v = vec![
                n,
                num("position", position),
                num("version", version),
                num("prev_position", prev_position),
            ];
            proof {
                lemma_few_fields(v@);
            }
            emit_fields(log, ts_ns, LogLevel::Info, "config_adopted", &v)
        },
        NodeEvent::HaltRemoved { term } => {
            let v = vec![
                n,
                num("term", term as u64),
                Field {
                    key: "msg",
                    value: FieldValue::Str("removed from cluster config — halting"),
                },
            ];
            proof {
                lemma_few_fields(v@);
            }
            emit_fields(log, ts_ns, LogLevel::Error, "halt_removed", &v)
        },
        NodeEvent::StepdownRemoved { term } => {
            let v = vec![
                n,
                num("term", term as u64),
                Field {
                    key: "msg",
                    value: FieldValue::Str(
                        "removed from cluster (self-removal committed) — halting",
                    ),
                },
            ];
            proof {
                lemma_few_fields(v@);
            }
            emit_fields(log, ts_ns, LogLevel::Warn, "stepdown_removed", &v)
        },
        NodeEvent::SnapshotInstalled { pos } => {
            let v = vec![n, num("pos", pos)];
            proof {
                lemma_few_fields(v@);
            }
            emit_fields(log, ts_ns, LogLevel::Info, "snapshot_installed", &v)
        },
        NodeEvent::ServingChanged { term, can_serve } => {
            let v = vec![
                n,
                num("term", term as u64),
                Field { key: "can_serve", value: FieldValue::Bool(can_serve) },
            ];
            proof {
                lemma_few_fields(v@);
            }
            emit_fields(log, ts_ns, LogLevel::Info, "serving_changed", &v)
        },
        NodeEvent::ConfigProposalNonMember { from } => {
            let mut addr = String::new();
            push_addr(&mut addr, from.0, from.1);
            assert(addr@ =~= text::addr_text(from.0, from.1));
            let v = vec![n, Field { key: "from", value: FieldValue::Str(addr.as_str()) }];
            proof {
                lemma_few_fields(v@);
            }
            emit_fields(log, ts_ns, LogLevel::Warn, "config_proposal_non_member", &v)
        },
        _ => None,
    }
}

/// The text of a plain notice about `node`.
pub fn notice(node: u32, ev: NodeEvent) -> (s: String)
    requires
        record_kind(ev) is None,
    ensures
        s@ == notice_text(node, ev),
{
    match ev {
        NodeEvent::SelfDemoted => {
            let mut s = "node ".to_owned();
            push_decimal(&mut s, node as u128);
            s.append(
                ": leader adopted a config demoting itself from the log (crash-handoff of a demote a prior leader proposed against this id) — will relinquish leadership to a non-voting learner-follower once the demote commits (T1 self-heal); no operator action required",
            );
            s
        },
        NodeEvent::ForwardSuperseded =>
        "uc2_node: admin forward superseded by newer request".to_owned(),
        NodeEvent::ImplausibleConfig { position, durable } => {
            let mut s = "node ".to_owned();
            push_decimal(&mut s, node as u128);
            s.append(": ignoring implausible ConfigObserved at ");
            push_decimal(&mut s, position as u128);
            s.append(" (durable ");
            push_decimal(&mut s, durable as u128);
            s.append(")");
            s
        },
        NodeEvent::DivergentConfig { position, version } => {
            let mut s = "node ".to_owned();
            push_decimal(&mut s, node as u128);
            s.append(": DIVERGENT config observed at ");
            push_decimal(&mut s, position as u128);
            s.append(": version ");
            push_decimal(&mut s, version as u128);
            s.append(" content differs from adopted");
            s
        },
        _ => String::new(),
    }
}

/// Record that an admin answer could not be put on record, with the cause.
pub fn audit_failed(
    log: &mut EventLog,
    ts_ns: u128,
    node: u32,
    req: &AuditedReq,
    status: u32,
    cause: &str,
) -> (line: Option<String>)
    ensures
        recorded(
            *old(log),
            *final(log),
            line,
            LogLevel::Error,
            stamped(
                ts_ns,
                LogLevel::Error,
                "admin_audit_failed"@,
                audit::number_field("node"@, node as nat) + audit::number_field(
                    "seq"@,
                    req.seq as nat,
                ) + audit::number_field("nonce"@, req.nonce as nat) + audit::number_field(
                    "op"@,
                    req.op as nat,
                ) + audit::number_field("status"@, status as nat) + audit::text_field(
                    "err"@,
                    cause@,
                ),
            ),
        ),
{
    let v = vec![
        num("node", node as u64),
        num("seq", req.seq),
        num("nonce", req.nonce),
        num("op", req.op as u64),
        num("status", status as u64),
        Field { key: "err", value: FieldValue::Str(cause) },
    ];
    proof {
        lemma_few_fields(v@);
    }
    emit_fields(log, ts_ns, LogLevel::Error, "admin_audit_failed", &v)
}

/// Every transition is recorded under its own name and level, with the node
/// and its own figures.
pub proof fn law_transitions_tell_their_figures(
    node: u32,
    term: u32,
    base: u64,
    id: u32,
    epoch: u64,
    before: u64,
    can_serve: bool,
    from: (u32, u16),
)
    ensures
        record_kind(NodeEvent::BecameLeader { term, base }) == Some((LogLevel::Info, "became_leader"@)),
        record_fields(node, NodeEvent::BecameLeader { term, base }) == audit::number_field("node"@, node as nat) + audit::number_field("term"@, term as nat) + audit::number_field("base"@, base as nat),
        record_kind(NodeEvent::BecameFollower { term, leader: Some(id) }) == Some((LogLevel::Info, "became_follower"@)),
        record_fields(node, NodeEvent::BecameFollower { term, leader: Some(id) }) == audit::number_field("node"@, node as nat) + audit::number_field("term"@, term as nat) + audit::number_field("leader"@, id as nat),
        record_kind(NodeEvent::BecameFollower { term, leader: None }) == Some((LogLevel::Info, "became_follower"@)),
        record_fields(node, NodeEvent::BecameFollower { term, leader: None }) == audit::number_field("node"@, node as nat) + audit::number_field("term"@, term as nat),
        record_kind(NodeEvent::LogTruncated { epoch, to: base }) == Some((LogLevel::Warn, "log_truncated"@)),
        record_fields(node, NodeEvent::LogTruncated { epoch, to: base }) == audit::number_field("node"@, node as nat) + audit::number_field("epoch"@, epoch as nat) + audit::number_field("to"@, base as nat),
        record_kind(NodeEvent::LogWiped) == Some((LogLevel::Warn, "log_wiped"@)),
        record_fields(node, NodeEvent::LogWiped) == audit::number_field("node"@, node as nat),
        record_kind(NodeEvent::ConfigAdopted { position: base, version: epoch, prev_position: before }) == Some((LogLevel::Info, "config_adopted"@)),
        record_fields(node, NodeEvent::ConfigAdopted { position: base, version: epoch, prev_position: before }) == audit::number_field("node"@, node as nat) + audit::number_field("position"@, base as nat) + audit::number_field("version"@, epoch as nat) + audit::number_field("prev_position"@, before as nat),
        record_kind(NodeEvent::SnapshotInstalled { pos: base }) == Some((LogLevel::Info, "snapshot_installed"@)),
        record_fields(node, NodeEvent::SnapshotInstalled { pos: base }) == audit::number_field("node"@, node as nat) + audit::number_field("pos"@, base as nat),
        record_kind(NodeEvent::ConfigProposalNonMember { from }) == Some((LogLevel::Warn, "config_proposal_non_member"@)),
        record_fields(node, NodeEvent::ConfigProposalNonMember { from }) == audit::number_field("node"@, node as nat) + audit::text_field("from"@, text::addr_text(from.0, from.1)),
        record_kind(NodeEvent::HaltRemoved { term }) == Some((LogLevel::Error, "halt_removed"@)),
        record_kind(NodeEvent::StepdownRemoved { term }) == Some(
            (LogLevel::Warn, "stepdown_removed"@),
        ),
        record_kind(NodeEvent::ServingChanged { term, can_serve }) == Some(
            (LogLevel::Info, "serving_changed"@),
        ),
        audit::tells(record_fields(node, NodeEvent::HaltRemoved { term }), audit::number_field("node"@, node as nat) + audit::number_field("term"@, term as nat)),
        audit::tells(record_fields(node, NodeEvent::StepdownRemoved { term }), audit::number_field("node"@, node as nat) + audit::number_field("term"@, term as nat)),
        audit::tells(
            record_fields(node, NodeEvent::ServingChanged { term, can_serve }),
            audit::number_field("node"@, node as nat) + audit::number_field("term"@, term as nat),
        ),
        audit::tells(
            record_fields(node, NodeEvent::ServingChanged { term, can_serve }),
            "can_serve\":"@ + (if can_serve {
                "true"@
            } else {
                "false"@
            }),
        ),
{
    let e = Seq::<char>::empty();
    let n = audit::number_field("node"@, node as nat) + audit::number_field("term"@, term as nat);
    let h = record_fields(node, NodeEvent::HaltRemoved { term });
    audit::lemma_told(h, e, n, h.skip(n.len() as int));
    let d = record_fields(node, NodeEvent::StepdownRemoved { term });
    audit::lemma_told(d, e, n, d.skip(n.len() as int));
    let s = record_fields(node, NodeEvent::ServingChanged { term, can_serve });
    audit::lemma_told(s, e, n, s.skip(n.len() as int));
    reveal_strlit("can_serve");
    reveal_strlit("\":");
    reveal_strlit("can_serve\":");
    assert("can_serve"@ + "\":"@ =~= "can_serve\":"@);
    let v = text::bool_text(can_serve);
    audit::lemma_told(s, n + seq![',', '"'], "can_serve\":"@ + v, e);
}

/// A configuration that is not taken up, or that contradicts the adopted one,
/// is told of with its position and what it was held against.
pub proof fn law_notices_tell_their_figures(node: u32, position: u64, other: u64)
    ensures
        ({
            let a = notice_text(node, NodeEvent::ImplausibleConfig { position, durable: other });
            let b = notice_text(node, NodeEvent::DivergentConfig { position, version: other });
            &&& audit::tells(a, "node "@ + text::digits(node as nat))
            &&& audit::tells(a, "at "@ + text::digits(position as nat))
            &&& audit::tells(a, "durable "@ + text::digits(other as nat))
            &&& audit::tells(b, "node "@ + text::digits(node as nat))
            &&& audit::tells(b, "at "@ + text::digits(position as nat))
            &&& audit::tells(b, "version "@ + text::digits(other as nat))
        }),
        record_kind(NodeEvent::ImplausibleConfig { position, durable: other }) is None,
        record_kind(NodeEvent::DivergentConfig { position, version: other }) is None,
        record_kind(NodeEvent::SelfDemoted) is None,
        record_kind(NodeEvent::ForwardSuperseded) is None,
{
    let n = text::digits(node as nat);
    let p = text::digits(position as nat);
    let o = text::digits(other as nat);
    let e = Seq::<char>::empty();
    reveal_strlit("at ");
    reveal_strlit(": ignoring implausible ConfigObserved at ");
    reveal_strlit(": ignoring implausible ConfigObserved ");
    reveal_strlit(" (durable ");
    reveal_strlit(" (");
    reveal_strlit("durable ");
    reveal_strlit(": DIVERGENT config observed at ");
    reveal_strlit(": DIVERGENT config observed ");
    reveal_strlit(": version ");
    reveal_strlit(": ");
    reveal_strlit("version ");
    let a = notice_text(node, NodeEvent::ImplausibleConfig { position, durable: other });
    let x = ": ignoring implausible ConfigObserved "@;
    assert(": ignoring implausible ConfigObserved at "@ =~= x + "at "@);
    assert(" (durable "@ =~= " ("@ + "durable "@);
    let head = "node "@ + n;
    let z = ")"@;
    audit::lemma_told(a, e, head, x + ("at "@ + p) + " ("@ + ("durable "@ + o) + z);
    audit::lemma_told(a, head + x, "at "@ + p, " ("@ + ("durable "@ + o) + z);
    audit::lemma_told(a, head + x + ("at "@ + p) + " ("@, "durable "@ + o, z);
    let b = notice_text(node, NodeEvent::DivergentConfig { position, version: other });
    let y = ": DIVERGENT config observed "@;
    assert(": DIVERGENT config observed at "@ =~= y + "at "@);
    assert(": version "@ =~= ": "@ + "version "@);
    let w = " content differs from adopted"@;
    audit::lemma_told(b, e, head, y + ("at "@ + p) + ": "@ + ("version "@ + o) + w);
    audit::lemma_told(b, head + y, "at "@ + p, ": "@ + ("version "@ + o) + w);
    audit::lemma_told(b, head + y + ("at "@ + p) + ": "@, "version "@ + o, w);
}

/// A record goes to one place: nowhere where the filter drops it, otherwise
/// out as a line, or behind what was captured. The log itself stays as it is.
pub proof fn law_record_goes_to_one_place(
    before: EventLog,
    after: EventLog,
    line: Option<String>,
    l: LogLevel,
    record: Seq<char>,
)
    requires
        recorded(before, after, line, l, record),
    ensures
        after.level == before.level && after.sink == before.sink,
        !log::keeps(before.level, l) ==> line is None && after.captured@ == before.captured@,
        log::keeps(before.level, l) && before.sink == Sink::Stderr ==> line is Some && line->0@
            == record.push('\n') && after.captured@ == before.captured@,
        log::keeps(before.level, l) && before.sink == Sink::Capture ==> line is None
            && after.captured@ == before.captured@ + record.push('\n'),
{
}

/// A stamped record is made like every other.
pub proof fn law_stamped_records_are_records(
    ts_ns: u128,
    l: LogLevel,
    event: Seq<char>,
    fields: Seq<Field>,
)
    ensures
        stamped(ts_ns, l, event, log::fields_text(fields)) == log::record_text(
            ts_ns,
            Some(l),
            event,
            fields,
        ),
{
}

} // verus!
