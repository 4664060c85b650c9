//! The admin audit log: what every answer to an admin request is recorded as,
//! before it is published.

use crate::node::effects::AuditedReq;
use crate::obs::events;
use crate::obs::events::emit_fields;
use crate::obs::log;
use crate::obs::log::{format_line_at, EventLog, Field, FieldValue, LogLevel};
use crate::text;
use crate::text::push_addr;
use vstd::prelude::*;

verus! {

/// The file name inside the instance directory.
pub const AUDIT_FILE: &'static str = "audit.jsonl";

/// What the node decided about an admin request.
#[derive(Debug, Clone, Copy, PartialEq, Eq, Structural)]
pub enum AuditOutcome {
    /// Proposed and appended; not necessarily committed.
    Accepted,
    /// Refused, with the reason code the caller was given.
    Refused(u32),
    /// Answered `retry`.
    Retry,
}

/// Where the request the node is answering came from.
#[derive(Debug, Clone, Copy, PartialEq, Eq, Structural)]
pub enum AuditOrigin {
    /// Written into this node's own admin band.
    Local,
    /// Forwarded to this leader by a peer, which authenticated it.
    Forwarded,
}

impl AuditOutcome {
    /// The outcome's name.
    pub open spec fn name(self) -> Seq<char> {
        match self {
            AuditOutcome::Accepted => "accepted"@,
            AuditOutcome::Refused(_) => "refused"@,
            AuditOutcome::Retry => "retry"@,
        }
    }

    /// The outcome's name.
    pub fn as_str(self) -> (s: &'static str)
        ensures
            s@ == self.name(),
    {
        match self {
            AuditOutcome::Accepted => "accepted",
            AuditOutcome::Refused(_) => "refused",
            AuditOutcome::Retry => "retry",
        }
    }

    /// The reason that goes with the outcome, 0 unless it is a refusal.
    pub fn reason(self) -> (r: u32)
        ensures
            r == (match self {
                AuditOutcome::Refused(r) => r,
                _ => 0,
            }),
    {
        match self {
            AuditOutcome::Refused(r) => r,
            _ => 0,
        }
    }

    /// The outcome of an answer with this status and reason.
    pub open spec fn of_answer(status: u32, reason: u32) -> AuditOutcome {
        if status == 0 {
            AuditOutcome::Accepted
        } else if status == 2 {
            AuditOutcome::Retry
        } else {
            AuditOutcome::Refused(reason)
        }
    }

    /// The outcome of the answer about to be published, so that the record
    /// cannot disagree with it.
    pub fn from_wire(status: u32, reason: u32) -> (o: AuditOutcome)
        ensures
            o == AuditOutcome::of_answer(status, reason),
    {
        match status {
            0 => AuditOutcome::Accepted,
            2 => AuditOutcome::Retry,
            _ => AuditOutcome::Refused(reason),
        }
    }
}

impl AuditOrigin {
    /// The origin's name.
    pub open spec fn name(self) -> Seq<char> {
        match self {
            AuditOrigin::Local => "local"@,
            AuditOrigin::Forwarded => "forwarded"@,
        }
    }

    /// The origin's name.
    pub fn as_str(self) -> (s: &'static str)
        ensures
            s@ == self.name(),
    {
        match self {
            AuditOrigin::Local => "local",
            AuditOrigin::Forwarded => "forwarded",
        }
    }
}

/// The name of an operation code. A code that is none is recorded too.
pub open spec fn name_of_op(op: u32) -> Seq<char> {
    if op == 1 {
        "add_learner"@
    } else if op == 2 {
        "promote"@
    } else if op == 3 {
        "demote"@
    } else if op == 4 {
        "remove_learner"@
    } else if op == 5 {
        "remove_voter"@
    } else {
        "unknown"@
    }
}

/// The name of an operation code.
pub fn op_name(op: u32) -> (s: &'static str)
    ensures
        s@ == name_of_op(op),
{
    match op {
        1 => "add_learner",
        2 => "promote",
        3 => "demote",
        4 => "remove_learner",
        5 => "remove_voter",
        _ => "unknown",
    }
}

/// One audit record.
#[derive(Debug)]
pub struct AuditRecord<'a> {
    /// Unix nanoseconds.
    pub ts_ns: u64,
    /// The key name that signed the request, `filesystem` where nothing was
    /// authenticated, or the peer that forwarded it.
    pub actor: &'a str,
    pub origin: AuditOrigin,
    pub op: u32,
    pub op_name: &'static str,
    /// The target node.
    pub id: u32,
    /// The target address, where the operation carries one.
    pub addr: Option<(u32, u16)>,
    /// The admin band's sequence number; 0 on a forwarded proposal.
    pub seq: u64,
    pub nonce: u64,
    pub outcome: AuditOutcome,
    /// The reason published with the answer.
    pub reason: u32,
    /// The configuration version published with the answer.
    pub config_version: u64,
}

/// The record of an answer.
pub fn audited<'a>(
    ts_ns: u64,
    actor: Option<&'a str>,
    origin: AuditOrigin,
    req: &AuditedReq,
    status: u32,
    reason: u32,
    version: u64,
) -> (r: AuditRecord<'a>)
    ensures
        records(
            r,
            ts_ns,
            match actor {
                Some(a) => Some(a@),
                None => None,
            },
            origin,
            *req,
            status,
            reason,
            version,
        ),
{
    AuditRecord {
        ts_ns,
        actor: match actor {
            Some(a) => a,
            None => "filesystem",
        },
        origin,
        op: req.op,
        op_name: op_name(req.op),
        id: req.id,
        addr: if req.ip == 0 && req.port == 0 {
            None
        } else {
            Some((req.ip, req.port))
        },
        seq: req.seq,
        nonce: req.nonce,
        outcome: AuditOutcome::from_wire(status, reason),
        reason,
        config_version: version,
    }
}

/// A field whose value is a text.
pub open spec fn text_field(key: Seq<char>, value: Seq<char>) -> Seq<char> {
    seq![',', '"'] + key + "\":"@ + (seq!['"'] + log::escaped(value) + seq!['"'])
}

/// A field whose value is a number.
pub open spec fn number_field(key: Seq<char>, value: nat) -> Seq<char> {
    seq![',', '"'] + key + "\":"@ + text::digits(value)
}

/// The address field: null where the operation carries none.
pub open spec fn addr_field(addr: Option<(u32, u16)>) -> Seq<char> {
    match addr {
        Some(a) => text_field("addr"@, text::addr_text(a.0, a.1)),
        None => seq![',', '"'] + "addr"@ + "\":"@ + "null"@,
    }
}

/// The fields of a record, in their one order.
pub open spec fn record_fields(r: AuditRecord) -> Seq<char> {
    text_field("actor"@, r.actor@) + text_field("origin"@, r.origin.name()) + number_field(
        "op"@,
        r.op as nat,
    ) + text_field("op_name"@, r.op_name@) + number_field("id"@, r.id as nat) + addr_field(r.addr)
        + number_field("seq"@, r.seq as nat) + number_field("nonce"@, r.nonce as nat) + text_field(
        "outcome"@,
        r.outcome.name(),
    ) + number_field("reason"@, r.reason as nat) + number_field(
        "config_version"@,
        r.config_version as nat,
    )
}

/// The record's fields, in the one order that the file line and its mirror
/// in the log use. `addr` is the address as text, where there is one.
pub fn fields<'a>(r: &'a AuditRecord<'a>, addr: Option<&'a str>) -> (v: Vec<Field<'a>>)
    requires
        addr is Some == r.addr is Some,
        addr matches Some(a) ==> a@ == text::addr_text((r.addr->0).0, (r.addr->0).1),
    ensures
        log::fields_text(v@) == record_fields(*r),
        v@.len() == 11,
        forall|i: int| 0 <= i < v@.len() ==> log::printable((#[trigger] v@[i]).key@),
        forall|i: int| 0 <= i < v@.len() ==> log::string_body((#[trigger] v@[i]).key@),
{
    let addr_value = match addr {
        Some(s) => FieldValue::Str(s),
        None => FieldValue::Null,
    };
    let v = vec![
        Field { key: "actor", value: FieldValue::Str(r.actor) },
        Field { key: "origin", value: FieldValue::Str(r.origin.as_str()) },
        Field { key: "op", value: FieldValue::U64(r.op as u64) },
        Field { key: "op_name", value: FieldValue::Str(r.op_name) },
        Field { key: "id", value: FieldValue::U64(r.id as u64) },
        Field { key: "addr", value: addr_value },
        Field { key: "seq", value: FieldValue::U64(r.seq) },
        Field { key: "nonce", value: FieldValue::U64(r.nonce) },
        Field { key: "outcome", value: FieldValue::Str(r.outcome.as_str()) },
        Field { key: "reason", value: FieldValue::U64(r.reason as u64) },
        Field { key: "config_version", value: FieldValue::U64(r.config_version) },
    ];
    proof {
        lemma_eleven_fields(v@);
        reveal_strlit("actor");
        reveal_strlit("origin");
        reveal_strlit("op");
        reveal_strlit("op_name");
        reveal_strlit("id");
        reveal_strlit("addr");
        reveal_strlit("seq");
        reveal_strlit("nonce");
        reveal_strlit("outcome");
        reveal_strlit("reason");
        reveal_strlit("config_version");
        assert forall|i: int| 0 <= i < v@.len() implies log::string_body(
            (#[trigger] v@[i]).key@,
        ) by {
            log::lemma_plain_text_is_a_string_body(v@[i].key@);
        }
    }
    v
}

proof fn lemma_fields_grow(v: Seq<Field>, n: int)
    requires
        0 <= n < v.len(),
    ensures
        log::fields_text(v.take(n + 1)) == log::fields_text(v.take(n)) + log::field_text(v[n]),
{
    assert(v.take(n + 1).drop_last() =~= v.take(n));
}

proof fn lemma_eleven_fields(v: Seq<Field>)
    requires
        v.len() == 11,
    ensures
        log::fields_text(v) == log::field_text(v[0]) + log::field_text(v[1]) + log::field_text(
            v[2],
        ) + log::field_text(v[3]) + log::field_text(v[4]) + log::field_text(v[5])
            + log::field_text(v[6]) + log::field_text(v[7]) + log::field_text(v[8])
            + log::field_text(v[9]) + log::field_text(v[10]),
{
    lemma_fields_grow(v, 0);
    lemma_fields_grow(v, 1);
    lemma_fields_grow(v, 2);
    lemma_fields_grow(v, 3);
    lemma_fields_grow(v, 4);
    lemma_fields_grow(v, 5);
    lemma_fields_grow(v, 6);
    lemma_fields_grow(v, 7);
    lemma_fields_grow(v, 8);
    lemma_fields_grow(v, 9);
    lemma_fields_grow(v, 10);
    assert(v.take(0) =~= Seq::empty());
    assert(log::fields_text(v.take(0)) + log::field_text(v[0]) =~= log::field_text(v[0]));
    assert(v.take(11) =~= v);
}

/// A record as it stands in the audit file, without the line end. It has no
/// level.
pub open spec fn audit_text(r: AuditRecord) -> Seq<char> {
    "{\"ts_ns\":"@ + text::digits(r.ts_ns as nat) + ",\"event\":\""@ + log::escaped("admin_op"@)
        + seq!['"'] + record_fields(r) + seq!['}']
}

/// A record's mirror in the event log, made at `ts_ns`, without the line
/// end.
pub open spec fn mirror_text(ts_ns: u128, r: AuditRecord) -> Seq<char> {
    events::stamped(ts_ns, LogLevel::Info, "admin_op"@, record_fields(r))
}

/// The text of a record's address.
fn addr_string(r: &AuditRecord) -> (s: Option<String>)
    ensures
        s is Some == r.addr is Some,
        s matches Some(t) ==> t@ == text::addr_text((r.addr->0).0, (r.addr->0).1),
{
    match r.addr {
        Some(a) => {
            let mut buf = String::new();
            push_addr(&mut buf, a.0, a.1);
            assert(buf@ =~= text::addr_text(a.0, a.1));
            Some(buf)
        },
        None => None,
    }
}

/// The line to append to the audit file.
pub fn audit_line<'a>(r: &'a AuditRecord<'a>) -> (line: String)
    ensures
        line@ == audit_text(*r).push('\n'),
{
    let buf = addr_string(r);
    let addr = match &buf {
        Some(s) => Some(s.as_str()),
        None => None,
    };
    let fs = fields(r, addr);
    let line = format_line_at(r.ts_ns as u128, None, "admin_op", &fs);
    assert(line@ =~= audit_text(*r).push('\n'));
    line
}

/// Mirror a record that is on disk in the event log, at `ts_ns`.
pub fn mirror<'a>(log: &mut EventLog, ts_ns: u128, r: &'a AuditRecord<'a>) -> (line: Option<String>)
    ensures
        events::recorded(*old(log), *final(log), line, LogLevel::Info, mirror_text(ts_ns, *r)),
{
    let buf = addr_string(r);
    let addr = match &buf {
        Some(s) => Some(s.as_str()),
        None => None,
    };
    let fs = fields(r, addr);
    emit_fields(log, ts_ns, LogLevel::Info, "admin_op", &fs)
}

/// The line in the file and its mirror agree in everything but the time they
/// were made at and the level, which the mirror alone has.
pub proof fn law_mirror_differs_by_its_level(r: AuditRecord, ts_ns: u128)
    ensures
        ({
            let told = ",\"event\":\""@ + log::escaped("admin_op"@) + seq!['"'] + record_fields(r)
                + seq!['}'];
            &&& audit_text(r) == "{\"ts_ns\":"@ + text::digits(r.ts_ns as nat) + told
            &&& mirror_text(ts_ns, r) == "{\"ts_ns\":"@ + text::digits(ts_ns as nat)
                + log::level_text(Some(LogLevel::Info)) + told
        }),
{
    let told = ",\"event\":\""@ + log::escaped("admin_op"@) + seq!['"'] + record_fields(r) + seq![
        '}',
    ];
    assert(audit_text(r) =~= "{\"ts_ns\":"@ + text::digits(r.ts_ns as nat) + told);
    assert(mirror_text(ts_ns, r) =~= "{\"ts_ns\":"@ + text::digits(ts_ns as nat)
        + log::level_text(Some(LogLevel::Info)) + told);
}

/// A record never disagrees with the answer it is made of: it names the
/// status and carries the reason.
pub proof fn law_record_agrees_with_the_answer(status: u32, reason: u32)
    ensures
        (AuditOutcome::of_answer(status, reason) is Accepted) == (status == 0),
        (AuditOutcome::of_answer(status, reason) is Retry) == (status == 2),
        AuditOutcome::of_answer(status, reason) matches AuditOutcome::Refused(r) ==> r == reason,
        status == 1 ==> AuditOutcome::of_answer(status, reason) == AuditOutcome::Refused(reason),
{
}

/// Whether `whole` says `part` somewhere.
pub open spec fn tells(whole: Seq<char>, part: Seq<char>) -> bool {
    exists|at: int|
        0 <= at && at + part.len() <= whole.len() && #[trigger] whole.subrange(
            at,
            at + part.len(),
        ) == part
}

pub(crate) proof fn lemma_told(whole: Seq<char>, a: Seq<char>, part: Seq<char>, b: Seq<char>)
    requires
        whole =~= a + part + b,
    ensures
        tells(whole, part),
{
    let at = a.len() as int;
    assert(whole.subrange(at, at + part.len()) =~= part);
}

/// Whether `r` is the record of an answer.
pub open spec fn records(
    r: AuditRecord,
    ts_ns: u64,
    actor: Option<Seq<char>>,
    origin: AuditOrigin,
    req: AuditedReq,
    status: u32,
    reason: u32,
    version: u64,
) -> bool {
    &&& r.ts_ns == ts_ns
    &&& r.actor@ == (match actor {
        Some(a) => a,
        None => "filesystem"@,
    })
    &&& r.origin == origin
    &&& r.op == req.op
    &&& r.op_name@ == name_of_op(req.op)
    &&& r.id == req.id
    &&& r.addr == (if req.ip == 0 && req.port == 0 {
        None
    } else {
        Some((req.ip, req.port))
    })
    &&& r.seq == req.seq
    &&& r.nonce == req.nonce
    &&& r.outcome == AuditOutcome::of_answer(status, reason)
    &&& r.reason == reason
    &&& r.config_version == version
}

/// A record is of one answer: who asked, what was asked, where it came from,
/// when it was answered and what the answer was can all be told from it.
pub proof fn law_record_is_of_one_answer(
    r: AuditRecord,
    ts: u64,
    actor: Seq<char>,
    origin: AuditOrigin,
    req: AuditedReq,
    status: u32,
    reason: u32,
    version: u64,
    ts2: u64,
    actor2: Seq<char>,
    origin2: AuditOrigin,
    req2: AuditedReq,
    status2: u32,
    reason2: u32,
    version2: u64,
)
    requires
        records(r, ts, Some(actor), origin, req, status, reason, version),
        records(r, ts2, Some(actor2), origin2, req2, status2, reason2, version2),
    ensures
        ts == ts2,
        actor == actor2,
        origin == origin2,
        req == req2,
        reason == reason2,
        version == version2,
        status == 0 <==> status2 == 0,
        status == 2 <==> status2 == 2,
{
}

/// Where nothing was authenticated the record says so.
pub proof fn law_unsigned_requests_are_recorded_so(
    r: AuditRecord,
    ts: u64,
    origin: AuditOrigin,
    req: AuditedReq,
    status: u32,
    reason: u32,
    version: u64,
)
    requires
        records(r, ts, None, origin, req, status, reason, version),
    ensures
        r.actor@ == "filesystem"@,
{
}

/// The line of a record tells every one of its fields: who, from where, which
/// operation on whom, at which address, under which numbers, and what became
/// of it.
#[verifier::rlimit(30)]
pub proof fn law_line_tells_every_field(r: AuditRecord)
    ensures
        tells(record_fields(r), text_field("actor"@, r.actor@)),
        tells(record_fields(r), text_field("origin"@, r.origin.name())),
        tells(record_fields(r), number_field("op"@, r.op as nat)),
        tells(record_fields(r), text_field("op_name"@, r.op_name@)),
        tells(record_fields(r), number_field("id"@, r.id as nat)),
        tells(record_fields(r), addr_field(r.addr)),
        tells(record_fields(r), number_field("seq"@, r.seq as nat)),
        tells(record_fields(r), number_field("nonce"@, r.nonce as nat)),
        tells(record_fields(r), text_field("outcome"@, r.outcome.name())),
        tells(record_fields(r), number_field("reason"@, r.reason as nat)),
        tells(record_fields(r), number_field("config_version"@, r.config_version as nat)),
        tells(audit_text(r), record_fields(r)),
        tells(audit_text(r), text::digits(r.ts_ns as nat)),
{
    let f0 = text_field("actor"@, r.actor@);
    let f1 = text_field("origin"@, r.origin.name());
    let f2 = number_field("op"@, r.op as nat);
    let f3 = text_field("op_name"@, r.op_name@);
    let f4 = number_field("id"@, r.id as nat);
    let f5 = addr_field(r.addr);
    let f6 = number_field("seq"@, r.seq as nat);
    let f7 = number_field("nonce"@, r.nonce as nat);
    let f8 = text_field("outcome"@, r.outcome.name());
    let f9 = number_field("reason"@, r.reason as nat);
    let f10 = number_field("config_version"@, r.config_version as nat);
    let all = record_fields(r);
    lemma_told(all, Seq::<char>::empty(), f0, f1 + f2 + f3 + f4 + f5 + f6 + f7 + f8 + f9 + f10);
    lemma_told(all, f0, f1, f2 + f3 + f4 + f5 + f6 + f7 + f8 + f9 + f10);
    lemma_told(all, f0 + f1, f2, f3 + f4 + f5 + f6 + f7 + f8 + f9 + f10);
    lemma_told(all, f0 + f1 + f2, f3, f4 + f5 + f6 + f7 + f8 + f9 + f10);
    lemma_told(all, f0 + f1 + f2 + f3, f4, f5 + f6 + f7 + f8 + f9 + f10);
    lemma_told(all, f0 + f1 + f2 + f3 + f4, f5, f6 + f7 + f8 + f9 + f10);
    lemma_told(all, f0 + f1 + f2 + f3 + f4 + f5, f6, f7 + f8 + f9 + f10);
    lemma_told(all, f0 + f1 + f2 + f3 + f4 + f5 + f6, f7, f8 + f9 + f10);
    lemma_told(all, f0 + f1 + f2 + f3 + f4 + f5 + f6 + f7, f8, f9 + f10);
    lemma_told(all, f0 + f1 + f2 + f3 + f4 + f5 + f6 + f7 + f8, f9, f10);
    lemma_told(all, f0 + f1 + f2 + f3 + f4 + f5 + f6 + f7 + f8 + f9, f10, Seq::<char>::empty());
    let head = "{\"ts_ns\":"@;
    let t = text::digits(r.ts_ns as nat);
    let mid = ",\"event\":\""@ + log::escaped("admin_op"@) + seq!['"'];
    lemma_told(audit_text(r), head + t + mid, all, seq!['}']);
    lemma_told(audit_text(r), head, t, mid + all + seq!['}']);
}

/// A field names its key and then gives its value: a number in digits, a text
/// in quotes, and null for an address that the operation does not carry.
pub proof fn law_fields_name_their_key(key: Seq<char>, n: nat, value: Seq<char>, ip: u32, port: u16)
    ensures
        number_field(key, n) == ",\""@ + key + "\":"@ + text::digits(n),
        text_field(key, value) == ",\""@ + key + "\":\""@ + log::escaped(value) + "\""@,
        addr_field(Some((ip, port))) == text_field("addr"@, text::addr_text(ip, port)),
        addr_field(None) == ",\"addr\":null"@,
{
    reveal_strlit(",\"");
    reveal_strlit("\":");
    reveal_strlit("\":\"");
    reveal_strlit("\"");
    reveal_strlit("addr");
    reveal_strlit("null");
    reveal_strlit(",\"addr\":null");
    assert(number_field(key, n) =~= ",\""@ + key + "\":"@ + text::digits(n));
    assert(text_field(key, value) =~= ",\""@ + key + "\":\""@ + log::escaped(value) + "\""@);
    assert(addr_field(None) =~= ",\"addr\":null"@);
}

/// Every operation, outcome and origin has a name of its own.
pub proof fn law_names_are_told_apart(op: u32, other: u32, reason: u32)
    ensures
        1 <= op <= 5 && op != other ==> name_of_op(op) != name_of_op(other),
        op == 0 || op > 5 ==> name_of_op(op) == "unknown"@,
        name_of_op(1) == "add_learner"@,
        name_of_op(2) == "promote"@,
        name_of_op(3) == "demote"@,
        name_of_op(4) == "remove_learner"@,
        name_of_op(5) == "remove_voter"@,
        AuditOutcome::Accepted.name() == "accepted"@,
        AuditOutcome::Refused(reason).name() == "refused"@,
        AuditOutcome::Retry.name() == "retry"@,
        AuditOrigin::Local.name() == "local"@,
        AuditOrigin::Forwarded.name() == "forwarded"@,
{
    reveal_strlit("add_learner");
    reveal_strlit("promote");
    reveal_strlit("demote");
    reveal_strlit("remove_learner");
    reveal_strlit("remove_voter");
    reveal_strlit("unknown");
    assert("promote"@[0] == 'p');
    assert("unknown"@[0] == 'u');
    assert("add_learner"@.len() == 11);
    assert("promote"@.len() == 7);
    assert("demote"@.len() == 6);
    assert("remove_learner"@.len() == 14);
    assert("remove_voter"@.len() == 12);
    assert("unknown"@.len() == 7);
}

} // verus!
