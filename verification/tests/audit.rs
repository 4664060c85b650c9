use uc2_node::audit::{
    audit_line, audited, mirror, op_name, AuditOrigin, AuditOutcome, AuditRecord, AUDIT_FILE,
};
use uc2_node::node::effects::AuditedReq;
use uc2_node::obs::log::{set_level, EventLog, LogLevel};

fn rec(seq: u64) -> AuditRecord<'static> {
    AuditRecord {
        ts_ns: 1_755_600_000_000_000_000,
        actor: "ops-alice",
        origin: AuditOrigin::Local,
        op: 1,
        op_name: op_name(1),
        id: 4,
        addr: Some((u32::from_be_bytes([10, 0, 0, 4]), 9100)),
        seq,
        nonce: 880,
        outcome: AuditOutcome::Accepted,
        reason: 0,
        config_version: 7,
    }
}

#[test]
fn the_line_is_byte_exact_for_a_known_record() {
    let r = rec(12);
    let text = audit_line(&r);
    assert_eq!(
        text,
        "{\"ts_ns\":1755600000000000000,\"event\":\"admin_op\",\"actor\":\"ops-alice\",\
         \"origin\":\"local\",\"op\":1,\"op_name\":\"add_learner\",\"id\":4,\
         \"addr\":\"10.0.0.4:9100\",\"seq\":12,\"nonce\":880,\"outcome\":\"accepted\",\
         \"reason\":0,\"config_version\":7}\n"
    );
}

#[test]
fn an_addressless_op_records_a_null_addr_and_its_refusal_reason() {
    let mut r = rec(3);
    r.op = 3;
    r.op_name = op_name(3);
    r.addr = None;
    r.outcome = AuditOutcome::Refused(20);
    r.reason = 20;
    let text = audit_line(&r);
    assert!(text.contains(r#""op":3,"op_name":"demote","id":4,"addr":null"#), "{text}");
    assert!(text.contains(r#""outcome":"refused","reason":20"#), "{text}");
}

#[test]
fn unknown_ops_are_recorded_not_dropped() {
    assert_eq!(op_name(0), "unknown");
    assert_eq!(op_name(6), "unknown");
    assert_eq!(op_name(2), "promote");
    assert_eq!(op_name(4), "remove_learner");
    assert_eq!(op_name(5), "remove_voter");
}

#[test]
fn outcomes_come_from_the_wire_answer() {
    assert_eq!(AuditOutcome::from_wire(0, 0), AuditOutcome::Accepted);
    assert_eq!(AuditOutcome::from_wire(1, 20), AuditOutcome::Refused(20));
    assert_eq!(AuditOutcome::from_wire(2, 0), AuditOutcome::Retry);
    assert_eq!(AuditOutcome::from_wire(1, 20).reason(), 20);
    assert_eq!(AuditOutcome::Retry.reason(), 0);
}

#[test]
fn the_mirror_differs_from_the_file_line_by_its_level_alone() {
    let r = rec(12);
    let mut log = EventLog::new();
    let line = mirror(&mut log, 1_755_600_000_000_000_000, &r).expect("info is on by default");
    assert_eq!(line, audit_line(&r).replace(",\"event\"", ",\"level\":\"info\",\"event\""));
    set_level(&mut log, LogLevel::Warn);
    assert_eq!(mirror(&mut log, 1, &r), None);
    assert_eq!(AUDIT_FILE, "audit.jsonl");
}

#[test]
fn an_unauthenticated_answer_is_recorded_as_filesystem_and_names_its_answer() {
    let req = AuditedReq { op: 9, id: 4, ip: 0, port: 0, seq: 5, nonce: 6 };
    let r = audited(1, None, AuditOrigin::Forwarded, &req, 1, 11, 3);
    assert_eq!(r.actor, "filesystem");
    assert_eq!(r.op_name, "unknown");
    assert_eq!(r.addr, None);
    assert_eq!(r.outcome, AuditOutcome::Refused(11));
    assert_eq!((r.reason, r.config_version, r.seq, r.nonce), (11, 3, 5, 6));
    let req = AuditedReq { op: 1, id: 4, ip: 0, port: 9, seq: 5, nonce: 6 };
    let r = audited(1, Some("ops"), AuditOrigin::Local, &req, 2, 0, 3);
    assert_eq!(r.addr, Some((0, 9)));
    assert_eq!(r.outcome.as_str(), "retry");
    assert_eq!(r.actor, "ops");
}
