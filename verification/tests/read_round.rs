use uc2_node::read_round::{ProbeRound, PROBE_RETRANSMIT_NS};

fn round() -> ProbeRound {
    // seq 5, nonce 42, quorum 3 (needs self + two distinct voters),
    // self id 1, term 7, commit-at-issue 6048, issued at t=1000.
    ProbeRound::new(5, 42, 3, 1, 7, 6048, 1000)
}

#[test]
fn self_seeds_one_ack_and_distinct_acks_reach_quorum() {
    let mut r = round();
    assert_eq!(r.acks(), 1);
    assert!(!r.record_ack(0), "second ack of three is not quorum");
    assert!(r.record_ack(2), "third distinct ack reaches quorum 3");
    assert_eq!(r.acks(), 3);
}

#[test]
fn duplicate_and_self_acks_do_not_advance_the_count() {
    let mut r = round();
    assert!(!r.record_ack(0));
    assert!(!r.record_ack(0), "duplicate voter must not advance");
    assert!(!r.record_ack(1), "self is pre-seeded; a self ack must not advance");
    assert_eq!(r.acks(), 2);
}

#[test]
fn ack_after_quorum_still_reports_quorum() {
    let mut r = round();
    r.record_ack(0);
    assert!(r.record_ack(2));
    assert!(r.record_ack(3), "a late extra voter still reports quorum reached");
}

#[test]
fn certifies_exactly_the_reads_waiting_at_issue() {
    let r = round(); // seq 5
    assert!(r.certifies(4), "admitted before an earlier round: released");
    assert!(r.certifies(5), "admitted before THIS round was issued: released");
}

#[test]
fn does_not_certify_a_mid_round_admission() {
    let r = round();
    assert!(!r.certifies(6));
}

#[test]
fn retransmit_fires_at_the_interval_and_resets_on_send() {
    let mut r = round(); // last_send_ns = 1000
    assert!(!r.should_retransmit(1000 + PROBE_RETRANSMIT_NS - 1));
    assert!(r.should_retransmit(1000 + PROBE_RETRANSMIT_NS));
    r.mark_sent(1000 + PROBE_RETRANSMIT_NS);
    assert!(!r.should_retransmit(1000 + PROBE_RETRANSMIT_NS + 1));
    assert!(r.should_retransmit(1000 + 2 * PROBE_RETRANSMIT_NS));
}
