use uc2_node::node::archive::{
    plan_command, settle_observations, AckSlot, ArchiveStep, Handover, TruncationSlot,
};
use uc2_node::node::duty::{DutyCycle, Step};
use uc2_node::node::effects::ArchiveCmd;
use uc2_node::node::ingress::{
    admission_open, drain_poll, net_event_drops, submit_admitted, submit_result, svc_query_payload,
    AppendOutcome, DrainAction, DrainOutcome, NotLeader, QueueDrain, QueueOffer, RingDrain,
    RingRecord, SubmitError, INGRESS_PER_CYCLE,
};

#[test]
fn admission_guard_math() {
    // No backlog: wide open.
    assert!(admission_open(100, 100, 4096));
    // Exactly at budget: still open (the check is `<=`).
    assert!(admission_open(4096, 0, 4096));
    // One byte over budget: closed.
    assert!(!admission_open(4097, 0, 4096));
    // A much larger backlog: closed.
    assert!(!admission_open(1 << 20, 0, 4096));
    // Commit observed (transiently) ahead of append: `saturating_sub`
    // must not underflow/panic, and the door stays open.
    assert!(admission_open(0, 100, 4096));
    // Zero budget: only a perfectly caught-up door is open.
    assert!(admission_open(50, 50, 0));
    assert!(!admission_open(51, 50, 0));
}

#[test]
fn a_submission_needs_a_serving_leader_an_open_door_and_room() {
    assert_eq!(submit_admitted(false, 0, 0, 10), Err(SubmitError::NotServing));
    assert_eq!(submit_admitted(true, 11, 0, 10), Err(SubmitError::Full));
    assert_eq!(submit_admitted(true, 10, 0, 10), Ok(()));
    assert_eq!(submit_result(QueueOffer::Accepted), Ok(()));
    assert_eq!(submit_result(QueueOffer::Full), Err(SubmitError::Full));
    assert_eq!(submit_result(QueueOffer::Disconnected), Err(SubmitError::NotServing));
    assert_eq!(SubmitError::NotServing.message(), "node is not a serving leader");
    assert_eq!(SubmitError::Full.message(), "ingress queue is full");
}

#[test]
fn a_held_payload_is_offered_again_before_a_new_one() {
    let mut d = QueueDrain::boot();
    d.begin();
    assert_eq!(d.next(), DrainAction::Take);
    d.took(Some(vec![1]));
    assert_eq!(d.next(), DrainAction::Append);
    d.appended(AppendOutcome::WouldOverrun);
    assert_eq!(d.next(), DrainAction::Done);
    assert!(!d.did);
    d.begin();
    assert_eq!(d.next(), DrainAction::Append);
    assert_eq!(d.held, Some(vec![1]));
    d.appended(AppendOutcome::Appended);
    assert_eq!((d.next_corr, d.did), (1, true));
    assert_eq!(d.next(), DrainAction::Take);
    d.took(Some(vec![2]));
    d.appended(AppendOutcome::PayloadTooLarge);
    assert_eq!(d.next_corr, 2);
    d.took(None);
    assert_eq!(d.next(), DrainAction::Done);
}

#[test]
fn a_cycle_takes_no_more_than_its_bound() {
    let mut d = QueueDrain::boot();
    d.begin();
    for _ in 0..INGRESS_PER_CYCLE {
        assert_eq!(d.next(), DrainAction::Take);
        d.took(Some(vec![0]));
        d.appended(AppendOutcome::Appended);
    }
    assert_eq!(d.next(), DrainAction::Done);
}

fn record(n: u32) -> RingRecord {
    RingRecord { client_id: n, local_seq: n + 1, payload: vec![0] }
}

#[test]
fn the_ring_waits_at_a_closed_door_and_redirects_while_not_serving() {
    let mut d = RingDrain::boot();
    d.begin(true);
    assert_eq!(d.next(11, 0, 10), DrainAction::Done);
    assert_eq!(d.next(10, 0, 10), DrainAction::Take);
    assert_eq!(d.took(Some(record(4))), None);
    assert_eq!(d.next(11, 0, 10), DrainAction::Append);
    d.appended(AppendOutcome::NoAppender);
    assert_eq!(d.next(10, 0, 10), DrainAction::Done);
    // No longer serving: what is held stays, what comes is redirected.
    d.begin(false);
    assert_eq!(d.next(11, 0, 10), DrainAction::Take);
    assert_eq!(d.took(Some(record(7))), Some(NotLeader { client_id: 7, local_seq: 8 }));
    assert!(d.did);
    assert_eq!(d.took(None), None);
    assert_eq!(d.next(0, 0, 10), DrainAction::Done);
    assert_eq!(d.held.as_ref().unwrap().client_id, 4);
    // Serving again: the held record goes first.
    d.begin(true);
    assert_eq!(d.next(11, 0, 10), DrainAction::Append);
    d.appended(AppendOutcome::Appended);
    assert!(d.held.is_none());
}

#[test]
fn a_forwarded_query_carries_its_epoch_first() {
    assert_eq!(
        svc_query_payload(0x0102, &vec![9, 8]),
        vec![2, 1, 0, 0, 0, 0, 0, 0, 9, 8]
    );
}

#[test]
fn a_drain_ends_when_everything_is_recorded_or_the_deadline_expires() {
    assert_eq!(drain_poll(10, 10, false), Some(DrainOutcome::Drained));
    assert_eq!(drain_poll(10, 11, true), Some(DrainOutcome::Drained));
    assert_eq!(drain_poll(10, 9, false), None);
    assert_eq!(
        drain_poll(10, 9, true),
        Some(DrainOutcome::DeadlineExpired { append: 10, durable: 9 })
    );
}

#[test]
fn drops_are_summed_over_kinds() {
    assert_eq!(net_event_drops(&vec![1, 2, 0, 39]), 42);
    assert_eq!(net_event_drops(&Vec::new()), 0);
}

#[test]
fn a_slot_hands_out_its_acknowledgement_once() {
    let mut s = TruncationSlot::new();
    assert_eq!(s, TruncationSlot::default());
    assert_eq!(s.take(), None);
    s.post(3, 100);
    s.post(4, 50);
    assert_eq!(s.take(), Some((4, 50)));
    assert_eq!(s.take(), None);
}

#[test]
fn a_collapse_is_clamped_to_what_the_archive_holds() {
    assert_eq!(
        plan_command(ArchiveCmd::Collapse { epoch: 1, to: 500 }, 300),
        ArchiveStep::Cut { to: 300, epoch: 1, slot: AckSlot::Collapse }
    );
    assert_eq!(
        plan_command(ArchiveCmd::Collapse { epoch: 1, to: 200 }, 300),
        ArchiveStep::Cut { to: 200, epoch: 1, slot: AckSlot::Collapse }
    );
    assert_eq!(
        plan_command(ArchiveCmd::Truncate { epoch: 1, to: 500 }, 300),
        ArchiveStep::Cut { to: 500, epoch: 1, slot: AckSlot::Truncation }
    );
    assert_eq!(
        plan_command(ArchiveCmd::Purge { below: 5 }, 300),
        ArchiveStep::Purge { below: 5 }
    );
    assert_eq!(
        plan_command(ArchiveCmd::AdoptFloor { pos: 5 }, 300),
        ArchiveStep::AdoptFloor { pos: 5 }
    );
}

#[test]
fn a_full_channel_keeps_the_rest_in_order() {
    let obs = vec![(1, 10), (2, 20), (3, 30)];
    assert_eq!(settle_observations(&obs, Handover::All), (vec![], true));
    assert_eq!(
        settle_observations(&obs, Handover::FullAt(1)),
        (vec![(2, 20), (3, 30)], false)
    );
    assert_eq!(settle_observations(&obs, Handover::Disconnected), (vec![], true));
}

fn walk(serving: bool, crypto: bool) -> (Vec<Step>, bool) {
    let mut c = DutyCycle::begin(false);
    let mut seen = Vec::new();
    while let Some(s) = c.next(serving, crypto) {
        seen.push(s);
        c.report(s == Step::Tick || s == Step::PublishStatus);
    }
    (seen, c.did)
}

#[test]
fn a_cycle_runs_its_steps_in_order() {
    let (full, did) = walk(true, true);
    assert_eq!(full.len(), 24);
    assert!(!did, "steps that only publish are no work");
    assert_eq!(full[0], Step::RefreshDurable);
    assert_eq!(full[23], Step::CryptoMaintenance);
    let (lean, _) = walk(false, false);
    assert_eq!(lean.len(), 20);
    assert!(!lean.contains(&Step::DrainIngress));
    assert!(!lean.contains(&Step::RouteHandshakes));
    let mut halted = DutyCycle::begin(true);
    assert_eq!(halted.next(true, true), None);
    assert!(!halted.did);
}
