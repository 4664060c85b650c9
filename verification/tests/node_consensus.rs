//! The consensus agent: intake, truncation, leader open, reports,
//! configurations, and the read barrier behind it. The election state machine
//! is not linked here; each test hands the agent the actions it gives.

use uc2_node::audit::AuditOrigin;
use uc2_node::node::admin::{ConfigProposal, ConfigReply, PendingAdminFwd};
use uc2_node::node::boot::boot_consensus;
use uc2_node::node::cluster::{
    Addr, ClusterConfig, ConfigRecord, Member, PeerRole, cluster_to_stored, config_content_diverges,
    stored_to_cluster,
};
use uc2_node::node::consensus::{
    Action, ConfigObservation, Consensus, Incoming, NetEvent, SmEvent, SmView, observe_config,
    publish_validated,
};
use uc2_node::node::crypto::CryptoState;
use uc2_node::node::effects::{
    AnswerTo, ArchiveCmd, Body, Effect, Effects, FanOutBody, NodeEvent, Plain,
};
use uc2_node::node::gate::{LEADER_UNKNOWN, PendingLeaderOpen};
use uc2_node::node::reads::{
    PendingRead, QueryRecord, QueryReply, ReadPhase, ServiceSample, SweepStep,
};
use uc2_node::read_round::ProbeRound;

const LOCAL: u32 = 0x7f00_0001;

fn addr(port: u16) -> Addr {
    (LOCAL, port)
}

fn members() -> Vec<Member> {
    vec![(0, addr(9100)), (1, addr(9101)), (2, addr(9102))]
}

fn genesis() -> ClusterConfig {
    ClusterConfig::genesis(members(), Vec::new())
}

/// The genesis configuration with a learner added.
fn v1() -> ClusterConfig {
    let mut c = genesis();
    c.learners.push((9, (9, 1)));
    c.version = 1;
    c
}

fn sm(term: u32) -> SmView {
    SmView {
        term,
        is_leader: false,
        can_serve: false,
        config_pending: false,
        truncating: false,
        term_map: vec![(1, 0), (2, 4096)],
    }
}

fn leading(term: u32) -> SmView {
    SmView { is_leader: true, can_serve: true, term_map: vec![(1, 0), (2, 4096), (3, 6016)], ..sm(term) }
}

/// Node 1 of three, a follower of term 2 with 6016 durable bytes.
fn agent_with(crypto: bool) -> Consensus {
    let record = ConfigRecord {
        position: 0,
        config: cluster_to_stored(&genesis()),
        prev_position: 0,
        prev: cluster_to_stored(&genesis()),
    };
    boot_consensus(1, &genesis(), record, 2, 6016, false, CryptoState::boot(crypto, 0))
}

fn agent() -> Consensus {
    agent_with(false)
}

fn plains(e: &Effects) -> Vec<Plain> {
    let mut out = Vec::new();
    for x in &e.list {
        if let Effect::Plain(p) = x {
            out.push(*p);
        }
    }
    out
}

fn has(e: &Effects, p: Plain) -> bool {
    plains(e).contains(&p)
}

fn adopt(c: &mut Consensus, term: u32) -> Effects {
    let before = c.gate.adopted_term;
    c.feed_actions(None, before, vec![Action::BecomeFollower { term, leader: None }], &sm(term))
}

fn truncate(c: &mut Consensus, term: u32, epoch: u64, to: u64, new_map: Vec<(u32, u64)>) -> Effects {
    let view = SmView { truncating: true, ..sm(term) };
    c.feed_actions(Some(term), term, vec![Action::Truncate { epoch, to, new_map }], &view)
}

/// The archive acknowledged: what the agent does about it.
fn ack_truncation(c: &mut Consensus, epoch: u64, to: u64, term: u32) -> Option<Effects> {
    if c.on_truncated(epoch, to) { Some(c.finish_truncation(&sm(term))) } else { None }
}

fn elect(c: &mut Consensus) -> Effects {
    let view = SmView { can_serve: false, ..leading(3) };
    c.feed_actions(None, 2, vec![Action::BecomeLeader { term: 3, base: 6016 }], &view)
}

fn complete_leader_open(c: &mut Consensus) {
    let open = c.gate.pending_leader_open.expect("a leader open is in flight");
    assert_eq!(c.on_collapsed(open.epoch, open.base), Some(open.term));
    c.finish_leader_open();
}

fn serving_leader() -> Consensus {
    let mut c = agent();
    elect(&mut c);
    assert!(!c.gate.leader_flag, "leading before the collapse landed");
    complete_leader_open(&mut c);
    assert!(c.gate.leader_flag, "election did not complete");
    c
}

fn mk_read(commit_at: u64, round_seq: u64, deadline_ns: u64) -> PendingRead {
    PendingRead {
        client_id: 7,
        local_seq: 1,
        query: Vec::new(),
        round_seq,
        commit_at,
        deadline_ns,
        phase: ReadPhase::AwaitQuorum,
    }
}

const NOW: u64 = 1_000;
const FAR: u64 = NOW + 10_000_000_000;

fn ack(c: &mut Consensus, nonce: u64, from: u32) {
    let step = c.feed_net(NetEvent::ReadProbeAck { nonce, acker: from }, &leading(3), 6048);
    assert!(step.feed.is_none());
    assert!(step.effects.list.is_empty());
}

/// Issue a round if one is due, as the end of a drained query ring does.
fn issue(c: &mut Consensus) -> Effects {
    c.drain_query_ring(Vec::new(), &leading(3), 6048, NOW).1
}

/// One walk over the parked reads; whether it found work.
fn advance(c: &mut Consensus, view: &SmView, epoch: u64, applied: u64) -> bool {
    let Some(mut sweep) = c.begin_reads(view) else { return false };
    let sample = ServiceSample { epoch_before: epoch, applied, epoch_after: epoch };
    let mut did = false;
    loop {
        match c.next_read(&mut sweep, NOW, view, sample) {
            SweepStep::Retry { .. } => did = true,
            SweepStep::Forward { .. } => {
                c.reads.forwarded(&sweep);
                did = true;
            }
            SweepStep::Parked => {}
            SweepStep::Done => break,
        }
    }
    c.end_reads(view, 6048, NOW);
    did
}

#[test]
fn duplicate_term_map_mid_truncation_keeps_gate_closed() {
    let mut c = agent();
    assert!(c.gate.gate_open, "gate starts open");

    adopt(&mut c, 3);
    assert!(!c.gate.gate_open, "adopting a new term closes intake");
    assert!(c.gate.awaiting_reconcile);

    let e = truncate(&mut c, 3, 1, 4096, vec![(1, 0)]);
    assert!(!c.gate.gate_open, "gate stays closed while the truncate is emitted");
    let epoch = c.gate.pending_truncation.expect("a truncation is now in flight");
    assert!(has(&e, Plain::Archive(ArchiveCmd::Truncate { epoch, to: 4096 })));

    // The same map again: the state machine drops it without an action.
    let e = c.feed_actions(Some(3), 3, Vec::new(), &SmView { truncating: true, ..sm(3) });
    assert!(e.list.is_empty());
    assert!(
        !c.gate.gate_open,
        "a duplicate term map mid-truncation must NOT reopen intake"
    );
    assert!(c.gate.pending_truncation.is_some(), "still truncating");

    let e = ack_truncation(&mut c, epoch, 4096, 3).expect("the ack matches");
    assert!(has(&e, Plain::Gate(true)));
    assert!(c.gate.gate_open, "the Truncated ack completes reconciliation and reopens");
    assert!(c.gate.pending_truncation.is_none());
}

#[test]
fn become_follower_invalidates_stale_admin_caches() {
    let mut c = agent();
    c.admin.last_reply = Some(ConfigReply { nonce: 42, status: 0, reason: 0, version: 5 });
    c.admin.pending = Some(PendingAdminFwd {
        seq: 99,
        nonce: 42,
        actor: None,
        op: 1,
        id: 7,
        ip: 0,
        port: 0,
    });

    let e = adopt(&mut c, 3);
    assert!(c.admin.last_reply.is_none(), "nonce-dedup cache must be cleared");
    assert!(c.admin.pending.is_none(), "in-flight forward must be cleared");
    let Effect::Answer(a) = &e.list[0] else { panic!("superseded forward gets an answer") };
    assert_eq!(a.to, AnswerTo::ResponseLine { seq: 99 });
    assert_eq!(a.status, 2, "cleared forward is answered with retry, not silence");
    assert_eq!(a.origin, AuditOrigin::Local);
}

#[test]
fn no_common_prefix_wipes_the_node_and_rejoins_empty() {
    let mut c = agent();
    assert_eq!(c.gate.wipes, 0);
    adopt(&mut c, 41);
    assert!(!c.gate.gate_open);

    let e = c.feed_actions(
        Some(41),
        41,
        vec![Action::CountWipe, Action::Truncate { epoch: 1, to: 0, new_map: Vec::new() }],
        &SmView { truncating: true, ..sm(41) },
    );
    assert_eq!(c.gate.wipes, 1, "wipe counted");
    let epoch = c.gate.pending_truncation.expect("wipe truncation in flight");
    assert!(
        has(&e, Plain::Archive(ArchiveCmd::Truncate { epoch, to: 0 })),
        "a wipe is a truncate-to-0"
    );
    assert!(!c.gate.gate_open, "gate closed across the wipe");

    ack_truncation(&mut c, epoch, 0, 41).expect("the ack matches");
    assert!(c.gate.gate_open, "the Truncated ack reopens intake after the wipe");
    assert_eq!(c.gate.pending_truncation, None);
    assert_eq!(c.gate.truncations, 1, "a wipe is also a truncate");
}

#[test]
fn stale_ack_after_adoption_does_not_reopen_gate_or_persist_stale_map() {
    let mut c = agent();
    adopt(&mut c, 3);
    truncate(&mut c, 3, 1, 4096, vec![(1, 0)]);
    adopt(&mut c, 4);
    assert!(!c.gate.gate_open);
    let e = ack_truncation(&mut c, 1, 4096, 4).expect("the epoch is the one in flight");
    assert!(e.list.is_empty(), "nothing is persisted and nothing reopens");
    assert!(!c.gate.gate_open, "gate must stay closed: term 4 not yet reconciled");
    c.feed_actions(Some(4), 4, Vec::new(), &sm(4));
    assert!(c.gate.gate_open);
}

#[test]
fn a_stale_epoch_ack_leaves_the_bracket_alone() {
    let mut c = agent();
    adopt(&mut c, 3);
    truncate(&mut c, 3, 7, 4096, vec![(1, 0)]);
    assert!(ack_truncation(&mut c, 6, 4096, 3).is_none());
    assert_eq!(c.gate.pending_truncation, Some(7));
    assert!(!c.gate.gate_open);
    assert_eq!(c.gate.durable_seen, 4096);
}

#[test]
fn implausible_current_term_report_is_dropped_not_ranked() {
    let mut c = serving_leader();
    let addr0 = addr(9100);
    let append = 6048u64;

    let step = c.feed_net(
        NetEvent::Report { from: addr0, term: 3, durable: 1 << 40, durable_term: 3 },
        &leading(3),
        append,
    );
    assert!(step.feed.is_none(), "an implausible report reached the state machine");
    assert_eq!(c.reports_implausible, 1, "drop must be counted");
    assert!(c.reported.is_empty());

    let step = c.feed_net(
        NetEvent::Report { from: addr0, term: 3, durable: append, durable_term: 3 },
        &leading(3),
        append,
    );
    assert!(matches!(
        step.feed,
        Some(SmEvent::Report { from: 0, term: 3, durable: 6048, durable_term: 3 })
    ));
    assert_eq!(c.reports_implausible, 1);
    let e = c.feed_actions(None, 3, vec![Action::AdvanceCommit { commit: append }], &leading(3));
    assert_eq!(plains(&e), vec![Plain::Commit(append)]);

    let step = c.feed_net(
        NetEvent::Report { from: addr0, term: 7, durable: 1 << 40, durable_term: 3 },
        &leading(3),
        append,
    );
    assert!(
        matches!(step.feed, Some(SmEvent::Report { term: 7, .. })),
        "higher-term report must reach the SM and adopt the term"
    );
    assert_eq!(c.reports_implausible, 1, "adoption not counted");
}

#[test]
fn strangers_are_never_fed_on() {
    let mut c = agent();
    let from = addr(9999);
    let view = sm(2);
    assert!(c
        .feed_net(NetEvent::Report { from, term: 9, durable: 1, durable_term: 1 }, &view, 0)
        .feed
        .is_none());
    assert!(c
        .feed_net(
            NetEvent::RequestVote { from, new_term: 9, last_term: 1, last_durable: 1 },
            &view,
            0
        )
        .feed
        .is_none());
    assert!(c.feed_net(NetEvent::Vote { from, term: 9, granted: true }, &view, 0).feed.is_none());
}

#[test]
fn a_vote_request_absorbs_the_durable_counter_first() {
    let mut c = agent();
    let step = c.feed_net(
        NetEvent::RequestVote { from: addr(9100), new_term: 9, last_term: 2, last_durable: 6016 },
        &sm(2),
        6016,
    );
    assert!(step.refresh, "the vote is weighed against a fresh read of our own log");
    assert_eq!(c.gate.refresh_durable(6016 + 4096, u64::MAX), Some(6016 + 4096));
    assert!(matches!(
        step.feed,
        Some(SmEvent::RequestVote { from: 0, new_term: 9, last_term: 2, last_durable: 6016 })
    ));
}

#[test]
fn leader_traffic_of_the_adopted_term_names_the_leader() {
    let mut c = agent();
    assert_eq!(c.gate.leader_hint, LEADER_UNKNOWN);
    let step =
        c.feed_net(NetEvent::CommitGossip { from: addr(9102), term: 1, commit: 5 }, &sm(2), 0);
    assert!(step.effects.list.is_empty(), "an old term names nobody");
    let step =
        c.feed_net(NetEvent::CommitGossip { from: addr(9102), term: 2, commit: 5 }, &sm(2), 0);
    assert_eq!(plains(&step.effects), vec![Plain::LeaderHint(2)]);
    assert!(matches!(step.feed, Some(SmEvent::CommitGossip { term: 2, commit: 5 })));
    let entries = vec![(1u32, 0u64), (2, 4096)];
    let step = c.feed_net(
        NetEvent::TermMap { from: addr(9100), term: 2, entries: entries.clone() },
        &sm(2),
        0,
    );
    assert_eq!(c.gate.leader_hint, 0);
    assert_eq!(c.leader_map, entries);
    assert!(matches!(step.feed, Some(SmEvent::TermMapReceived { term: 2, .. })));
    let step = c.feed_net(NetEvent::LeaderActivity { term: 2 }, &sm(2), 0);
    assert!(matches!(step.feed, Some(SmEvent::LeaderSeen { term: 2 })));
}

#[test]
fn leader_open_routes_the_collapse_through_the_archive() {
    let mut c = agent();
    let e = elect(&mut c);
    assert!(!c.gate.appender, "no appender before the collapse ack");
    assert!(!c.gate.leader_flag);
    assert!(!c.gate.gate_open, "intake stays closed across the collapse");

    let epoch = 0;
    let to = 6016;
    assert!(has(&e, Plain::Archive(ArchiveCmd::Collapse { epoch, to })));
    assert_eq!(c.gate.pending_leader_open, Some(PendingLeaderOpen { epoch, term: 3, base: to }));

    assert_eq!(c.on_collapsed(epoch, to), Some(3));
    assert!(c.gate.appender);
    let e = c.finish_leader_open();
    assert_eq!(
        plains(&e),
        vec![Plain::Gate(true), Plain::LeaderFlag(true), Plain::LeaderHint(1)]
    );
    assert!(c.gate.leader_flag);
    assert!(c.gate.gate_open);
    assert_eq!(c.gate.pending_leader_open, None);
}

#[test]
fn a_collapse_ack_after_stepping_down_does_not_resurrect_leadership() {
    let mut c = agent();
    elect(&mut c);
    let open = c.gate.pending_leader_open.expect("a collapse was commanded");

    adopt(&mut c, 9);
    assert!(c.gate.pending_leader_open.is_none(), "the open was abandoned");

    assert_eq!(c.on_collapsed(open.epoch, open.base), None, "no frame for the abandoned term");
    assert!(!c.gate.appender, "no appender for the abandoned term");
    assert!(!c.gate.leader_flag, "not a leader");
}

#[test]
fn a_pending_leader_open_suppresses_durable_feeds_from_the_stale_frontier() {
    let mut c = agent();
    elect(&mut c);
    let open = c.gate.pending_leader_open.expect("leader open in flight");
    assert_eq!(open.base, c.gate.durable_seen);

    let stale_frontier = open.base + 4096;
    assert_eq!(
        c.gate.refresh_durable(stale_frontier, u64::MAX),
        None,
        "the SM must not latch a frontier that is about to be cut away"
    );
    complete_leader_open(&mut c);
    assert_eq!(
        c.gate.refresh_durable(6048, u64::MAX),
        Some(6048),
        "feeds resume once the open completes"
    );
}

#[test]
fn durable_news_stops_at_what_the_observations_describe() {
    let mut c = agent();
    assert_eq!(c.gate.refresh_durable(9000, 7000), Some(7000));
    assert_eq!(c.gate.refresh_durable(9000, 7000), None);
    assert_eq!(c.gate.refresh_durable(9000, u64::MAX), Some(9000));
}

#[test]
fn votes_are_stored_before_they_are_sent() {
    let mut c = agent();
    let grant = Action::PersistAndSendVote { candidate: 0, term: 3, voted_for: 0 };
    let e = c.feed_actions(None, 2, vec![grant], &sm(3));
    assert_eq!(
        plains(&e),
        vec![
            Plain::StoreVote { term: 3, voted_for: 0 },
            Plain::Send { to: addr(9100), term: 3, body: Body::Vote { term: 3, granted: true } },
        ]
    );
    let own = Action::PersistAndSendVote { candidate: 1, term: 4, voted_for: 1 };
    let e = c.feed_actions(None, 3, vec![own], &sm(4));
    assert_eq!(plains(&e), vec![Plain::StoreVote { term: 4, voted_for: 1 }]);
    let e = c.feed_actions(
        None,
        4,
        vec![Action::SendVoteRejection { candidate: 2, term: 42 }],
        &sm(4),
    );
    assert_eq!(
        plains(&e),
        vec![Plain::Send { to: addr(9102), term: 42, body: Body::Vote { term: 42, granted: false } }]
    );
}

#[test]
fn an_election_asks_every_voter_and_gossip_reaches_learners_too() {
    let mut c = agent();
    let e = c.feed_actions(
        None,
        2,
        vec![Action::StartElection { new_term: 43, last_term: 2, last_durable: 6016 }],
        &sm(43),
    );
    let body = Body::RequestVote { new_term: 43, last_term: 2, last_durable: 6016 };
    assert_eq!(
        plains(&e),
        vec![
            Plain::Send { to: addr(9100), term: 43, body },
            Plain::Send { to: addr(9102), term: 43, body },
        ]
    );
    let mut out = Effects::new();
    c.rebuild_net_for_config(&v1(), 0, &mut out);
    let e = c.feed_actions(
        None,
        43,
        vec![
            Action::GossipCommit { commit: 6016 },
            Action::ShipTermMap { entries: vec![(2, 0), (3, 6016)] },
        ],
        &leading(43),
    );
    let Effect::FanOut { targets, term, body } = &e.list[0] else { panic!("commit gossip") };
    assert_eq!(targets, &vec![0, 2, 9]);
    assert_eq!(*term, 43);
    assert_eq!(*body, FanOutBody::CommitPosition { commit: 6016 });
    let mut to = Vec::new();
    for x in &e.list[1..] {
        let Effect::TermMapTo { to: a, term: 43, entries } = x else { panic!("a term map") };
        assert_eq!(entries, &vec![(2, 0), (3, 6016)]);
        to.push(*a);
    }
    assert_eq!(to, vec![addr(9100), addr(9102), (9, 1)]);
}

#[test]
fn a_fatal_action_stops_the_agent_with_its_reason() {
    let mut c = agent();
    let e =
        c.feed_actions(None, 2, vec![Action::Fatal { reason: "torn map".to_string() }], &sm(2));
    let Effect::FailStop(text) = &e.list[0] else { panic!("a fail-stop") };
    assert_eq!(text, "consensus fatal (fail-stop): torn map");
}

#[test]
fn barrier_counts_distinct_ackers_then_forwards_on_service_catchup() {
    let mut c = serving_leader();
    c.reads.pending.push(mk_read(6048, 1, FAR));
    c.reads.round = Some(ProbeRound::new(1, 42, 3, 1, 3, 6048, NOW));
    c.reads.next_round_seq = 2;

    ack(&mut c, 42, 99);
    assert_eq!(c.reads.round.as_ref().unwrap().acks(), 1);

    ack(&mut c, 42, 0);
    ack(&mut c, 42, 0);
    assert_eq!(c.reads.round.as_ref().unwrap().acks(), 2);
    assert_eq!(c.reads.pending[0].phase, ReadPhase::AwaitQuorum);

    ack(&mut c, 42, 2);
    assert_eq!(c.reads.pending[0].phase, ReadPhase::AwaitApplied);
    assert!(c.reads.round.is_none(), "a completed round is consumed");

    assert!(!advance(&mut c, &leading(3), 0, 0));
    assert_eq!(c.reads.pending.len(), 1);

    assert!(!advance(&mut c, &leading(3), 0, 6048));
    assert_eq!(c.reads.pending.len(), 1, "epoch-0 must not forward");

    assert!(advance(&mut c, &leading(3), 1, 6048));
    assert!(c.reads.pending.is_empty(), "caught-up read must forward and drop");
}

#[test]
fn round_certifies_only_reads_admitted_before_issue() {
    let mut c = serving_leader();
    let seq0 = c.reads.next_round_seq;
    c.reads.pending.push(mk_read(6048, seq0, FAR));
    let e = issue(&mut c);
    let round = c.reads.round.as_ref().expect("round issued");
    let (seq, nonce) = (round.seq, round.nonce);
    let Effect::FanOut { targets, term: 3, body } = &e.list[0] else { panic!("the probe") };
    assert_eq!(targets, &vec![0, 2]);
    assert_eq!(*body, FanOutBody::ReadProbe { nonce, from: 1 });

    let seq1 = c.reads.next_round_seq;
    c.reads.pending.push(mk_read(6048, seq1, FAR));
    assert_eq!(c.reads.pending[1].round_seq, seq + 1);

    ack(&mut c, nonce, 0);
    assert_eq!(c.reads.pending[0].phase, ReadPhase::AwaitApplied, "A certified");
    assert_eq!(
        c.reads.pending[1].phase,
        ReadPhase::AwaitQuorum,
        "B admitted mid-round must NOT be certified by this round"
    );
    assert!(c.reads.round.is_none());

    issue(&mut c);
    let nonce2 = c.reads.round.as_ref().unwrap().nonce;
    assert_ne!(nonce2, nonce, "a new round, not a retransmit");
    ack(&mut c, nonce2, 2);
    assert_eq!(c.reads.pending[1].phase, ReadPhase::AwaitApplied);
}

#[test]
fn voter_set_change_voids_round_but_keeps_reads() {
    let mut c = serving_leader();
    let seq0 = c.reads.next_round_seq;
    c.reads.pending.push(mk_read(6048, seq0, FAR));
    issue(&mut c);
    let old_nonce = c.reads.round.as_ref().unwrap().nonce;

    c.rebuild_net_for_config(&genesis(), 0, &mut Effects::new());
    assert!(c.reads.round.is_none(), "voter-set change voids the round");
    assert_eq!(c.reads.pending.len(), 1, "reads survive the void");
    assert_eq!(c.reads.pending[0].phase, ReadPhase::AwaitQuorum);

    ack(&mut c, old_nonce, 0);
    assert_eq!(c.reads.pending[0].phase, ReadPhase::AwaitQuorum);

    issue(&mut c);
    let round = c.reads.round.as_ref().unwrap();
    assert_ne!(round.nonce, old_nonce);
    let nonce2 = round.nonce;
    ack(&mut c, nonce2, 0);
    assert_eq!(c.reads.pending[0].phase, ReadPhase::AwaitApplied);
}

#[test]
fn stale_term_round_is_abandoned() {
    let mut c = serving_leader();
    c.reads.pending.push(mk_read(6048, 1, FAR));
    c.reads.round = Some(ProbeRound::new(1, 42, 2, 1, 2, 6048, NOW));
    c.reads.next_round_seq = 2;

    advance(&mut c, &leading(3), 0, 0);
    let round = c.reads.round.as_ref().expect("fresh round chained");
    assert_eq!(round.term, 3);
    assert_ne!(round.nonce, 42);
}

#[test]
fn round_with_no_waiting_reads_is_dropped() {
    let mut c = serving_leader();
    c.reads.round = Some(ProbeRound::new(1, 42, 2, 1, 3, 6048, NOW));
    assert!(!advance(&mut c, &leading(3), 0, 0));
    assert!(c.reads.round.is_none());
}

#[test]
fn shrink_to_sole_voter_certifies_stranded_reads() {
    let mut c = serving_leader();
    let seq0 = c.reads.next_round_seq;
    c.reads.pending.push(mk_read(6048, seq0, FAR));
    issue(&mut c);
    assert!(c.reads.round.is_some());

    let sole = ClusterConfig::genesis(vec![(1, addr(9101))], Vec::new());
    c.rebuild_net_for_config(&sole, 0, &mut Effects::new());
    assert!(c.reads.round.is_none());
    assert_eq!(c.reads.pending[0].phase, ReadPhase::AwaitQuorum);

    let e = issue(&mut c);
    assert!(e.list.is_empty(), "nobody to probe");
    assert_eq!(c.reads.pending[0].phase, ReadPhase::AwaitApplied);
    assert!(c.reads.round.is_none(), "sole voter needs no round");
}

#[test]
fn barrier_does_not_forward_on_epoch_zero_sentinel() {
    let mut c = serving_leader();
    let mut read = mk_read(6048, 1, FAR);
    read.phase = ReadPhase::AwaitApplied;
    c.reads.pending.push(read);

    assert!(!advance(&mut c, &leading(3), 0, 6048), "must not forward on the epoch-0 sentinel");
    assert_eq!(c.reads.pending.len(), 1);

    assert!(advance(&mut c, &leading(3), 1, 6048), "must forward once epoch >= 1");
    assert!(c.reads.pending.is_empty());
}

#[test]
fn a_service_restart_between_the_samples_parks_the_read() {
    let mut c = serving_leader();
    let mut read = mk_read(6048, 1, FAR);
    read.phase = ReadPhase::AwaitApplied;
    read.query = vec![1, 2, 3];
    c.reads.pending.push(read);
    let mut sweep = c.begin_reads(&leading(3)).unwrap();
    let moved = ServiceSample { epoch_before: 1, applied: 6048, epoch_after: 2 };
    assert!(matches!(c.next_read(&mut sweep, NOW, &leading(3), moved), SweepStep::Parked));
    assert!(matches!(c.next_read(&mut sweep, NOW, &leading(3), moved), SweepStep::Done));
    c.end_reads(&leading(3), 6048, NOW);

    // A full ring hands the query back.
    let mut sweep = c.begin_reads(&leading(3)).unwrap();
    let still = ServiceSample { epoch_before: 2, applied: 6048, epoch_after: 2 };
    let SweepStep::Forward { client_id: 7, local_seq: 1, epoch: 2, query } =
        c.next_read(&mut sweep, NOW, &leading(3), still)
    else {
        panic!("the read is ready")
    };
    assert_eq!(query, vec![1, 2, 3]);
    c.reads.forward_refused(&mut sweep, query);
    assert_eq!(c.reads.pending[0].query, vec![1, 2, 3]);
    assert!(matches!(c.next_read(&mut sweep, NOW, &leading(3), still), SweepStep::Done));
}

#[test]
fn one_walk_looks_at_every_read_once() {
    let mut c = serving_leader();
    // Taken, given up, waiting for its quorum, handed back, taken.
    for (seq, phase, deadline) in [
        (1, ReadPhase::AwaitApplied, FAR),
        (2, ReadPhase::AwaitQuorum, 0),
        (3, ReadPhase::AwaitQuorum, FAR),
        (4, ReadPhase::AwaitApplied, FAR),
        (5, ReadPhase::AwaitApplied, FAR),
    ] {
        let mut read = mk_read(6048, 1, deadline);
        read.local_seq = seq;
        read.phase = phase;
        read.query = vec![seq as u8];
        c.reads.pending.push(read);
    }
    let view = leading(3);
    let still = ServiceSample { epoch_before: 1, applied: 6048, epoch_after: 1 };
    let mut sweep = c.begin_reads(&view).unwrap();
    let mut left = c.reads.pending.len() - sweep.index;
    let mut seen = Vec::new();
    loop {
        let at = sweep.index;
        let seq = c.reads.pending.get(at).map(|r| r.local_seq);
        match c.next_read(&mut sweep, NOW, &view, still) {
            SweepStep::Forward { local_seq: 4, query, .. } => {
                c.reads.forward_refused(&mut sweep, query)
            }
            SweepStep::Forward { .. } => c.reads.forwarded(&sweep),
            SweepStep::Retry { local_seq, .. } => assert_eq!(local_seq, 2),
            SweepStep::Parked => assert_eq!(seq, Some(3)),
            SweepStep::Done => break,
        }
        seen.push(seq.unwrap());
        left -= 1;
        assert_eq!(c.reads.pending.len() - sweep.index, left);
    }
    assert_eq!(left, 0);
    seen.sort();
    assert_eq!(seen, vec![1, 2, 3, 4, 5]);
    let mut kept: Vec<(u32, Vec<u8>)> =
        c.reads.pending.iter().map(|r| (r.local_seq, r.query.clone())).collect();
    kept.sort();
    assert_eq!(kept, vec![(3, vec![3]), (4, vec![4])]);
}

#[test]
fn barrier_retries_a_read_past_its_deadline() {
    let mut c = serving_leader();
    c.reads.pending.push(mk_read(0, 1, 0));
    assert!(advance(&mut c, &leading(3), 0, 0));
    assert!(c.reads.pending.is_empty(), "past-deadline read must retry + drop");
}

#[test]
fn barrier_retries_all_reads_when_not_serving() {
    let mut c = agent();
    c.reads.pending.push(mk_read(0, 1, FAR));
    assert!(advance(&mut c, &sm(2), 0, 0));
    assert!(c.reads.pending.is_empty(), "a non-serving node retries in-flight reads");
}

#[test]
fn halt_retries_parked_reads_and_voids_the_round() {
    let mut c = serving_leader();
    let seq0 = c.reads.next_round_seq;
    c.reads.pending.push(mk_read(6048, seq0, FAR));
    issue(&mut c);
    assert!(c.reads.round.is_some());

    let mut out = Effects::new();
    c.halt(&mut out);
    assert_eq!(
        plains(&out),
        vec![
            Plain::LeaderFlag(false),
            Plain::CanServeFlag(false),
            Plain::Retry { client_id: 7, local_seq: 1 },
        ]
    );
    assert!(c.reads.pending.is_empty(), "parked reads must be RETRYed at halt");
    assert!(c.reads.round.is_none(), "nothing can ever complete a halted round");
}

#[test]
fn read_admitted_after_halt_is_still_retried() {
    let mut c = serving_leader();
    c.halt(&mut Effects::new());
    let view = leading(3);
    assert!(view.can_serve, "premise: the SM serving field survives halt");
    let seq0 = c.reads.next_round_seq;
    c.reads.pending.push(mk_read(6048, seq0, FAR));
    assert!(advance(&mut c, &view, 0, 0));
    assert!(c.reads.pending.is_empty(), "halt gate must RETRY same-cycle admissions");
}

fn query(linearizable: bool) -> QueryRecord {
    QueryRecord {
        client_id: 7,
        local_seq: 1,
        linearizable,
        query: vec![5],
        commit_at: 6048,
        now_ns: NOW,
    }
}

#[test]
fn queries_are_parked_redirected_or_forwarded() {
    let mut c = serving_leader();
    let (replies, e) =
        c.drain_query_ring(vec![query(true), query(false)], &leading(3), 6048, NOW);
    assert!(matches!(replies[0], QueryReply::Parked));
    let QueryReply::Snapshot { client_id: 7, local_seq: 1, query: q } = &replies[1] else {
        panic!("a snapshot read is forwarded at once")
    };
    assert_eq!(q, &vec![5]);
    assert_eq!(e.list.len(), 1, "one probe for everything admitted");
    assert_eq!(c.reads.pending[0].deadline_ns, NOW + 1_000_000_000);
    assert_eq!(c.reads.pending[0].commit_at, 6048);

    c.halt(&mut Effects::new());
    let (replies, e) = c.drain_query_ring(vec![query(true)], &leading(3), 6048, NOW);
    assert!(matches!(replies[0], QueryReply::NotLeader { client_id: 7, local_seq: 1 }));
    assert!(e.list.is_empty());
}

#[test]
fn an_overdue_round_is_probed_again_under_its_own_nonce() {
    let mut c = serving_leader();
    let seq0 = c.reads.next_round_seq;
    c.reads.pending.push(mk_read(6048, seq0, FAR));
    issue(&mut c);
    let nonce = c.reads.round.as_ref().unwrap().nonce;
    assert!(c.begin_reads(&leading(3)).is_some());
    assert!(c.end_reads(&leading(3), 6048, NOW + 1_999_999).list.is_empty());
    let e = c.end_reads(&leading(3), 6048, NOW + 2_000_000);
    let Effect::FanOut { body, .. } = &e.list[0] else { panic!("the probe again") };
    assert_eq!(*body, FanOutBody::ReadProbe { nonce, from: 1 });
    assert_eq!(e.list.len(), 1);
}

#[test]
fn a_probe_is_acknowledged_in_its_own_term_only() {
    let mut c = agent();
    let step = c.feed_net(NetEvent::ReadProbe { nonce: 5, prober: 0, term: 1 }, &sm(2), 0);
    assert!(step.effects.list.is_empty());
    let step = c.feed_net(NetEvent::ReadProbe { nonce: 5, prober: 0, term: 2 }, &sm(2), 0);
    assert_eq!(
        plains(&step.effects),
        vec![Plain::Send {
            to: addr(9100),
            term: 2,
            body: Body::ReadProbeAck { nonce: 5, from: 1 }
        }]
    );
    let step = c.feed_net(NetEvent::ReadProbe { nonce: 5, prober: 77, term: 2 }, &sm(2), 0);
    assert!(step.effects.list.is_empty(), "no route, no answer");
}

fn adopt_config(c: &mut Consensus, position: u64, config: ClusterConfig) -> Effects {
    let view = sm(2);
    c.feed_actions(
        None,
        2,
        vec![Action::ConfigAdopted { position, config, prev_position: 0, prev: genesis() }],
        &view,
    )
}

/// Where an effect of a kind stands.
fn at(e: &Effects, f: impl Fn(&Effect) -> bool) -> usize {
    e.list.iter().position(f).expect("the effect is there")
}

#[test]
fn truncate_exec_reverts_config_record_before_truncate() {
    let mut c = agent();
    adopt_config(&mut c, 5000, v1());
    let rec = c.record.as_ref().expect("v1 persisted");
    assert_eq!(rec.position, 5000);
    assert_eq!(rec.config.version, 1);

    adopt(&mut c, 3);
    let e = truncate(&mut c, 3, 1, 4096, vec![(1, 0)]);
    let stored = at(&e, |x| matches!(x, Effect::StoreRecord(_)));
    let map = at(&e, |x| matches!(x, Effect::StoreTermMap(_)));
    let commanded = at(&e, |x| matches!(x, Effect::Plain(Plain::Archive(_))));
    assert!(map < commanded && stored < commanded, "on disk before the archive is told");
    let Effect::StoreRecord(rec) = &e.list[stored] else { panic!("the record") };
    assert_eq!(rec.position, 0, "reverted to prev's position");
    assert_eq!(rec.config.version, 0, "reverted to the genesis config");
    assert_eq!(rec.prev_position, 0);
    assert_eq!(rec.prev.version, 0, "prev duplicated (history exhausted)");
    assert_eq!(stored_to_cluster(&rec.config), genesis());

    // The state machine's own revert comes with the ack and says the same.
    assert!(c.on_truncated(1, 4096));
    adopt_config(&mut c, 0, genesis());
    c.finish_truncation(&sm(3));
    let rec = c.record.as_ref().expect("record still present");
    assert_eq!(rec.position, 0);
    assert_eq!(rec.config.version, 0);
}

#[test]
fn truncate_exec_wipe_persists_fiat_record_before_truncate() {
    let mut c = agent();
    adopt_config(&mut c, 3000, v1());
    assert_eq!(c.record.as_ref().unwrap().position, 3000);

    adopt(&mut c, 41);
    let e = truncate(&mut c, 41, 1, 0, Vec::new());
    let stored = at(&e, |x| matches!(x, Effect::StoreRecord(_)));
    let commanded = at(&e, |x| matches!(x, Effect::Plain(Plain::Archive(_))));
    assert!(stored < commanded);

    let rec = c.record.as_ref().expect("record still present");
    assert_eq!(rec.position, 0);
    assert_eq!(rec.prev_position, 0);
    assert_eq!(stored_to_cluster(&rec.config), v1(), "fiat keeps the CURRENT config");
    assert_eq!(rec.config, rec.prev, "prev duplicated (fiat, not a genuine predecessor)");

    assert!(c.on_truncated(1, 0));
    c.finish_truncation(&sm(41));
    let rec = c.record.as_ref().unwrap();
    assert_eq!(stored_to_cluster(&rec.config), v1());
}

#[test]
fn truncate_exec_at_config_position_leaves_record_untouched() {
    let mut c = agent();
    adopt_config(&mut c, 4096, v1());
    let before = c.record.as_ref().unwrap().clone();
    adopt(&mut c, 3);
    let e = truncate(&mut c, 3, 1, 4096, vec![(1, 0)]);
    assert!(!e.list.iter().any(|x| matches!(x, Effect::StoreRecord(_))));
    assert_eq!(c.record.as_ref().unwrap(), &before, "to == position: no revert");
}

#[test]
fn implausible_config_observation_is_ignored() {
    let mut c = agent();
    let durable = 6016;
    assert!(matches!(
        observe_config(durable + 1_000_000, durable, &genesis(), &v1()),
        ConfigObservation::Implausible
    ));
    assert_eq!(c.config_version, 0, "implausible obs must not adopt");

    assert!(matches!(
        observe_config(durable, durable, &genesis(), &v1()),
        ConfigObservation::Observed { divergent: false }
    ));
    adopt_config(&mut c, durable, v1());
    assert_eq!(c.config_version, 1, "plausible obs must still adopt");
}

#[test]
fn config_content_divergence_detector() {
    let a = ClusterConfig {
        version: 3,
        voters: vec![(1, (0, 0)), (2, (0, 0)), (3, (0, 0))],
        learners: Vec::new(),
        tombstones: Vec::new(),
    };
    let mut b = a.clone();
    assert!(!config_content_diverges(&a, &b), "identical: benign");
    b.voters.pop();
    assert!(config_content_diverges(&a, &b), "same version, different content");
    let mut c = a.clone();
    c.version += 1;
    assert!(!config_content_diverges(&a, &c), "different version: not this check's job");
}

#[test]
fn equal_version_content_divergence_is_not_adopted() {
    let mut c = agent();
    adopt_config(&mut c, 0, v1());
    assert_eq!(stored_to_cluster(&c.record.as_ref().unwrap().config), v1());

    let mut divergent = v1();
    divergent.learners.clear();
    assert!(matches!(
        observe_config(6016, 6016, &v1(), &divergent),
        ConfigObservation::Observed { divergent: true }
    ));
    // The version gate answers with no action.
    let e = c.feed_actions(None, 2, Vec::new(), &sm(2));
    assert!(e.list.is_empty());
    assert_eq!(
        stored_to_cluster(&c.record.as_ref().unwrap().config),
        v1(),
        "version gate drops the equal-version divergent observation"
    );
}

#[test]
fn leader_adopting_own_demote_from_log_stays_leader_unelectable_no_halt() {
    let mut c = agent();
    elect(&mut c);
    complete_leader_open(&mut c);
    assert!(!c.gate.halt_removed);

    let mut demoted = genesis();
    demoted.voters.retain(|(id, _)| *id != 1);
    demoted.learners.push((1, addr(9101)));
    demoted.version += 1;
    let e = c.feed_actions(
        None,
        3,
        vec![Action::ConfigAdopted {
            position: 40,
            config: demoted.clone(),
            prev_position: 0,
            prev: genesis(),
        }],
        &leading(3),
    );
    assert!(c.gate.leader_flag, "adopting a config from the log does not itself change role");
    assert!(!demoted.is_voter(1), "self was demoted to a learner");
    assert!(demoted.is_learner(1));
    assert!(!demoted.tombstones.contains(&1), "a demote (unlike a remove) never tombstones");
    assert!(!c.gate.halt_removed, "the wedge is silent: no halt/step-down fires");
    assert!(has(&e, Plain::Log(NodeEvent::SelfDemoted)));
}

#[test]
fn on_config_proposal_drops_a_non_member_source_before_auditing() {
    let mut c = agent();
    elect(&mut c);
    let stranger = addr(9999);
    let proposal = ConfigProposal { nonce: 1, op: 1, id: 9, ip: 0, port: 0 };
    let step =
        c.feed_net(NetEvent::ConfigProposal { from: stranger, proposal }, &leading(3), 6016);
    assert_eq!(c.admin.non_member, 1, "the drop must be counted");
    assert!(!step.propose);
    assert!(!step.effects.list.iter().any(|x| matches!(x, Effect::Answer(_))), "no record");
    assert!(
        c.admin.last_reply.is_none(),
        "a dropped datagram must never reach propose_and_append, so no reply is ever recorded"
    );
}

#[test]
fn a_dedup_re_send_is_counted_not_re_audited() {
    let mut c = agent();
    elect(&mut c);
    let member = addr(9100);
    let body = || ConfigProposal { nonce: 77, op: 1, id: 9, ip: 0, port: 0 };

    let step =
        c.feed_net(NetEvent::ConfigProposal { from: member, proposal: body() }, &leading(3), 6016);
    assert!(step.propose, "a fresh nonce is put to the cluster");
    let table = c.maps.table.clone();
    let e = c.admin.answer_forwarded(member, body(), (0, 0, 1), &table, 3);
    assert_eq!(
        e.list.iter().filter(|x| matches!(x, Effect::Answer(_))).count(),
        1,
        "a fresh-nonce proposal is recorded"
    );
    assert_eq!(c.admin.dedup_resend, 0);
    assert!(c.admin.last_reply.is_some(), "the answer was cached for dedup");

    for _ in 0..5 {
        let step = c.feed_net(
            NetEvent::ConfigProposal { from: member, proposal: body() },
            &leading(3),
            6016,
        );
        assert!(!step.propose);
        assert_eq!(
            plains(&step.effects),
            vec![Plain::Send {
                to: member,
                term: 3,
                body: Body::ConfigReply { nonce: 77, status: 0, reason: 0, version: 1 }
            }]
        );
        assert_eq!(step.effects.list.len(), 1, "re-answered, not re-recorded");
    }
    assert_eq!(c.admin.dedup_resend, 5, "every re-send is counted");
}

#[test]
fn fiat_snapshot_install_clears_config_pending_mirror() {
    let mut c = agent();
    let floor = 1u64 << 20;
    c.config_pending = true;
    let (incoming, e) = c.begin_incoming_snapshot(floor, 6016);
    assert!(matches!(incoming, Incoming::Install { lineage: None }));
    assert_eq!(plains(&e), vec![Plain::IncomingSnapshot(floor)]);

    let e = c.install_snapshot(floor, None, Some(v1()));
    assert_eq!(c.config_version, 1, "fiat install adopted the carried config");
    assert!(has(&e, Plain::ConfigPending(false)));
    let stored = at(&e, |x| matches!(x, Effect::StoreRecord(_)));
    let adopted = at(&e, |x| {
        matches!(x, Effect::Plain(Plain::Archive(ArchiveCmd::AdoptFloor { pos })) if *pos == 1 << 20)
    });
    assert!(stored < adopted);
    // The state machine still calls it pending: the periodic clear is blocked.
    let e = c.clear_config_pending(&SmView { config_pending: true, ..sm(2) });
    assert!(e.list.is_empty());
    assert!(!c.config_pending, "the fiat install itself must clear the pending mirror");
}

#[test]
fn a_snapshot_is_taken_up_once_and_carries_the_leaders_lineage() {
    let mut c = agent();
    let entries = vec![(1u32, 0u64), (5, 4096)];
    c.feed_net(NetEvent::TermMap { from: addr(9100), term: 2, entries: entries.clone() }, &sm(2), 0);
    let (incoming, _) = c.begin_incoming_snapshot(9000, 6016);
    let Incoming::Install { lineage } = incoming else { panic!("it is above our frontier") };
    assert_eq!(lineage, Some(entries.clone()));
    let e = c.install_snapshot(9000, Some(entries.clone()), None);
    let Effect::StoreTermMap(m) = &e.list[0] else { panic!("the lineage first") };
    assert_eq!(m, &entries);
    assert_eq!(
        plains(&e),
        vec![
            Plain::Archive(ArchiveCmd::AdoptFloor { pos: 9000 }),
            Plain::Log(NodeEvent::SnapshotInstalled { pos: 9000 })
        ]
    );
    assert!(matches!(c.begin_incoming_snapshot(9000, 6016).0, Incoming::Known));
    assert!(matches!(c.begin_incoming_snapshot(9500, 10_000).0, Incoming::Covered));
    assert_eq!(c.adopted_incoming, 9500);
}

#[test]
fn a_committed_config_change_republishes_the_receivers_peer_id_map() {
    let mut c = agent_with(true);
    let mut config = genesis();
    config.learners.push((9, addr(9109)));
    config.version += 1;
    let e = adopt_config(&mut c, 42, config);
    let i = at(&e, |x| matches!(x, Effect::PeerIds(_)));
    let Effect::PeerIds(table) = &e.list[i] else { panic!("the table") };
    assert!(table.contains(&(9, addr(9109))), "the joiner is resolvable immediately");
    assert!(c.crypto.peers_dirty);
    // Without wire crypto nobody resolves senders by id.
    let e = adopt_config(&mut agent(), 42, v1());
    assert!(!e.list.iter().any(|x| matches!(x, Effect::PeerIds(_))));
}

#[test]
fn adoption_rebuilds_the_band_and_forgets_departed_peers() {
    let mut c = agent();
    for port in [9100, 9102] {
        c.feed_net(
            NetEvent::Report { from: addr(port), term: 2, durable: 100, durable_term: 1 },
            &sm(2),
            6016,
        );
    }
    let mut out = Effects::new();
    c.publish_peer_band(&mut out);
    assert!(has(&out, Plain::PeerDurable { slot: 0, durable: 100 }));
    assert!(has(&out, Plain::PeerCell { slot: 0, occupant: Some((0, PeerRole::Voter)) }));
    assert!(has(&out, Plain::PeerCell { slot: 2, occupant: None }));
    // A second pass writes the positions alone.
    let mut out = Effects::new();
    c.publish_peer_band(&mut out);
    assert_eq!(
        plains(&out),
        vec![
            Plain::PeerDurable { slot: 0, durable: 100 },
            Plain::PeerDurable { slot: 1, durable: 100 },
            Plain::ArchiveFirstBase,
        ]
    );
    let mut config = genesis();
    config.voters.retain(|(id, _)| *id != 0);
    config.learners.push((9, (9, 1)));
    config.tombstones.push(0);
    config.version = 1;
    let e = adopt_config(&mut c, 42, config.clone());
    let Effect::StoreRecord(rec) = &e.list[0] else { panic!("stored first") };
    assert_eq!(stored_to_cluster(&rec.config), config);
    let Effect::SetPeers { followers, learners, cluster_size } = &e.list[1] else {
        panic!("the sender's peers")
    };
    assert_eq!(followers, &vec![addr(9102)]);
    assert_eq!(learners, &vec![(9, 1)]);
    assert_eq!(*cluster_size, 2);
    assert_eq!(c.reported, vec![(2, 100)]);
    assert!(has(&e, Plain::PeerCell { slot: 1, occupant: Some((9, PeerRole::Learner)) }));
    assert!(has(&e, Plain::ConfigPending(true)));
    assert!(c.config_pending);
    let e = c.clear_config_pending(&sm(2));
    assert_eq!(plains(&e), vec![Plain::ConfigPending(false)]);
}

#[test]
fn reports_only_move_forward() {
    let mut c = agent();
    for durable in [100u64, 50, 200] {
        c.feed_net(
            NetEvent::Report { from: addr(9100), term: 1, durable, durable_term: 1 },
            &sm(2),
            6016,
        );
    }
    assert_eq!(c.reported, vec![(0, 200)]);
}

#[test]
fn removal_takes_the_flags_down_for_good() {
    let mut c = serving_leader();
    let e = c.feed_actions(None, 3, vec![Action::StepDownRemoved], &leading(3));
    assert_eq!(
        plains(&e),
        vec![
            Plain::Log(NodeEvent::StepdownRemoved { term: 3 }),
            Plain::LeaderFlag(false),
            Plain::CanServeFlag(false),
        ]
    );
    assert!(!c.serves_reads(&leading(3)));
    assert!(!c.serves_ingress(&leading(3)));
    let e = c.publish_can_serve(&leading(3));
    assert_eq!(plains(&e), vec![Plain::CanServeFlag(false)]);
    let e = c.publish_status(&leading(3));
    assert_eq!(plains(&e), vec![Plain::Status { term: 3, leader: false, can_serve: false }]);

    let mut f = agent();
    let e = f.feed_actions(None, 2, vec![Action::HaltRemoved], &sm(2));
    assert_eq!(plains(&e)[0], Plain::Log(NodeEvent::HaltRemoved { term: 2 }));
    assert!(f.gate.halt_removed);
}

#[test]
fn status_logs_a_change_of_serving_once() {
    let mut c = serving_leader();
    let e = c.publish_status(&leading(3));
    assert_eq!(
        plains(&e),
        vec![
            Plain::Status { term: 3, leader: true, can_serve: true },
            Plain::Log(NodeEvent::ServingChanged { term: 3, can_serve: true }),
        ]
    );
    let e = c.publish_status(&leading(3));
    assert_eq!(plains(&e), vec![Plain::Status { term: 3, leader: true, can_serve: true }]);
}

#[test]
fn term_observations_wait_for_a_truncation() {
    let mut c = agent();
    assert_eq!(c.observe_terms(vec![(3, 10), (4, 20)], true), Vec::new());
    assert_eq!(c.observe_terms(vec![(5, 30)], true), Vec::new());
    assert_eq!(c.observe_terms(vec![(6, 40)], false), vec![(3, 10), (4, 20), (5, 30), (6, 40)]);
    assert_eq!(c.observe_terms(Vec::new(), false), Vec::new());
}

#[test]
fn the_validated_term_is_published_before_its_position() {
    let e = publish_validated(4, 3, 6048);
    assert_eq!(
        plains(&e),
        vec![
            Plain::ReportsUnattested(4),
            Plain::ValidatedTerm(3),
            Plain::ValidatedFrontier(6048)
        ]
    );
}

#[test]
fn a_leader_is_elected_with_its_map_on_disk_first() {
    let mut c = agent_with(true);
    let e = elect(&mut c);
    assert!(matches!(&e.list[0], Effect::StoreTermMap(m) if *m == vec![(1, 0), (2, 4096), (3, 6016)]));
    assert_eq!(
        plains(&e),
        vec![
            Plain::TermHandle(3),
            Plain::Gate(false),
            Plain::Archive(ArchiveCmd::Collapse { epoch: 0, to: 6016 }),
            Plain::CryptoBecameLeader,
            Plain::Log(NodeEvent::BecameLeader { term: 3, base: 6016 }),
        ]
    );
    let e = c.feed_actions(None, 3, vec![Action::PersistTermMap { new_map: vec![(1, 0)] }], &sm(3));
    assert!(matches!(&e.list[0], Effect::StoreTermMap(m) if *m == vec![(1, 0)]));
}
