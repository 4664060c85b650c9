//! Admin requests: authentication, answers, forwards; and the crypto plane's
//! decisions.

use uc2_node::audit::AuditOrigin;
use uc2_node::config_file::CryptoConfig;
use uc2_node::node::admin::{
    AdminAuth, AdminContext, AdminDesk, AdminKey, AdminPolicy, AdminReq, ConfigProposal,
    ConfigReply, REASON_AUDIT_FAILED, REASON_AUTH_BAD_TAG, REASON_AUTH_EXPIRED,
    REASON_AUTH_MISSING, REASON_AUTH_UNKNOWN_KEY, REASON_MALFORMED_OP, answer_after_audit,
    peer_actor, propose_and_append, reply_after_audit, signed_message, signing_key, verify_admin,
};
use uc2_node::node::boot::boot_consensus;
use uc2_node::node::cluster::{Addr, ClusterConfig, ConfigRecord, Member, cluster_to_stored};
use uc2_node::node::consensus::SmView;
use uc2_node::node::crypto::{
    CRYPTO_HS_KEY_REDELIVER_NS, CryptoState, HANDSHAKE_BUDGET, HandshakeAction, HandshakeQueue,
    HandshakeRoute, HandshakeStep, SendPlan, crypto_epoch,
};
use uc2_node::node::effects::{AdminAnswer, AnswerTo, Body, Effect, Effects, NodeEvent, Plain};

const LOCAL: u32 = 0x7f00_0001;

fn addr(port: u16) -> Addr {
    (LOCAL, port)
}

fn table() -> Vec<Member> {
    vec![(0, addr(9100)), (1, addr(9101)), (2, addr(9102))]
}

fn req(seq: u64, nonce: u64) -> AdminReq {
    AdminReq { seq, nonce, op: 1, id: 9, ip: LOCAL, port: 9109 }
}

fn hmac() -> AdminPolicy {
    AdminPolicy::Hmac {
        keys: vec![
            AdminKey { name: "ops".to_string(), name_hash: 11 },
            AdminKey { name: "ci".to_string(), name_hash: 22 },
        ],
        ttl_ns: 1_000,
    }
}

fn auth(expiry_ns: u64, key_name_hash: u64) -> AdminAuth {
    AdminAuth { zero: false, expiry_ns, key_name_hash }
}

#[test]
fn filesystem_policy_reads_no_signature() {
    let stale = auth(0, 99);
    assert_eq!(verify_admin(&AdminPolicy::Filesystem, &stale, 500, false), Ok(None));
    assert_eq!(signing_key(&AdminPolicy::Filesystem, &stale, 500), None);
}

#[test]
fn a_signed_request_names_its_key_or_says_why_not() {
    let now = 10_000;
    assert_eq!(
        verify_admin(&hmac(), &AdminAuth { zero: true, expiry_ns: 0, key_name_hash: 0 }, now, true),
        Err(REASON_AUTH_MISSING)
    );
    assert_eq!(verify_admin(&hmac(), &auth(now, 11), now, true), Err(REASON_AUTH_EXPIRED));
    assert_eq!(verify_admin(&hmac(), &auth(now + 2_001, 11), now, true), Err(REASON_AUTH_EXPIRED));
    assert_eq!(verify_admin(&hmac(), &auth(now + 1, 33), now, true), Err(REASON_AUTH_UNKNOWN_KEY));
    assert_eq!(verify_admin(&hmac(), &auth(now + 1, 22), now, false), Err(REASON_AUTH_BAD_TAG));
    assert_eq!(
        verify_admin(&hmac(), &auth(now + 2_000, 22), now, true),
        Ok(Some("ci".to_string()))
    );
    assert_eq!(signing_key(&hmac(), &auth(now + 2_000, 22), now), Some(1));
    assert_eq!(signing_key(&hmac(), &auth(now, 22), now), None);
    // An absurd time to live saturates instead of wrapping.
    let forever = AdminPolicy::Hmac {
        keys: vec![AdminKey { name: "ops".to_string(), name_hash: 11 }],
        ttl_ns: u128::MAX,
    };
    assert_eq!(verify_admin(&forever, &auth(u64::MAX, 11), now, true), Ok(Some("ops".to_string())));
    assert_eq!(
        [REASON_AUTH_MISSING, REASON_AUTH_BAD_TAG, REASON_AUTH_EXPIRED, REASON_AUTH_UNKNOWN_KEY],
        [20, 21, 22, 23]
    );
}

#[test]
fn a_signature_covers_the_whole_request() {
    let m = signed_message(&"app".to_string(), 7, &req(3, 4), 55);
    assert_eq!(m.app_id, "app");
    assert_eq!((m.instance_id, m.seq, m.nonce, m.op), (7, 3, 4, 1));
    assert_eq!((m.id, m.ip, m.port, m.expiry_ns), (9, LOCAL, 9109, 55));
}

fn answer(e: &Effects, i: usize) -> &AdminAnswer {
    let Effect::Answer(a) = &e.list[i] else { panic!("an answer at {i}: {:?}", e.list) };
    a
}

fn ctx(is_leader: bool, leader_addr: Option<Addr>) -> AdminContext {
    AdminContext { is_leader, leader_addr, term: 3, version: 5 }
}

#[test]
fn an_unauthenticated_request_goes_nowhere() {
    let mut d = AdminDesk::new();
    let step = d.handle_admin(req(1, 2), Err(REASON_AUTH_BAD_TAG), ctx(true, None));
    assert!(step.propose.is_none());
    let a = answer(&step.effects, 0);
    assert_eq!(a.actor.as_deref(), Some("unverified"));
    assert_eq!((a.status, a.reason, a.version), (1, REASON_AUTH_BAD_TAG, 5));
    assert_eq!(step.effects.list.len(), 1);
    assert!(d.pending.is_none());
}

#[test]
fn a_leader_proposes_and_a_follower_forwards() {
    let mut d = AdminDesk::new();
    let step = d.handle_admin(req(1, 2), Ok(Some("ops".to_string())), ctx(true, None));
    assert_eq!(step.propose, Some(Some("ops".to_string())));
    assert!(step.effects.list.is_empty());
    let e = d.answer_proposed(req(1, 2), Some("ops".to_string()), (0, 0, 6));
    let a = answer(&e, 0);
    assert_eq!(a.to, AnswerTo::ResponseLine { seq: 1 });
    assert_eq!((a.status, a.reason, a.version), (0, 0, 6));
    assert_eq!(a.origin, AuditOrigin::Local);

    let step = d.handle_admin(req(2, 3), Ok(None), ctx(false, None));
    assert_eq!(answer(&step.effects, 0).status, 2, "no leader is known: retry");
    assert!(d.pending.is_none());

    let step = d.handle_admin(req(3, 4), Ok(Some("ops".to_string())), ctx(false, Some(addr(9100))));
    assert!(step.propose.is_none());
    assert!(matches!(
        &step.effects.list[0],
        Effect::Plain(Plain::Send {
            to,
            term: 3,
            body: Body::ConfigProposal { nonce: 4, op: 1, id: 9, port: 9109, .. }
        }) if *to == addr(9100)
    ));
    assert_eq!(d.pending.as_ref().unwrap().seq, 3);

    // A newer request answers the one it takes the place of.
    let step = d.handle_admin(req(4, 5), Ok(None), ctx(false, Some(addr(9100))));
    assert!(matches!(
        &step.effects.list[0],
        Effect::Plain(Plain::Log(NodeEvent::ForwardSuperseded))
    ));
    let a = answer(&step.effects, 1);
    assert_eq!(a.to, AnswerTo::ResponseLine { seq: 3 });
    assert_eq!((a.status, a.reason), (2, 0));
    assert_eq!(a.actor.as_deref(), Some("ops"));

    // Only the reply to the forward in flight counts.
    let stale = ConfigReply { nonce: 4, status: 0, reason: 0, version: 9 };
    assert!(d.on_config_reply(stale).list.is_empty());
    let e = d.on_config_reply(ConfigReply { nonce: 5, status: 1, reason: 7, version: 9 });
    let a = answer(&e, 0);
    assert_eq!(a.to, AnswerTo::ResponseLine { seq: 4 });
    assert_eq!((a.status, a.reason, a.version), (1, 7, 9));
    assert!(d.pending.is_none());
}

#[test]
fn proposals_are_accepted_refused_or_retried_whole() {
    assert_eq!(propose_and_append(1, 9, LOCAL, 1, Ok(6), true, 5), (0, 0, 6));
    assert_eq!(propose_and_append(1, 9, LOCAL, 1, Ok(6), false, 5), (2, 0, 5));
    assert_eq!(propose_and_append(5, 9, 0, 0, Err(4), false, 5), (1, 4, 5));
    assert_eq!(propose_and_append(77, 9, 0, 0, Ok(6), true, 5), (1, REASON_MALFORMED_OP, 5));
}

#[test]
fn an_unrecorded_answer_is_withheld() {
    assert_eq!(answer_after_audit(true, 0, 0), (0, 0));
    assert_eq!(answer_after_audit(false, 0, 0), (1, REASON_AUDIT_FAILED));
    assert_eq!(
        reply_after_audit(7, false, 0, 0, 5),
        ConfigReply { nonce: 7, status: 1, reason: REASON_AUDIT_FAILED, version: 5 }
    );
    assert_eq!(
        reply_after_audit(7, true, 1, 3, 5),
        ConfigReply { nonce: 7, status: 1, reason: 3, version: 5 }
    );
}

#[test]
fn a_forwarded_proposal_is_recorded_under_its_peer() {
    assert_eq!(peer_actor(&table(), addr(9102)), "peer:2");
    assert_eq!(peer_actor(&table(), addr(9999)), "peer:127.0.0.1:9999");
    let mut d = AdminDesk::new();
    let body = ConfigProposal { nonce: 8, op: 5, id: 2, ip: 0, port: 0 };
    let (e, fresh) = d.on_config_proposal(addr(9102), body, false, &table(), 3);
    assert!(e.list.is_empty() && !fresh, "a follower drops it");
    let e = d.answer_forwarded(addr(9102), body, (1, 4, 5), &table(), 3);
    let a = answer(&e, 0);
    assert_eq!(a.actor.as_deref(), Some("peer:2"));
    assert_eq!(a.origin, AuditOrigin::Forwarded);
    assert_eq!(a.to, AnswerTo::Peer { addr: addr(9102), term: 3 });
    assert_eq!(a.req.seq, 0);
    assert_eq!(a.req.nonce, 8);
}

#[test]
fn the_agent_answers_for_its_own_admin_band() {
    let config = ClusterConfig::genesis(table(), Vec::new());
    let rec = ConfigRecord {
        position: 0,
        config: cluster_to_stored(&config),
        prev_position: 0,
        prev: cluster_to_stored(&config),
    };
    let mut c = boot_consensus(1, &config, rec, 2, 0, false, CryptoState::boot(false, 0));
    let view = SmView {
        term: 2,
        is_leader: false,
        can_serve: false,
        config_pending: false,
        truncating: false,
        term_map: Vec::new(),
    };
    let step = c.handle_admin(req(1, 2), Ok(None), &view);
    assert_eq!(answer(&step.effects, 0).status, 2, "nobody is known to lead");
    assert_eq!(c.admin.last_admin_seq, 1);
    c.gate.leader_hint = 2;
    let step = c.handle_admin(req(2, 3), Ok(None), &view);
    assert!(matches!(
        &step.effects.list[0],
        Effect::Plain(Plain::Send { to, term: 2, .. }) if *to == addr(9102)
    ));
    let step = c.handle_admin(req(3, 4), Ok(None), &SmView { is_leader: true, ..view });
    assert_eq!(step.propose, Some(None));
}

#[test]
fn default_config_is_disabled_so_existing_deployments_are_untouched() {
    assert!(matches!(CryptoConfig::default(), CryptoConfig::Disabled));
}

#[test]
fn a_handshake_from_an_unmapped_address_is_dropped_and_counted() {
    let mut c = CryptoState::boot(true, 0);
    let failures = c.handshake_failures;
    assert_eq!(c.route_handshake(&table(), addr(9199), false), HandshakeRoute::Stranger);
    assert_eq!(c.unresolved_peer, 1);
    assert_eq!(c.handshake_failures, failures, "it never reached the handshake state machine");
    assert_eq!(
        c.route_handshake(&table(), addr(9100), false),
        HandshakeRoute::Handshake { peer: 0 }
    );
    assert_eq!(
        c.route_handshake(&table(), addr(9100), true),
        HandshakeRoute::GroupKey { peer: 0 }
    );
}

#[test]
fn every_committed_change_reaches_the_key_schedule_once() {
    let mut c = CryptoState::boot(true, 0);
    assert_eq!(c.observe_committed_config(true, 1, 0), None, "it may still be reverted");
    assert_eq!(c.observe_committed_config(false, 1, 0), Some(0), "a demote counts too");
    assert_eq!(c.observe_committed_config(false, 1, 0), None);
    assert_eq!(c.observe_committed_config(false, 2, 1), Some(1));
}

#[test]
fn a_mint_restarts_the_redelivery_timer() {
    let mut c = CryptoState::boot(true, 20);
    assert_eq!(crypto_epoch(c.epoch), None, "a node that has never led has never minted");
    assert_eq!(c.begin_maintenance(100), Some(true), "links are asked for at first");
    assert!(!c.end_maintenance(true, Some(7), 100));
    assert_eq!(crypto_epoch(c.epoch), Some(7));
    assert_eq!(c.begin_maintenance(119), None, "too soon");
    assert_eq!(c.begin_maintenance(120), Some(false));
    assert!(!c.end_maintenance(true, None, 120), "the mint just delivered");
    let later = 100 + CRYPTO_HS_KEY_REDELIVER_NS;
    assert!(!c.end_maintenance(false, None, later), "only a leader delivers");
    assert!(c.end_maintenance(true, None, later));
    assert!(!c.end_maintenance(true, None, later + 1));
}

#[test]
fn a_peer_that_reestablishes_is_keyed_again_by_a_leader() {
    let mut c = CryptoState::boot(true, 0);
    let up = || HandshakeAction::Established { peer: 0 };
    assert!(matches!(
        c.handshake_step(up(), true, &table(), 1),
        HandshakeStep::Redeliver { peer: 0 }
    ));
    assert!(matches!(c.handshake_step(up(), false, &table(), 1), HandshakeStep::Nothing));
}

#[test]
fn a_refused_handshake_is_counted_and_logged_at_its_own_pace() {
    let mut c = CryptoState::boot(true, 0);
    let refused = || HandshakeAction::Failed { peer: 0 };
    let t = 5_000_000_000;
    assert!(matches!(
        c.handshake_step(refused(), false, &table(), t),
        HandshakeStep::Refused { peer: 0, log: true }
    ));
    assert!(matches!(
        c.handshake_step(refused(), false, &table(), t + 999_999_999),
        HandshakeStep::Refused { peer: 0, log: false }
    ));
    assert!(matches!(
        c.handshake_step(refused(), false, &table(), t + 1_000_000_000),
        HandshakeStep::Refused { peer: 0, log: true }
    ));
    assert_eq!(c.handshake_failures, 3);
    let lost = HandshakeAction::Send { to: 77, kind: 20, body: vec![1] };
    assert!(matches!(c.handshake_step(lost, false, &table(), t), HandshakeStep::Nothing));
    assert_eq!(c.unresolved_peer, 1);
    let sent = HandshakeAction::Send { to: 2, kind: 20, body: vec![1] };
    let HandshakeStep::Send { addr: a, to: 2, kind: 20, body } =
        c.handshake_step(sent, false, &table(), t)
    else {
        panic!("it has a route")
    };
    assert_eq!((a, body), (addr(9102), vec![1]));
}

#[test]
fn a_mint_hands_every_peer_an_hs_key_delivery_this_layer_must_seal() {
    let mut c = CryptoState::boot(true, 0);
    assert_eq!(c.hs_key_seal_failures, 0);
    for _peer in [0, 2] {
        assert!(!c.handshake_datagram(false, false, 1).0, "no session, nothing leaves");
    }
    assert_eq!(
        c.hs_key_seal_failures, 2,
        "one HS_KEY per peer (nodes 0 and 2), neither sealable without a session"
    );
    assert_eq!(c.handshake_datagram(false, true, 1), (true, false));
    assert_eq!(c.handshake_datagram(true, false, 1), (true, false));
    assert_eq!(c.hs_key_seal_failures, 2);
}

#[test]
fn a_fan_out_target_with_no_address_is_counted_not_silently_skipped() {
    let mut c = CryptoState::boot(false, 0);
    assert_eq!(c.unresolved_peer, 0);
    let to = c.fan_out_addrs(&table(), &vec![0, 99]);
    assert_eq!(
        c.unresolved_peer, 1,
        "the unaddressable target must be counted, not dropped in silence"
    );
    assert_eq!(to, vec![addr(9100)], "the RESOLVABLE target still gets its datagram");
}

#[test]
fn a_consensus_send_that_cannot_be_sealed_is_dropped_and_counted() {
    let mut c = CryptoState::boot(true, 0);
    assert_eq!(c.seal_failures, 0);
    assert_eq!(c.plan_send(&table(), addr(9100)), SendPlan::Sealed { peer: 0 });
    // No session: the pairwise vote and the group gossip both fail to seal.
    c.seal_failed(1);
    c.seal_failed(1);
    assert!(
        c.seal_failures >= 2,
        "both the pairwise VOTE and the group gossip must be counted as dropped"
    );
    assert_eq!(c.plan_send(&table(), addr(9999)), SendPlan::Dropped);
    assert_eq!((c.seal_failures, c.unresolved_peer), (3, 1));
    let mut off = CryptoState::boot(false, 0);
    assert_eq!(off.plan_send(&table(), addr(9999)), SendPlan::Clear);
}

#[test]
fn handshake_actions_run_in_order_within_a_budget() {
    let mut q = HandshakeQueue::new(vec![HandshakeAction::Established { peer: 1 }]);
    q.extend(vec![HandshakeAction::Failed { peer: 2 }]);
    assert!(matches!(q.next(), Some(HandshakeAction::Established { peer: 1 })));
    assert!(matches!(q.next(), Some(HandshakeAction::Failed { peer: 2 })));
    assert!(q.next().is_none());
    assert_eq!(HANDSHAKE_BUDGET, 320);
    let mut spent = HandshakeQueue::new(vec![HandshakeAction::Failed { peer: 2 }]);
    spent.budget = 0;
    assert!(spent.next().is_none(), "what the budget does not cover stays");
    assert_eq!(spent.queue.len(), 1);
}
