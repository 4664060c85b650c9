//! Starting a node: recovery of the term map and of the configuration record,
//! what is refused, and the durable markers.

use uc2_node::node::boot::{
    BootInputs, DEFAULT_JOURNAL_SEGMENT_BYTES, addrs_routed, audit_refusal, block_cap,
    boot_consensus, cnc_meta, crypto_refusal, fresh_cnc_meta, peer_slots, plan_boot, receiver_seed,
    recover_boot, snapshot_to_offer,
};
use uc2_node::node::cluster::{
    Addr, ClusterConfig, ConfigOp, ConfigRecord, Member, PeerRole, addr_for, cluster_to_stored,
    cluster_to_wire, derive_peer_maps, id_for, sender_cluster_size, stored_to_cluster,
    wire_to_cluster_config, wire_to_config_op,
};
use uc2_node::node::crypto::CryptoState;
use uc2_node::node::effects::{ArchiveCmd, Effect, Effects, Plain};
use uc2_node::node::markers::{Markers, PurgePolicy};
use uc2_node::node::recover::{
    ConfigRecovery, ReplayFrame, boot_awaiting_reconcile, config_scan_start, map_term,
    recover_config_record, rederive_term_map, revert_record, same_map, same_record,
    term_scan_start, trust_record, wire_term_map,
};

const LOCAL: u32 = 0x7f00_0001;

fn addr(port: u16) -> Addr {
    (LOCAL, port)
}

fn seed_members() -> Vec<Member> {
    vec![(0, addr(9200))]
}

fn genesis() -> ClusterConfig {
    ClusterConfig::genesis(seed_members(), Vec::new())
}

fn with_learners(version: u64, ids: &[u32]) -> ClusterConfig {
    let mut c = genesis();
    c.version = version;
    for id in ids {
        c.learners.push((*id, (*id, 1)));
    }
    c
}

fn record(position: u64, config: &ClusterConfig, prev_position: u64, prev: &ClusterConfig) -> ConfigRecord {
    ConfigRecord {
        position,
        config: cluster_to_stored(config),
        prev_position,
        prev: cluster_to_stored(prev),
    }
}

/// A configuration frame that ends at `end`.
fn config_frame(position: u64, end: u64, config: &ClusterConfig) -> ReplayFrame {
    ReplayFrame { term: 1, position, end, config: Some(cluster_to_wire(config, 0)) }
}

fn frame(term: u32, position: u64, end: u64) -> ReplayFrame {
    ReplayFrame { term, position, end, config: None }
}

fn recover(stored: Option<ConfigRecord>, frames: Vec<ReplayFrame>, durable: u64) -> ConfigRecovery {
    recover_config_record(&stored, &frames, durable, &seed_members(), &Vec::new())
}

#[test]
fn boot_rebuilds_config_record_from_archive_scan_after_config_state_loss() {
    let v1 = with_learners(1, &[9]);
    let end = 128;
    let r = recover(None, vec![config_frame(0, end, &v1)], end);
    assert_eq!(r.record.config.version, 1, "rebuilt to the SAME version the lost file held");
    assert_eq!(stored_to_cluster(&r.record.config), v1);
    assert_eq!(r.record.position, end);
    assert_eq!(stored_to_cluster(&r.record.prev), genesis(), "prev recovered as the genesis seed");
    // The rebuilt record is durable: it is the last one stored.
    assert_eq!(r.stores.last().unwrap(), &r.record);
}

#[test]
fn boot_reverts_a_config_record_persisted_ahead_of_durable() {
    let v1 = with_learners(1, &[9]);
    let ahead = record(9000, &v1, 0, &genesis());
    let r = recover(Some(ahead), Vec::new(), 0);
    assert_eq!(r.record.position, 0, "reverted to prev's position");
    assert_eq!(
        stored_to_cluster(&r.record.config),
        genesis(),
        "reverted to the genuine predecessor"
    );
    assert_eq!(r.stores.last().unwrap(), &r.record, "the revert is itself persisted");
}

#[test]
fn boot_falls_back_to_seed_when_both_levels_are_ahead_of_durable() {
    let v1 = with_learners(1, &[9]);
    let v2 = with_learners(2, &[9]);
    let ahead = record(9000, &v2, 5000, &v1);
    let r = recover(Some(ahead), Vec::new(), 0);
    assert_eq!(r.record.position, 0);
    assert_eq!(r.record.config.version, 0, "fresh genesis-by-fiat, not either compromised level");
    assert_eq!(stored_to_cluster(&r.record.config), genesis());
    assert_eq!(r.record.config, r.record.prev, "seed record: prev duplicated");
}

#[test]
fn boot_revert_then_journal_rederive_compose() {
    let v1 = with_learners(1, &[9]);
    let v2 = with_learners(2, &[9, 10]);
    let v3 = with_learners(3, &[9, 10, 11]);
    let (end1, end2) = (128, 288);
    let durable = end2;
    let ahead = record(durable + 9000, &v3, end1, &v1);
    // The trusted record is v1 again; replay starts at its own end.
    let base = trust_record(&Some(ahead.clone()), durable, &seed_members(), &Vec::new());
    assert_eq!(config_scan_start(&base, 0), end1);
    let r = recover(Some(ahead), vec![config_frame(end1, end2, &v2)], durable);
    assert_eq!(
        r.record.config.version, 2,
        "must rederive forward past the revert, landing on v2"
    );
    assert_eq!(
        r.record.position, end2,
        "position must be v2's frame-END, not v1's (the reverted level)"
    );
    assert_eq!(stored_to_cluster(&r.record.config), v2);
    assert_eq!(
        stored_to_cluster(&r.record.prev),
        v1,
        "prev is the level rederivation folded from"
    );
    assert_eq!(r.stores.len(), 2, "the revert, then what the journal moved it to");
    assert_eq!(r.stores.last().unwrap(), &r.record, "the rederived record is itself persisted");
}

#[test]
fn a_second_boot_recovers_the_same_and_stores_nothing() {
    let v1 = with_learners(1, &[9]);
    let frames = || vec![config_frame(0, 128, &v1)];
    let first = recover(None, frames(), 200);
    let again = recover(Some(first.record.clone()), frames(), 200);
    assert!(again.stores.is_empty());
    assert!(same_record(&again.record, &first.record));
    assert!(!same_record(&again.record, &revert_record(&first.record)));
}

#[test]
fn an_older_frame_never_replaces_a_newer_record() {
    let v1 = with_learners(1, &[9]);
    let v2 = with_learners(2, &[9, 10]);
    let stored = record(300, &v2, 128, &v1);
    let r = recover(Some(stored.clone()), vec![config_frame(0, 128, &v1)], 400);
    assert_eq!(r.record, stored);
    assert!(r.stores.is_empty());
}

#[test]
fn the_term_map_is_extended_from_retained_frames() {
    let stored = vec![(1u32, 0u64)];
    let frames = vec![frame(1, 0, 64), frame(2, 64, 96), frame(2, 96, 128), frame(4, 128, 160)];
    let map = rederive_term_map(&stored, &frames);
    assert_eq!(map, vec![(1, 0), (2, 64), (4, 128)]);
    assert!(same_map(&rederive_term_map(&map, &frames), &map), "extending again changes nothing");
    assert_eq!(map_term(&map), 4);
    assert_eq!(map_term(&Vec::new()), 0);
    assert_eq!(term_scan_start(&map, 0), 128);
    assert_eq!(term_scan_start(&map, 4096), 4096);
}

#[test]
fn a_shipped_term_map_keeps_its_oldest_entries() {
    let map = vec![(1u32, 0u64), (2, 64), (4, 128)];
    assert_eq!(wire_term_map(&map, 8), map);
    assert_eq!(wire_term_map(&map, 2), vec![(1, 0), (2, 64)]);
}

fn inputs() -> BootInputs {
    BootInputs {
        members: vec![(0, addr(9100)), (1, addr(9101)), (2, addr(9102))],
        learners: vec![(5, addr(9105))],
        durable: 160,
        term_map: vec![(1, 0)],
        term_frames: vec![frame(2, 64, 160)],
        record: None,
        config_frames: Vec::new(),
    }
}

#[test]
fn a_fresh_voter_starts_from_the_configured_members() {
    let rec = recover_boot(&inputs());
    assert_eq!(rec.term_map, vec![(1, 0), (2, 64)]);
    assert!(rec.store_term_map);
    assert_eq!(rec.recovery.stores.len(), 1);
    assert_eq!(rec.config.version, 0);
    assert_eq!(rec.prev_config, rec.config);

    let Ok(p) = plan_boot(1, Some((2, 0)), &rec) else { panic!("a voter starts") };
    assert!(!p.is_learner);
    assert_eq!(p.maps.peers, vec![0, 2]);
    assert_eq!(p.maps.learner_ids, vec![5]);
    assert_eq!(
        p.maps.band,
        vec![(0, PeerRole::Voter), (2, PeerRole::Voter), (5, PeerRole::Learner)]
    );
    assert_eq!(p.sender_followers, vec![addr(9100), addr(9102), addr(9105)]);
    assert_eq!(p.sender_learners, vec![addr(9105)]);
    assert_eq!(p.sender_cluster, 3);
    assert!(!p.awaiting_reconcile, "the log reaches the vote");
    assert_eq!(wire_to_cluster_config(&p.wire), rec.config);
    assert_eq!(
        peer_slots(&p.maps),
        vec![(addr(9100), 0), (addr(9102), 1), (addr(9105), 2)]
    );
    assert_eq!(addrs_routed(&p.maps.table, &vec![5, 1]), vec![addr(9105), addr(9101)]);
}

#[test]
fn a_learner_streams_to_nobody() {
    let rec = recover_boot(&inputs());
    let Ok(p) = plan_boot(5, None, &rec) else { panic!("a learner starts") };
    assert!(p.is_learner);
    assert!(p.sender_followers.is_empty());
    assert!(p.sender_learners.is_empty());
    assert_eq!(p.sender_cluster, 1);
    assert_eq!(p.maps.peers, vec![0, 1, 2]);
}

#[test]
fn a_vote_ahead_of_the_log_boots_with_intake_closed() {
    let rec = recover_boot(&inputs());
    let Ok(p) = plan_boot(1, Some((9, 0)), &rec) else { panic!("a voter starts") };
    assert!(p.awaiting_reconcile);
    let c = boot_consensus(
        1,
        &rec.config,
        rec.recovery.record.clone(),
        9,
        160,
        p.awaiting_reconcile,
        CryptoState::boot(false, 0),
    );
    assert!(!c.gate.gate_open);
    assert!(boot_awaiting_reconcile(Some((9, 0)), &rec.term_map));
    assert!(!boot_awaiting_reconcile(Some((2, 0)), &rec.term_map));
    assert!(!boot_awaiting_reconcile(None, &rec.term_map));
}

#[test]
fn a_removed_id_is_refused_after_its_recovery() {
    let mut gone = ClusterConfig::genesis(inputs().members, Vec::new());
    gone.voters.retain(|(id, _)| *id != 1);
    gone.tombstones.push(1);
    gone.version = 4;
    let mut i = inputs();
    i.config_frames = vec![config_frame(64, 160, &gone)];
    let rec = recover_boot(&i);
    assert_eq!(rec.recovery.stores.len(), 2, "what was recovered is stored all the same");
    let Err(e) = plan_boot(1, None, &rec) else { panic!("a removed id never starts") };
    assert_eq!(
        e.message(),
        "node id 1 is tombstoned in the recovered cluster config (v4): this id was permanently \
         removed and can never rejoin; decommission this instance dir, or wipe it and rejoin with \
         a fresh id"
    );
    assert!(plan_boot(0, None, &rec).is_ok());
}

#[test]
fn refusals_say_what_is_missing() {
    let s = crypto_refusal(3, "no such file");
    assert!(s.contains("crypto is enabled"));
    assert_eq!(
        s,
        "node 3 refuses to start: crypto is enabled but its key material is unusable (no such \
         file); a node configured to authenticate must never fall back to cleartext"
    );
    assert_eq!(
        audit_refusal(3, "/i/admin_audit.jsonl", "denied"),
        "node 3 refuses to start: cannot open the admin audit log /i/admin_audit.jsonl (denied)"
    );
}

#[test]
fn a_block_fits_half_a_segment() {
    assert_eq!(block_cap(1 << 20, DEFAULT_JOURNAL_SEGMENT_BYTES), 1 << 20);
    assert_eq!(block_cap(1 << 20, 1 << 20), 1 << 19);
    assert_eq!(block_cap(1 << 20, 4096), 4096);
    assert_eq!(block_cap(100, 1 << 20), 4096);
}

#[test]
fn the_receiver_has_a_seed_of_its_own() {
    assert_eq!(receiver_seed(0), 0x5DEE_CE66_1D0C_2A11);
    assert_eq!(receiver_seed(receiver_seed(77)), 77);
}

#[test]
fn the_snapshot_on_offer_is_the_one_at_the_floor() {
    assert_eq!(snapshot_to_offer(0), None);
    assert_eq!(snapshot_to_offer(4096), Some("snap-4096.ultsnap".to_string()));
}

#[test]
fn every_boot_stamps_a_fresh_instance_id() {
    let app = "test".to_string();
    let a = fresh_cnc_meta(1, &app, 1 << 16, 4096);
    let b = fresh_cnc_meta(1, &app, 1 << 16, 4096);
    assert_ne!(a.instance_id, b.instance_id);
    assert_eq!(a.node_id, 1);
    assert_eq!(a.app_id, "test");
    assert_eq!(a.buffer_bytes, 1 << 16);
    assert_eq!(a.max_payload, 4096);
    assert_eq!(cnc_meta(7, 1, &app, 1, 2).instance_id, 7);
}

#[test]
fn routing_finds_members_by_id_and_by_address() {
    let c = with_learners(1, &[9]);
    let m = derive_peer_maps(&c, 0);
    assert_eq!(addr_for(&m.table, 9), Some((9, 1)));
    assert_eq!(addr_for(&m.table, 7), None);
    assert_eq!(id_for(&m.table, addr(9200)), Some(0));
    assert_eq!(id_for(&m.table, (1, 1)), None);
    assert!(m.peers.is_empty());
    assert_eq!(sender_cluster_size(&c, 0), 1);
    assert_eq!(sender_cluster_size(&c, 9), 2, "a leader outside the voters still counts itself");
}

#[test]
fn op_codes_name_changes() {
    assert_eq!(
        wire_to_config_op(1, 9, LOCAL, 9000),
        Some(ConfigOp::AddLearner { id: 9, addr: addr(9000) })
    );
    assert_eq!(wire_to_config_op(2, 9, 0, 0), Some(ConfigOp::PromoteLearner { id: 9 }));
    assert_eq!(wire_to_config_op(3, 9, 0, 0), Some(ConfigOp::DemoteVoter { id: 9 }));
    assert_eq!(wire_to_config_op(4, 9, 0, 0), Some(ConfigOp::RemoveLearner { id: 9 }));
    assert_eq!(wire_to_config_op(5, 9, 0, 0), Some(ConfigOp::RemoveVoter { id: 9 }));
    assert_eq!(wire_to_config_op(0, 9, 0, 0), None);
    assert_eq!(wire_to_config_op(6, 9, 0, 0), None);
}

fn plains(e: &Effects) -> Vec<Plain> {
    let mut out = Vec::new();
    for x in &e.list {
        if let Effect::Plain(p) = x {
            out.push(*p);
        }
    }
    out
}

#[test]
fn the_output_marker_moves_forward_on_its_own_pace() {
    let mut m = Markers::boot(100, 0, PurgePolicy::default());
    assert!(m.maybe_persist_output_progress(0, 1).list.is_empty(), "a fresh page is no news");
    assert!(m.maybe_persist_output_progress(100, 1).list.is_empty());
    let e = m.maybe_persist_output_progress(150, 1);
    assert_eq!(plains(&e), vec![Plain::StoreOutputProgress(150), Plain::OutputProgress(150)]);
    assert!(m.maybe_persist_output_progress(200, 100_000_000).list.is_empty(), "too soon");
    assert_eq!(m.output, 150);
    assert_eq!(m.maybe_persist_output_progress(200, 100_000_001).list.len(), 2);
    assert_eq!(m.output, 200);
}

#[test]
fn the_snapshot_floor_is_durable_before_the_journal_is_purged() {
    let mut m = Markers::boot(0, 0, PurgePolicy::BelowSnapshot { slack_bytes: 1000 });
    assert!(m.maybe_persist_snapshot_floor(5000, 4999, 0, 1).list.is_empty(), "not durable here");
    let e = m.maybe_persist_snapshot_floor(5000, 6000, 0, 1);
    assert_eq!(
        plains(&e),
        vec![
            Plain::StoreSnapshotFloor(5000),
            Plain::SnapshotFloor(5000),
            Plain::Archive(ArchiveCmd::Purge { below: 4000 }),
        ]
    );
    // No new floor, but the archive still holds what may go.
    let e = m.maybe_persist_snapshot_floor(5000, 6000, 3000, 200_000_001);
    assert_eq!(plains(&e), vec![Plain::Archive(ArchiveCmd::Purge { below: 4000 })]);
    assert!(m.maybe_persist_snapshot_floor(5000, 6000, 4000, 400_000_001).list.is_empty());

    let mut off = Markers::boot(0, 0, PurgePolicy::Disabled);
    let e = off.maybe_persist_snapshot_floor(5000, 6000, 0, 1);
    assert_eq!(plains(&e), vec![Plain::StoreSnapshotFloor(5000), Plain::SnapshotFloor(5000)]);
    assert!(off.maybe_persist_snapshot_floor(4000, 6000, 0, 500_000_000).list.is_empty());
    assert_eq!(off.snapshot_floor, 5000);
}
