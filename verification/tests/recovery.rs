use uc2_node::node::cluster::{ConfigRecord, StoredConfig, StoredMember};
use uc2_node::recovery::{force_single_member, recovered_config, refuse_force, ForceRefusal};

fn member(id: u32) -> StoredMember {
    StoredMember { id, ip: u32::from_be_bytes([127, 0, 0, 1]), port: 59921 }
}

fn config(version: u64, voters: &[u32], learners: &[u32], tombstones: Vec<u32>) -> StoredConfig {
    StoredConfig {
        version,
        voters: voters.iter().map(|id| member(*id)).collect(),
        learners: learners.iter().map(|id| member(*id)).collect(),
        tombstones,
    }
}

fn record(version: u64, voters: &[u32], learners: &[u32], tombstones: Vec<u32>) -> ConfigRecord {
    ConfigRecord {
        position: 0,
        config: config(version, voters, learners, tombstones.clone()),
        prev_position: 0,
        prev: config(version, voters, learners, tombstones),
    }
}

#[test]
fn recovered_config_reports_a_pre_seeded_record() {
    let rec = record(3, &[1], &[], vec![9]);
    let rc = recovered_config(&rec, 0);
    assert_eq!(rc.version, 3);
    assert_eq!(rc.voters, vec![(1, (u32::from_be_bytes([127, 0, 0, 1]), 59921))]);
    assert_eq!(rc.tombstones, vec![9]);
    assert_eq!(rc.durable, 0);
}

#[test]
fn a_forced_survivor_is_the_only_voter_and_no_one_is_tombstoned() {
    let rec = record(5, &[1, 2, 3], &[4], vec![9]);
    let (stored, report) = force_single_member(&rec, 777, 2).unwrap();
    assert_eq!(stored.position, 777);
    assert_eq!(stored.prev_position, 777);
    assert_eq!(stored.config, config(6, &[2], &[], vec![9]));
    assert_eq!(stored.prev, stored.config);
    assert_eq!((report.old_version, report.new_version, report.durable), (5, 6, 777));
    assert_eq!(report.dropped_peers, vec![1, 3, 4]);
}

#[test]
fn a_learner_can_be_forced_and_a_stranger_cannot() {
    let rec = record(5, &[1], &[4], vec![9]);
    let (stored, _) = force_single_member(&rec, 1, 4).unwrap();
    assert_eq!(stored.config.voters, vec![member(4)]);
    let e = force_single_member(&rec, 1, 7).unwrap_err();
    assert_eq!(e, ForceRefusal::NotAMember { id: 7, version: 5 });
    assert_eq!(
        e.message(),
        "node 7 is not a member (voter or learner) of the recovered cluster config (v5)"
    );
    let e = force_single_member(&rec, 1, 9).unwrap_err();
    assert_eq!(
        e.message(),
        "node 9 is tombstoned in the recovered cluster config (v5); a tombstoned id can never be \
         forced back into the cluster"
    );
}

#[test]
fn a_refusal_is_given_whatever_the_version() {
    let rec = record(u64::MAX, &[1], &[], vec![9]);
    let stranger = ForceRefusal::NotAMember { id: 7, version: u64::MAX };
    assert_eq!(refuse_force(&rec, 7), Some(stranger));
    assert_eq!(
        force_single_member(&rec, 1, 7).unwrap_err(),
        ForceRefusal::NotAMember { id: 7, version: u64::MAX }
    );
    assert_eq!(
        force_single_member(&rec, 1, 9).unwrap_err(),
        ForceRefusal::Tombstoned { id: 9, version: u64::MAX }
    );
    assert_eq!(refuse_force(&rec, 1), None);
}
