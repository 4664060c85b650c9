use uc2_node::config_file::{CryptoConfig, NodeConfig};
use uc2_node::node::boot::DEFAULT_JOURNAL_SEGMENT_BYTES;
use uc2_node::node::markers::PurgePolicy;
use uc2_node::preflight::{check_semantics, is_power_of_two, PreflightError};

fn addr(d: u8) -> (u32, u16) {
    (u32::from_be_bytes([10, 0, 0, d]), 9100)
}

fn base() -> NodeConfig {
    NodeConfig {
        id: 1,
        members: vec![(1, addr(1)), (2, addr(2))],
        learners: Vec::new(),
        bind: addr(1),
        instance_dir: "/srv/uc2/n1".to_string(),
        app_id: "myapp".to_string(),
        buffer_bytes: 1 << 26,
        max_payload: 1 << 20,
        admission_bytes: 256 * 1024,
        election_timeout_min_ns: 150_000_000,
        election_timeout_max_ns: 300_000_000,
        seed: 7,
        purge: PurgePolicy::Disabled,
        journal_segment_bytes: DEFAULT_JOURNAL_SEGMENT_BYTES,
        crypto: CryptoConfig::Disabled,
    }
}

#[test]
fn a_valid_config_passes() {
    assert!(check_semantics(&base()).is_ok());
}

#[test]
fn buffer_bytes_must_be_power_of_two() {
    let mut c = base();
    c.buffer_bytes = (1 << 26) + 1;
    let msg = check_semantics(&c).unwrap_err().message();
    assert!(msg.contains("buffer_bytes"), "got: {msg}");
}

#[test]
fn max_payload_must_fit_the_buffer() {
    let mut c = base();
    c.max_payload = c.buffer_bytes;
    let msg = check_semantics(&c).unwrap_err().message();
    assert!(msg.contains("max_payload"), "got: {msg}");
}

#[test]
fn an_overflowing_max_payload_is_refused_not_wrapped() {
    let mut c = base();
    c.max_payload = usize::MAX / 2;
    let msg = check_semantics(&c).unwrap_err().message();
    assert!(msg.contains("max_payload"), "got: {msg}");
}

#[test]
fn own_id_must_appear_in_members_or_learners() {
    let mut c = base();
    c.id = 99;
    let msg = check_semantics(&c).unwrap_err().message();
    assert!(msg.contains("99"), "error must name the id, got: {msg}");
}

#[test]
fn learner_ids_must_be_disjoint_from_members() {
    let mut c = base();
    c.learners = vec![(2, addr(9))];
    let msg = check_semantics(&c).unwrap_err().message();
    assert!(msg.contains("learners"), "got: {msg}");
}

#[test]
fn bind_must_equal_this_nodes_own_member_entry() {
    let mut c = base();
    c.bind = (0, 9100);
    let msg = check_semantics(&c).unwrap_err().message();
    assert!(msg.contains("bind"), "got: {msg}");
    assert!(msg.contains("10.0.0.1:9100"), "error must show the expected addr, got: {msg}");
}

#[test]
fn duplicate_member_ids_are_refused() {
    let mut c = base();
    c.members.push((1, addr(3)));
    let msg = check_semantics(&c).unwrap_err().message();
    assert!(msg.contains("duplicate"), "got: {msg}");
}

#[test]
fn total_membership_is_capped_at_eight() {
    let mut c = base();
    c.members = (1..=9).map(|i| (i, addr(i as u8))).collect();
    let msg = check_semantics(&c).unwrap_err().message();
    assert!(msg.contains('8'), "got: {msg}");
}

#[test]
fn election_window_must_be_ordered() {
    let mut c = base();
    c.election_timeout_min_ns = c.election_timeout_max_ns + 1;
    let msg = check_semantics(&c).unwrap_err().message();
    assert!(msg.contains("election_timeout"), "got: {msg}");
}

#[test]
fn every_refusal_is_worded_exactly() {
    let text = |c: &NodeConfig| check_semantics(c).unwrap_err().message();
    let mut c = base();
    c.buffer_bytes = 3;
    assert_eq!(text(&c), "buffer_bytes must be a power of two, got 3");
    c.buffer_bytes = 4;
    c.max_payload = 2;
    assert_eq!(text(&c), "max_payload (2) must be well below buffer_bytes (4)");
    let mut c = base();
    c.election_timeout_min_ns = c.election_timeout_max_ns;
    assert_eq!(
        text(&c),
        "election_timeout_min_ns (300000000) must be < election_timeout_max_ns (300000000)"
    );
    let mut c = base();
    c.learners = vec![(2, addr(2))];
    assert_eq!(text(&c), "learners and members must be disjoint; id 2 appears in both");
    let mut c = base();
    c.learners = vec![(7, addr(7)), (7, addr(8))];
    assert_eq!(text(&c), "duplicate id 7 in members/learners");
    assert_eq!(check_semantics(&c), Err(PreflightError::DuplicateId(7)));
    let mut c = base();
    c.learners = (3..=9).map(|i| (i, addr(i as u8))).collect();
    assert_eq!(text(&c), "cluster has 9 total members (voters + learners); the hard cap is 8");
    let mut c = base();
    c.id = 3;
    assert_eq!(text(&c), "this node's id (3) appears in neither members nor learners");
    let mut c = base();
    c.bind = (0, 9100);
    assert_eq!(
        text(&c),
        "bind (0.0.0.0:9100) must be identical to this node's own members entry (10.0.0.1:9100) \
         — not a wildcard, not 0.0.0.0; a mismatch elects a leader whose followers never commit"
    );
}

#[test]
fn powers_of_two_are_those_of_std() {
    for n in 0..5000usize {
        assert_eq!(is_power_of_two(n), n.is_power_of_two());
    }
    assert!(is_power_of_two(1 << 63));
    assert!(!is_power_of_two(usize::MAX));
}

#[test]
fn a_learner_is_checked_against_its_own_entry() {
    let mut c = base();
    c.id = 5;
    c.learners = vec![(5, addr(5))];
    c.bind = addr(5);
    assert!(check_semantics(&c).is_ok());
}
