use uc2_node::daemon::{
    drain_notice, makes_pass, record_derived, record_failstop, role_notice, Derived, Reading, Watch,
};
use uc2_node::node::effects::{AuditedReq, NodeEvent};
use uc2_node::node::ingress::DrainOutcome;
use uc2_node::obs::clock::{now_unix_ns, unix_ns};
use uc2_node::obs::events::{audit_failed, notice, record_event};
use uc2_node::obs::http::{
    healthz, readyz, request_target, response_head, route, ConnStep, RequestReader, Response,
};
use uc2_node::obs::log::{
    capture_for_tests, emit, emit_at, format_line_at, level, set_level, stderr_for_tests, EventLog,
    Field, FieldValue, LogLevel,
};
use uc2_node::obs::metrics::{
    agents_in_order, contract_series, heartbeat_age_ns, render_prometheus, saturation_operands,
    slot_occupant, CounterSample, FollowerStats, ObsSources, PeerSlot, RatioTexts, SenderStats,
    ServiceCounters, SlotRole, SnapshotSample, StatusSample,
};

#[test]
fn levels_are_ordered_by_verbosity() {
    assert!(LogLevel::Error < LogLevel::Warn);
    assert!(LogLevel::Warn < LogLevel::Info);
    assert_eq!(LogLevel::Info.max(LogLevel::Error), LogLevel::Info);
}

#[test]
fn a_slot_word_holds_the_id_above_the_role() {
    assert_eq!(slot_occupant(0, 1, 2), None);
    assert_eq!(slot_occupant(7 << 8 | 1, 1, 2), Some((7, SlotRole::Voter)));
    assert_eq!(slot_occupant(7 << 8 | 2, 1, 2), Some((7, SlotRole::Learner)));
    assert_eq!(slot_occupant(7 << 8, 1, 2), Some((7, SlotRole::Unknown)));
    assert_eq!(slot_occupant(9, 1, 2), Some((0, SlotRole::Unknown)));
    assert_eq!(slot_occupant(u64::MAX, 1, 0xFF), Some((u64::MAX >> 8, SlotRole::Learner)));
}

#[test]
fn a_record_is_one_valid_json_line_with_fields_in_order() {
    let mut log = EventLog::new();
    capture_for_tests(&mut log);
    emit(
        &mut log,
        LogLevel::Info,
        "became_leader",
        &vec![
            Field { key: "node", value: FieldValue::U64(0) },
            Field { key: "term", value: FieldValue::U64(3) },
        ],
    );
    let s = log.captured.clone();
    assert!(s.ends_with('\n'));
    assert!(s.contains(r#""level":"info","event":"became_leader","node":0,"term":3}"#), "{s}");
    assert!(s.starts_with(r#"{"ts_ns":"#));
    stderr_for_tests(&mut log);
}

#[test]
fn the_level_filter_suppresses_below_threshold() {
    let mut log = EventLog::new();
    capture_for_tests(&mut log);
    set_level(&mut log, LogLevel::Error);
    assert_eq!(level(&log), LogLevel::Error);
    emit(&mut log, LogLevel::Info, "noise", &vec![]);
    assert!(!log.captured.contains(r#""event":"noise""#), "{}", log.captured);
    emit(&mut log, LogLevel::Error, "kept", &vec![]);
    assert!(log.captured.contains(r#""event":"kept""#), "{}", log.captured);
    set_level(&mut log, LogLevel::Info);
    stderr_for_tests(&mut log);
}

#[test]
fn string_values_are_escaped() {
    let mut log = EventLog::new();
    capture_for_tests(&mut log);
    emit(
        &mut log,
        LogLevel::Warn,
        "e",
        &vec![Field { key: "msg", value: FieldValue::Str("a\"b\\c\nd") }],
    );
    let s = &log.captured;
    assert!(s.contains("\"msg\":\"a\\\"b\\\\c\\u000ad\""), "{s}");
}

#[test]
fn the_macro_expands_to_emit() {
    let mut log = EventLog::new();
    capture_for_tests(&mut log);
    emit(
        &mut log,
        LogLevel::Info,
        "config_adopted",
        &vec![
            Field { key: "node", value: FieldValue::from(1u64) },
            Field { key: "version", value: FieldValue::from(7u64) },
            Field { key: "pending", value: FieldValue::from(false) },
        ],
    );
    let s = &log.captured;
    assert!(s.contains(r#""event":"config_adopted","node":1,"version":7,"pending":false"#), "{s}");
}

#[test]
fn a_line_is_exact_and_stderr_gets_it_back() {
    let fields = vec![
        Field { key: "i", value: FieldValue::from(-5i64) },
        Field { key: "n", value: FieldValue::Null },
        Field { key: "s", value: FieldValue::from("x\u{1f}\u{7f}é") },
    ];
    let line = format_line_at(7, None, "e\"v", &fields);
    assert_eq!(line, "{\"ts_ns\":7,\"event\":\"e\\\"v\",\"i\":-5,\"n\":null,\"s\":\"x\\u001f\u{7f}é\"}\n");
    let mut log = EventLog::new();
    let out = emit_at(&mut log, 8, LogLevel::Warn, "e", &vec![]).unwrap();
    assert_eq!(out, "{\"ts_ns\":8,\"level\":\"warn\",\"event\":\"e\"}\n");
    assert!(log.captured.is_empty());
    let min = format_line_at(
        u128::MAX,
        None,
        "e",
        &vec![Field { key: "i", value: FieldValue::I64(i64::MIN) }],
    );
    assert_eq!(
        min,
        "{\"ts_ns\":340282366920938463463374607431768211455,\"event\":\"e\",\"i\":-9223372036854775808}\n"
    );
}

#[test]
fn capturing_starts_afresh_and_levels_have_numbers_and_names() {
    let mut log = EventLog::new();
    capture_for_tests(&mut log);
    emit(&mut log, LogLevel::Info, "a", &vec![]);
    stderr_for_tests(&mut log);
    assert!(log.captured.contains("\"a\""));
    capture_for_tests(&mut log);
    assert!(log.captured.is_empty());
    assert_eq!(LogLevel::from_u8(0), LogLevel::Error);
    assert_eq!(LogLevel::from_u8(1), LogLevel::Warn);
    assert_eq!(LogLevel::from_u8(9), LogLevel::Info);
    assert_eq!(LogLevel::default(), LogLevel::Info);
    assert_eq!(LogLevel::parse("error"), Ok(LogLevel::Error));
    assert_eq!(
        LogLevel::parse("Info").unwrap_err(),
        "log.level must be one of error|warn|info, got \"Info\""
    );
}

#[test]
fn clock_readings_keep_their_low_half() {
    assert_eq!(unix_ns(None), 0);
    assert_eq!(unix_ns(Some(5)), 5);
    assert_eq!(unix_ns(Some((1 << 64) + 3)), 3);
    // Well past 2020 on any machine that runs this.
    assert!(now_unix_ns() > 1_577_836_800_000_000_000);
}

fn synthetic_sources() -> ObsSources {
    let mut peers = vec![
        PeerSlot { occupant: None, reported_durable: 0, advertised_limit: 0 };
        8
    ];
    peers[0].occupant = Some((9, SlotRole::Voter));
    ObsSources {
        version: "1.2.3".to_string(),
        node_id: 7,
        status: StatusSample {
            leader: false,
            can_serve: false,
            term: 0,
            leader_hint: 0,
            output_progress: 0,
            node_heartbeat_ns: 0,
            service_heartbeat_ns: 0,
        },
        config_version: 0,
        config_pending: 0,
        crypto_enabled: false,
        purge_enabled: false,
        admission_bytes: 0,
        journal_segment_bytes: 64 << 20,
        agents: agents_in_order(false, false, false, false),
        counters: CounterSample { append: 0, durable: 0, sent: 0, commit: 0 },
        service: ServiceCounters { applied: 0, epoch: 0, output_completed: 0 },
        snapshots: SnapshotSample { service_pos: 0, node_floor: 0, incoming_pos: 0 },
        archive_first_base: 0,
        ratios: RatioTexts {
            admission_saturation: "0".to_string(),
            node_heartbeat_age: "0".to_string(),
            service_heartbeat_age: "0".to_string(),
        },
        peers,
        truncations: 0,
        wipes: 0,
        reports_unattested: 0,
        reports_implausible: 0,
        crypto_handshake_failures: 0,
        sender: SenderStats {
            bytes: 0,
            datagrams: 0,
            flow_stalls: 0,
            heartbeats: 0,
            naks_dropped: 0,
            naks_rejected: 0,
            naks_served: 0,
            overruns: 0,
            replay_datagrams: 0,
            seal_failures: 0,
            snap_chunk_naks: 0,
            snap_chunks: 0,
            snap_sessions: 0,
        },
        receiver: FollowerStats {
            seal_failures: 0,
            peer_appears_cleartext: 0,
            naks_sent: 0,
            datagrams: 0,
            bytes: 0,
            truncation_resyncs: 0,
            term_change_discards: 0,
            counter_ahead_resyncs: 0,
            dropped_stale_term: 0,
            dropped_dup: 0,
            dropped_overrun: 0,
            dropped_malformed: 0,
            dropped_gated: 0,
            dropped_straddle: 0,
            dropped_auth_failed: 0,
            dropped_replay: 0,
            dropped_unknown_epoch: 0,
            dropped_unknown_peer: 0,
            dropped_handshake: 0,
            net_drops: vec![0; 10],
        },
    }
}

#[test]
fn every_contract_series_is_present() {
    let s = synthetic_sources();
    let text = render_prometheus(&s);
    for name in contract_series() {
        assert!(
            text.contains(&format!("\n{name}")) || text.starts_with(name),
            "missing series {name}"
        );
    }
    assert_eq!(contract_series().len(), 62);
}

#[test]
fn derived_lags_saturate_and_saturation_divides() {
    let mut s = synthetic_sources();
    s.counters.append = 1_000_000;
    s.counters.commit = 400_000;
    s.service.applied = 150_000;
    s.admission_bytes = 262_144;
    let (lag, window) = saturation_operands(&s).unwrap();
    s.ratios.admission_saturation = (lag as f64 / window as f64).to_string();
    let text = render_prometheus(&s);
    assert!(text.contains("uc2_commit_lag_bytes 600000"), "{text}");
    assert!(text.contains("uc2_apply_lag_bytes 250000"), "{text}");
    assert!(text.contains("uc2_admission_saturation 2.288818359375"), "{text}");
}

#[test]
fn peer_slots_export_only_occupied_with_labels() {
    let mut s = synthetic_sources();
    s.peers[0].occupant = Some((2, SlotRole::Voter));
    s.peers[0].reported_durable = 1234;
    let text = render_prometheus(&s);
    assert!(
        text.contains(r#"uc2_peer_reported_durable_bytes{peer="2",role="voter"} 1234"#),
        "{text}"
    );
    assert!(!text.contains(r#"peer="0""#), "unoccupied slots must not appear: {text}");
}

#[test]
fn leader_hint_is_omitted_when_unknown() {
    let mut s = synthetic_sources();
    s.status.leader_hint = u64::MAX;
    assert!(!render_prometheus(&s).contains("uc2_leader_hint"));
    s.status.leader_hint = 1;
    assert!(render_prometheus(&s).contains("uc2_leader_hint 1"));
}

#[test]
fn a_dead_agent_reads_zero() {
    let mut s = synthetic_sources();
    s.agents[1].1 = true;
    let text = render_prometheus(&s);
    assert!(text.contains(r#"uc2_agent_alive{agent="sender"} 0"#), "{text}");
    assert!(text.contains(r#"uc2_agent_alive{agent="consensus"} 1"#), "{text}");
}

#[test]
fn a_family_is_headed_by_its_help_and_type() {
    let mut s = synthetic_sources();
    s.receiver.dropped_gated = 3;
    s.receiver.net_drops[4] = 2;
    s.receiver.net_drops[9] = 5;
    s.peers[3].occupant = Some((4, SlotRole::Learner));
    s.peers[3].reported_durable = 70;
    s.counters.commit = 100;
    let text = render_prometheus(&s);
    assert!(text.starts_with(
        "# HELP uc2_build_info Static build version info.\n# TYPE uc2_build_info gauge\n\
         uc2_build_info{version=\"1.2.3\"} 1\n# HELP uc2_node_id This node's configured id.\n\
         # TYPE uc2_node_id gauge\nuc2_node_id 7\n"
    ));
    assert!(text.contains("# TYPE uc2_receiver_dropped_total counter\n"));
    assert!(text.contains("uc2_receiver_dropped_total{reason=\"gated\"} 3\n"));
    assert!(text.contains("uc2_peer_replication_lag_bytes{peer=\"4\",role=\"learner\"} 30\n"));
    assert!(text.contains("uc2_peer_replication_lag_bytes{peer=\"9\",role=\"voter\"} 100\n"));
    assert!(text.ends_with("uc2_net_event_drops_total 7\n"));
}

#[test]
fn a_window_of_zero_has_no_saturation_and_a_future_stamp_no_age() {
    let s = synthetic_sources();
    assert_eq!(saturation_operands(&s), None);
    assert_eq!(heartbeat_age_ns(5, 9), 0);
    assert_eq!(heartbeat_age_ns(9, 5), 4);
}

const SECOND: u64 = 1_000_000_000;

fn live() -> ObsSources {
    let mut s = synthetic_sources();
    s.status.node_heartbeat_ns = 10 * SECOND;
    s.status.service_heartbeat_ns = 10 * SECOND;
    s
}

#[test]
fn an_elected_leader_that_does_not_serve_is_alive_and_not_ready() {
    let mut s = live();
    s.status.leader = true;
    assert_eq!(healthz(&s, 10 * SECOND).status, 200);
    let r = readyz(&s, 10 * SECOND);
    assert_eq!((r.status, r.body.as_str()), (503, "elected, NewTerm not yet quorum-committed\n"));
    s.status.can_serve = true;
    let r = readyz(&s, 10 * SECOND);
    assert_eq!((r.status, r.body.as_str()), (200, "ok role=leader can_serve=true\n"));
}

#[test]
fn stale_heartbeats_and_dead_agents_fail_the_probes() {
    let mut s = live();
    let almost = 13 * SECOND - 1;
    assert_eq!(readyz(&s, almost).body, "ok role=follower can_serve=false\n");
    assert_eq!(healthz(&s, almost).body, "ok\n");
    let r = healthz(&s, 13 * SECOND);
    assert_eq!((r.status, r.body.as_str()), (503, "node heartbeat stale\n"));
    assert_eq!(readyz(&s, 13 * SECOND).body, "node heartbeat stale\n");
    s.status.node_heartbeat_ns = 13 * SECOND;
    assert_eq!(healthz(&s, 13 * SECOND).status, 200);
    assert_eq!(readyz(&s, 13 * SECOND).body, "service heartbeat stale\n");
    s.agents = agents_in_order(false, false, true, true);
    let r = healthz(&s, 10 * SECOND);
    assert_eq!((r.status, r.body.as_str()), (503, "agent receiver fail-stopped\n"));
    assert_eq!(readyz(&s, 10 * SECOND).body, "agent receiver fail-stopped\n");
}

fn status_of(request: &[u8]) -> u16 {
    route(&request.to_vec(), &live(), 10 * SECOND).status
}

#[test]
fn only_gets_of_known_paths_are_found() {
    let r = route(&b"GET /metrics HTTP/1.1\r\nHost: x\r\n\r\n".to_vec(), &live(), 0);
    assert_eq!((r.status, r.content_type), (200, "text/plain; version=0.0.4"));
    assert_eq!(r.body, render_prometheus(&live()));
    assert_eq!(status_of(b"GET /healthz HTTP/1.1\r\n\r\n"), 200);
    assert_eq!(status_of(b"GET /readyz?verbose=1 HTTP/1.1\r\n\r\n"), 200);
    assert_eq!(status_of(b"  GET\t/healthz"), 200);
    assert_eq!(status_of("GET\u{2003}/healthz".as_bytes()), 200);
    assert_eq!(status_of(b"POST /healthz HTTP/1.1\r\n\r\n"), 404);
    assert_eq!(status_of(b"get /healthz HTTP/1.1\r\n\r\n"), 404);
    assert_eq!(status_of(b"GET /healthz/ HTTP/1.1\r\n\r\n"), 404);
    assert_eq!(status_of(b"GET"), 404);
    assert_eq!(status_of(b""), 404);
    assert_eq!(status_of(b"\r\nGET /healthz"), 404);
    // Bytes that are no text are no request.
    assert_eq!(status_of(b"GET /healthz HTTP/1.1\r\n\xff\r\n"), 404);
}

#[test]
fn a_request_line_is_split_as_std_splits_it() {
    for text in ["GET /a?b HTTP/1.1\r\nX", "\u{85}GET\u{3000}/p\u{200b}q ", "x\r", "x\ry z\n", "\n a b", "??", " a ?b"] {
        let line = text.lines().next().unwrap_or("");
        let mut parts = line.split_whitespace();
        let method = parts.next().unwrap_or("");
        let path = parts.next().unwrap_or("").split('?').next().unwrap_or("");
        assert_eq!(request_target(text), (method.to_string(), path.to_string()), "{text:?}");
    }
}

#[test]
fn a_request_ends_where_its_header_does_however_it_is_cut() {
    let whole = b"GET / HTTP/1.1\r\n\r\nrest".to_vec();
    for cut in 0..whole.len() {
        let mut r = RequestReader::new();
        if cut > 0 {
            r.received(&whole[..cut].to_vec());
        }
        let ended = cut >= 18;
        assert_eq!(r.terminated, ended, "{cut}");
        if !ended {
            r.received(&whole[cut..].to_vec());
            assert!(r.terminated);
        }
    }
}

#[test]
fn a_connection_is_bounded_by_its_deadline_its_size_and_its_end() {
    let mut r = RequestReader::new();
    assert_eq!(r.step(0), ConnStep::Read { timeout_ns: SECOND });
    assert_eq!(r.step(SECOND + 1), ConnStep::Read { timeout_ns: SECOND - 1 });
    assert_eq!(r.step(2 * SECOND), ConnStep::Drop);
    r.received(&vec![b'x'; 4095]);
    assert_eq!(r.step(0), ConnStep::Read { timeout_ns: SECOND });
    r.received(&vec![b'x'; 1]);
    assert_eq!(r.step(2 * SECOND), ConnStep::Answer);
    let mut r = RequestReader::new();
    r.received(&vec![]);
    assert_eq!(r.step(3 * SECOND), ConnStep::Answer);
}

#[test]
fn a_silent_or_partial_request_is_dropped_at_the_deadline_unanswered() {
    let mut r = RequestReader::new();
    for _ in 0..2 {
        for elapsed in [0, SECOND, SECOND + 1, 2 * SECOND - 1] {
            assert!(matches!(r.step(elapsed), ConnStep::Read { .. }), "{elapsed}");
        }
        assert_eq!(r.step(2 * SECOND), ConnStep::Drop);
        r.received(&b"GET /healthz HTTP/1.1\r\n".to_vec());
    }
    r.received(&b"\r\n".to_vec());
    assert_eq!(r.step(2 * SECOND), ConnStep::Answer);
}

#[test]
fn an_answer_counts_its_bytes_and_closes() {
    let r = Response { status: 200, content_type: "text/plain", body: "né\n".to_string() };
    assert_eq!(
        response_head(&r),
        "HTTP/1.1 200 OK\r\nContent-Type: text/plain\r\nContent-Length: 4\r\nConnection: close\r\n\r\n"
    );
    let r = Response { status: 404, content_type: "text/plain", body: String::new() };
    assert!(response_head(&r).starts_with("HTTP/1.1 404 Not Found\r\n"));
    let r = Response { status: 503, content_type: "text/plain", body: String::new() };
    assert!(response_head(&r).starts_with("HTTP/1.1 503 Service Unavailable\r\n"));
    let r = Response { status: 500, content_type: "text/plain", body: String::new() };
    assert!(response_head(&r).starts_with("HTTP/1.1 500 \r\n"));
}

fn recorded(ev: NodeEvent) -> String {
    let mut log = EventLog::new();
    record_event(&mut log, 5, 3, ev).unwrap()
}

#[test]
fn transitions_are_recorded_with_their_fields() {
    assert_eq!(
        recorded(NodeEvent::BecameLeader { term: 2, base: 64 }),
        "{\"ts_ns\":5,\"level\":\"info\",\"event\":\"became_leader\",\"node\":3,\"term\":2,\"base\":64}\n"
    );
    assert!(recorded(NodeEvent::BecameFollower { term: 2, leader: Some(1) })
        .contains("\"event\":\"became_follower\",\"node\":3,\"term\":2,\"leader\":1}"));
    assert!(recorded(NodeEvent::BecameFollower { term: 2, leader: None })
        .contains("\"event\":\"became_follower\",\"node\":3,\"term\":2}"));
    assert!(recorded(NodeEvent::LogTruncated { epoch: 1, to: 9 })
        .contains("\"level\":\"warn\",\"event\":\"log_truncated\",\"node\":3,\"epoch\":1,\"to\":9}"));
    assert!(recorded(NodeEvent::LogWiped).contains("\"event\":\"log_wiped\",\"node\":3}"));
    assert!(recorded(NodeEvent::ConfigAdopted { position: 1, version: 2, prev_position: 3 })
        .contains("\"config_adopted\",\"node\":3,\"position\":1,\"version\":2,\"prev_position\":3}"));
    assert!(recorded(NodeEvent::HaltRemoved { term: 4 }).contains(
        "\"level\":\"error\",\"event\":\"halt_removed\",\"node\":3,\"term\":4,\"msg\":\"removed from cluster config — halting\"}"
    ));
    assert!(recorded(NodeEvent::StepdownRemoved { term: 4 })
        .contains("\"msg\":\"removed from cluster (self-removal committed) — halting\"}"));
    assert!(recorded(NodeEvent::SnapshotInstalled { pos: 8 })
        .contains("\"snapshot_installed\",\"node\":3,\"pos\":8}"));
    assert!(recorded(NodeEvent::ServingChanged { term: 1, can_serve: true })
        .contains("\"serving_changed\",\"node\":3,\"term\":1,\"can_serve\":true}"));
    let from = (u32::from_be_bytes([127, 0, 0, 1]), 80);
    assert!(recorded(NodeEvent::ConfigProposalNonMember { from })
        .contains("\"config_proposal_non_member\",\"node\":3,\"from\":\"127.0.0.1:80\"}"));
}

#[test]
fn notices_are_plain_text() {
    assert_eq!(
        notice(3, NodeEvent::ImplausibleConfig { position: 9, durable: 8 }),
        "node 3: ignoring implausible ConfigObserved at 9 (durable 8)"
    );
    assert_eq!(
        notice(3, NodeEvent::DivergentConfig { position: 9, version: 2 }),
        "node 3: DIVERGENT config observed at 9: version 2 content differs from adopted"
    );
    assert_eq!(
        notice(3, NodeEvent::ForwardSuperseded),
        "uc2_node: admin forward superseded by newer request"
    );
    assert!(notice(3, NodeEvent::SelfDemoted).starts_with("node 3: leader adopted a config demoting itself"));
}

#[test]
fn an_unrecorded_answer_is_loud() {
    let mut log = EventLog::new();
    let req = AuditedReq { op: 1, id: 2, ip: 3, port: 4, seq: 5, nonce: 6 };
    assert_eq!(
        audit_failed(&mut log, 7, 3, &req, 0, "disk full").unwrap(),
        "{\"ts_ns\":7,\"level\":\"error\",\"event\":\"admin_audit_failed\",\"node\":3,\"seq\":5,\
         \"nonce\":6,\"op\":1,\"status\":0,\"err\":\"disk full\"}\n"
    );
}

fn reading(now_s: u64) -> Reading {
    Reading {
        now_ns: now_s * SECOND,
        naks_dropped: 0,
        naks_served: 0,
        seal_failures: 0,
        snapshot_pos: 0,
        is_leader: false,
        free_disk_bytes: Some(1),
    }
}

#[test]
fn seal_failures_are_counted_from_record_to_record() {
    let mut w = Watch::start(0, 0, 0);
    let mut r = reading(1);
    r.seal_failures = 2;
    assert_eq!(
        w.pass(&r),
        vec![
            Derived::SealFailures { count: 2, is_leader: false },
            Derived::FreeDisk { bytes: 1 }
        ]
    );
    // Silent within ten seconds, and nothing is lost to the silence.
    let mut r = reading(5);
    r.seal_failures = 5;
    assert_eq!(w.pass(&r), vec![Derived::FreeDisk { bytes: 1 }]);
    let mut r = reading(11);
    r.seal_failures = 6;
    r.is_leader = true;
    assert_eq!(
        w.pass(&r),
        vec![
            Derived::SealFailures { count: 4, is_leader: true },
            Derived::FreeDisk { bytes: 1 }
        ]
    );
}

#[test]
fn storms_snapshots_and_failed_probes_are_rate_limited() {
    let mut w = Watch::start(1, 0, 100);
    let mut r = reading(1);
    r.naks_dropped = 2;
    r.naks_served = 7;
    r.snapshot_pos = 101;
    r.free_disk_bytes = None;
    assert_eq!(
        w.pass(&r),
        vec![
            Derived::NakStorm { naks_dropped: 2, naks_served: 7 },
            Derived::SnapshotPublished { pos: 101 },
            Derived::DiskProbeFailed,
        ]
    );
    let mut r = reading(10);
    r.naks_dropped = 3;
    r.snapshot_pos = 102;
    r.free_disk_bytes = None;
    assert_eq!(w.pass(&r), vec![]);
    // Nothing new since the last pass, though the limit is over.
    let mut r = reading(20);
    r.naks_dropped = 3;
    r.snapshot_pos = 102;
    r.free_disk_bytes = None;
    assert_eq!(w.pass(&r), vec![Derived::DiskProbeFailed]);
    assert!(makes_pass(10) && !makes_pass(11));
}

#[test]
fn derived_events_are_recorded_with_their_fields() {
    let mut log = EventLog::new();
    let d = Derived::NakStorm { naks_dropped: 2, naks_served: 7 };
    assert!(record_derived(&mut log, 1, 3, d)
        .unwrap()
        .contains("\"warn\",\"event\":\"nak_storm\",\"node\":3,\"naks_dropped\":2,\"naks_served\":7}"));
    let d = Derived::SealFailures { count: 4, is_leader: true };
    assert!(record_derived(&mut log, 1, 3, d)
        .unwrap()
        .contains("\"seal_failures\",\"node\":3,\"count\":4,\"is_leader\":true}"));
    let d = Derived::SnapshotPublished { pos: 9 };
    assert!(record_derived(&mut log, 1, 3, d)
        .unwrap()
        .contains("\"info\",\"event\":\"snapshot_published\",\"node\":3,\"pos\":9}"));
    assert!(record_failstop(&mut log, 1, "archive")
        .unwrap()
        .contains("\"error\",\"event\":\"agent_failstopped\",\"agent\":\"archive\"}"));
}

#[test]
fn the_daemon_prints_changes_of_role_and_how_it_stopped() {
    assert_eq!(
        role_notice(None, 3, true, 2).unwrap(),
        "uc2-node: node 3 is now LEADER (term 2)"
    );
    assert_eq!(role_notice(Some(true), 3, true, 2), None);
    assert_eq!(
        role_notice(Some(true), 3, false, 4).unwrap(),
        "uc2-node: node 3 is now follower (term 4)"
    );
    assert_eq!(drain_notice(DrainOutcome::Drained), "uc2-node: drained, stopped cleanly");
    assert_eq!(
        drain_notice(DrainOutcome::DeadlineExpired { append: 10, durable: 4 }),
        "uc2-node: drain deadline expired with 6 bytes unrecorded (append 10, durable 4); \
         stopped anyway — the restarted node will re-fetch them"
    );
}
