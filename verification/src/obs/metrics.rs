//! The metrics of a node in the Prometheus text format.
//!
//! Positions are byte positions. The three figures that are fractions come
//! as texts: the caller divides, from the operands that this module gives.

use crate::node::gate::LEADER_UNKNOWN;
use crate::node::ingress;
use crate::node::ingress::net_event_drops;
use crate::text;
use crate::text::decimal;
use vstd::prelude::*;
use vstd::string::StringExecFns;

verus! {

/// The node's published status.
#[derive(Debug, Clone, Copy)]
pub struct StatusSample {
    pub leader: bool,
    pub can_serve: bool,
    pub term: u64,
    /// The last known leader, `u64::MAX` for unknown.
    pub leader_hint: u64,
    pub output_progress: u64,
    pub node_heartbeat_ns: u64,
    pub service_heartbeat_ns: u64,
}

/// The log's counters.
#[derive(Debug, Clone, Copy)]
pub struct CounterSample {
    pub append: u64,
    pub durable: u64,
    pub sent: u64,
    pub commit: u64,
}

/// What the service publishes.
#[derive(Debug, Clone, Copy)]
pub struct ServiceCounters {
    pub applied: u64,
    pub epoch: u64,
    pub output_completed: u64,
}

/// The snapshot positions.
#[derive(Debug, Clone, Copy)]
pub struct SnapshotSample {
    pub service_pos: u64,
    pub node_floor: u64,
    pub incoming_pos: u64,
}

/// How a peer slot is occupied.
#[derive(Debug, Clone, Copy, PartialEq, Eq, Structural)]
pub enum SlotRole {
    Voter,
    Learner,
    /// A role code that is none of the two.
    Unknown,
}

impl SlotRole {
    /// The role's label.
    pub open spec fn label(self) -> Seq<char> {
        match self {
            SlotRole::Voter => "voter"@,
            SlotRole::Learner => "learner"@,
            SlotRole::Unknown => "unknown"@,
        }
    }

    /// The role's label.
    pub fn as_str(self) -> (s: &'static str)
        ensures
            s@ == self.label(),
    {
        match self {
            SlotRole::Voter => "voter",
            SlotRole::Learner => "learner",
            SlotRole::Unknown => "unknown",
        }
    }
}

/// The role that a slot's code stands for, given those of the two roles.
pub open spec fn slot_role(code: u8, voter: u8, learner: u8) -> SlotRole {
    if code == voter {
        SlotRole::Voter
    } else if code == learner {
        SlotRole::Learner
    } else {
        SlotRole::Unknown
    }
}

/// Who occupies a slot, as its word says: the id above the low byte, and the
/// code of the role in it. A slot that holds 0 is empty.
pub fn slot_occupant(id_and_role: u64, voter: u8, learner: u8) -> (r: Option<(u64, SlotRole)>)
    ensures
        r == occupant(id_and_role, voter, learner),
{
    if id_and_role == 0 {
        return None;
    }
    let code: u8 = (id_and_role & 0xFF) as u8;
    let role = if code == voter {
        SlotRole::Voter
    } else if code == learner {
        SlotRole::Learner
    } else {
        SlotRole::Unknown
    };
    Some((id_and_role >> 8, role))
}

/// One slot of the peer band.
#[derive(Debug, Clone, Copy)]
pub struct PeerSlot {
    /// Who occupies it, if anyone.
    pub occupant: Option<(u64, SlotRole)>,
    pub reported_durable: u64,
    pub advertised_limit: u64,
}

/// What the sender counts.
#[derive(Debug, Clone, Copy)]
pub struct SenderStats {
    pub bytes: u64,
    pub datagrams: u64,
    pub flow_stalls: u64,
    pub heartbeats: u64,
    pub naks_dropped: u64,
    pub naks_rejected: u64,
    pub naks_served: u64,
    pub overruns: u64,
    pub replay_datagrams: u64,
    pub seal_failures: u64,
    pub snap_chunk_naks: u64,
    pub snap_chunks: u64,
    pub snap_sessions: u64,
}

/// What the receiver counts.
#[derive(Debug, Clone)]
pub struct FollowerStats {
    pub seal_failures: u64,
    pub peer_appears_cleartext: u64,
    pub naks_sent: u64,
    pub datagrams: u64,
    pub bytes: u64,
    pub truncation_resyncs: u64,
    pub term_change_discards: u64,
    pub counter_ahead_resyncs: u64,
    pub dropped_stale_term: u64,
    pub dropped_dup: u64,
    pub dropped_overrun: u64,
    pub dropped_malformed: u64,
    pub dropped_gated: u64,
    pub dropped_straddle: u64,
    pub dropped_auth_failed: u64,
    pub dropped_replay: u64,
    pub dropped_unknown_epoch: u64,
    pub dropped_unknown_peer: u64,
    pub dropped_handshake: u64,
    /// Events dropped for want of room, by kind.
    pub net_drops: Vec<u64>,
}

/// The figures that are fractions, as texts.
#[derive(Debug, Clone)]
pub struct RatioTexts {
    pub admission_saturation: String,
    pub node_heartbeat_age: String,
    pub service_heartbeat_age: String,
}

/// One reading of everything the metrics show.
#[derive(Debug, Clone)]
pub struct ObsSources {
    /// The build's version.
    pub version: String,
    pub node_id: u32,
    pub status: StatusSample,
    pub config_version: u64,
    pub config_pending: u64,
    pub crypto_enabled: bool,
    pub purge_enabled: bool,
    pub admission_bytes: u64,
    pub journal_segment_bytes: u64,
    /// Each polling agent's name, and whether its loop has ended.
    pub agents: Vec<(&'static str, bool)>,
    pub counters: CounterSample,
    pub service: ServiceCounters,
    pub snapshots: SnapshotSample,
    pub archive_first_base: u64,
    pub ratios: RatioTexts,
    pub peers: Vec<PeerSlot>,
    pub truncations: u64,
    pub wipes: u64,
    pub reports_unattested: u64,
    pub reports_implausible: u64,
    pub crypto_handshake_failures: u64,
    pub sender: SenderStats,
    pub receiver: FollowerStats,
}

/// The polling agents in their fixed order, whichever order they were
/// started in: the labels go by it.
pub fn agents_in_order(consensus: bool, sender: bool, receiver: bool, archive: bool) -> (v: Vec<
    (&'static str, bool),
>)
    ensures
        v@ == seq![
            ("consensus", consensus),
            ("sender", sender),
            ("receiver", receiver),
            ("archive", archive),
        ],
{
    let v = vec![
        ("consensus", consensus),
        ("sender", sender),
        ("receiver", receiver),
        ("archive", archive),
    ];
    assert(v@ =~= seq![
        ("consensus", consensus),
        ("sender", sender),
        ("receiver", receiver),
        ("archive", archive),
    ]);
    v
}

/// How far `behind` lags `ahead`; zero where it does not.
pub open spec fn lag(ahead: u64, behind: u64) -> u64 {
    if ahead >= behind {
        (ahead - behind) as u64
    } else {
        0
    }
}

/// How far `behind` lags `ahead`.
pub fn lag_bytes(ahead: u64, behind: u64) -> (n: u64)
    ensures
        n == lag(ahead, behind),
{
    ahead.saturating_sub(behind)
}

/// What to divide for the admission saturation: the lag by the window;
/// `None` where there is no window, and the figure is zero.
pub fn saturation_operands(s: &ObsSources) -> (r: Option<(u64, u64)>)
    ensures
        r == saturation(*s),
{
    if s.admission_bytes == 0 {
        None
    } else {
        Some((lag_bytes(s.counters.append, s.counters.commit), s.admission_bytes))
    }
}

/// The age of a heartbeat, in nanoseconds. One that was never stamped reads
/// as a huge age.
pub fn heartbeat_age_ns(now_ns: u64, stamped_ns: u64) -> (age: u64)
    ensures
        age == lag(now_ns, stamped_ns),
{
    lag_bytes(now_ns, stamped_ns)
}

/// A truth value as a metric.
pub open spec fn flag(b: bool) -> u64 {
    if b {
        1
    } else {
        0
    }
}

/// A truth value as a metric.
pub fn flag_value(b: bool) -> (n: u64)
    ensures
        n == flag(b),
{
    if b {
        1
    } else {
        0
    }
}

/// One sample of a family.
#[verifier::ext_equal]
pub struct SampleV {
    /// The body of the label set, where there is one.
    pub labels: Option<Seq<char>>,
    pub value: Seq<char>,
}

/// A metric family.
#[verifier::ext_equal]
pub struct FamilyV {
    pub name: Seq<char>,
    pub help: Seq<char>,
    pub counter: bool,
    pub samples: Seq<SampleV>,
}

/// One sample of a family.
#[derive(Debug)]
pub struct Sample {
    pub labels: Option<String>,
    pub value: String,
}

impl View for Sample {
    type V = SampleV;

    open spec fn view(&self) -> SampleV {
        SampleV { labels: crate::node::effects::text_view(self.labels), value: self.value@ }
    }
}

/// What samples say.
pub open spec fn samples_view(s: Seq<Sample>) -> Seq<SampleV> {
    s.map_values(|x: Sample| x@)
}

/// A metric family.
#[derive(Debug)]
pub struct Family {
    pub name: &'static str,
    pub help: &'static str,
    pub counter: bool,
    pub samples: Vec<Sample>,
}

impl View for Family {
    type V = FamilyV;

    open spec fn view(&self) -> FamilyV {
        FamilyV {
            name: self.name@,
            help: self.help@,
            counter: self.counter,
            samples: samples_view(self.samples@),
        }
    }
}

/// What families say.
pub open spec fn families_view(s: Seq<Family>) -> Seq<FamilyV> {
    s.map_values(|x: Family| x@)
}

/// A sample's line.
pub open spec fn sample_text(name: Seq<char>, s: SampleV) -> Seq<char> {
    name + (match s.labels {
        Some(l) => seq!['{'] + l + seq!['}'],
        None => Seq::empty(),
    }) + seq![' '] + s.value + seq!['\n']
}

/// The lines of samples.
pub open spec fn samples_text(name: Seq<char>, s: Seq<SampleV>) -> Seq<char>
    decreases s.len(),
{
    if s.len() == 0 {
        Seq::empty()
    } else {
        samples_text(name, s.drop_last()) + sample_text(name, s.last())
    }
}

/// The name of a family's type.
pub open spec fn type_text(counter: bool) -> Seq<char> {
    if counter {
        "counter"@
    } else {
        "gauge"@
    }
}

/// A family's lines: what it is, then its samples.
pub open spec fn family_text(f: FamilyV) -> Seq<char> {
    "# HELP "@ + f.name + seq![' '] + f.help + seq!['\n'] + "# TYPE "@ + f.name + seq![' ']
        + type_text(f.counter) + seq!['\n'] + samples_text(f.name, f.samples)
}

/// The lines of families.
pub open spec fn families_text(s: Seq<FamilyV>) -> Seq<char>
    decreases s.len(),
{
    if s.len() == 0 {
        Seq::empty()
    } else {
        families_text(s.drop_last()) + family_text(s.last())
    }
}

/// A family with one sample without labels.
pub open spec fn scalar(name: Seq<char>, help: Seq<char>, counter: bool, value: Seq<char>) -> FamilyV {
    FamilyV { name, help, counter, samples: seq![SampleV { labels: None, value }] }
}

/// A gauge.
pub open spec fn gauge(name: Seq<char>, help: Seq<char>, value: u64) -> FamilyV {
    scalar(name, help, false, text::digits(value as nat))
}

/// A counter.
pub open spec fn counter(name: Seq<char>, help: Seq<char>, value: u64) -> FamilyV {
    scalar(name, help, true, text::digits(value as nat))
}

/// A label set of one label.
pub open spec fn label(key: Seq<char>, value: Seq<char>) -> Seq<char> {
    key + "=\""@ + value + "\""@
}

/// The samples of the agents: 1 for one that runs.
pub open spec fn agent_samples(agents: Seq<(&'static str, bool)>) -> Seq<SampleV> {
    agents.map_values(
        |a: (&'static str, bool)|
            SampleV {
                labels: Some(label("agent"@, a.0@)),
                value: text::digits(flag(!a.1) as nat),
            },
    )
}

/// What is shown of a peer slot.
#[derive(Debug, Clone, Copy, PartialEq, Eq, Structural)]
pub enum Column {
    Reported,
    Lag,
    Limit,
}

/// A column's figure of a slot.
pub open spec fn slot_figure(c: Column, commit: u64, p: PeerSlot) -> u64 {
    match c {
        Column::Reported => p.reported_durable,
        Column::Lag => lag(commit, p.reported_durable),
        Column::Limit => p.advertised_limit,
    }
}

/// The samples of a column: one for each occupied slot, in slot order.
pub open spec fn peer_samples(c: Column, commit: u64, peers: Seq<PeerSlot>) -> Seq<SampleV>
    decreases peers.len(),
{
    if peers.len() == 0 {
        Seq::empty()
    } else {
        let rest = peer_samples(c, commit, peers.drop_last());
        match peers.last().occupant {
            Some(o) => rest.push(
                SampleV {
                    labels: Some(
                        label("peer"@, text::digits(o.0 as nat)) + seq![','] + label(
                            "role"@,
                            o.1.label(),
                        ),
                    ),
                    value: text::digits(slot_figure(c, commit, peers.last()) as nat),
                },
            ),
            None => rest,
        }
    }
}

/// A dropped-datagram sample.
pub open spec fn drop_sample(reason: Seq<char>, n: u64) -> SampleV {
    SampleV { labels: Some(label("reason"@, reason)), value: text::digits(n as nat) }
}

/// The samples of dropped datagrams, by reason.
pub open spec fn drop_samples(r: FollowerStats) -> Seq<SampleV> {
    seq![
        drop_sample("stale_term"@, r.dropped_stale_term),
        drop_sample("dup"@, r.dropped_dup),
        drop_sample("overrun"@, r.dropped_overrun),
        drop_sample("malformed"@, r.dropped_malformed),
        drop_sample("gated"@, r.dropped_gated),
        drop_sample("straddle"@, r.dropped_straddle),
        drop_sample("auth_failed"@, r.dropped_auth_failed),
        drop_sample("replay"@, r.dropped_replay),
        drop_sample("unknown_epoch"@, r.dropped_unknown_epoch),
        drop_sample("unknown_peer"@, r.dropped_unknown_peer),
        drop_sample("handshake"@, r.dropped_handshake),
    ]
}

/// Families: what the node is and how it stands.
pub open spec fn identity_families(s: ObsSources) -> Seq<FamilyV> {
    seq![
        FamilyV { name: "uc2_build_info"@, help: "Static build version info."@, counter: false, samples: seq![SampleV { labels: Some(label("version"@, s.version@)), value: text::digits(1) }] },
        gauge("uc2_node_id"@, "This node's configured id."@, s.node_id as u64),
        gauge("uc2_is_leader"@, "1 if this node currently holds NODE_FLAG_LEADER."@, flag(s.status.leader)),
        gauge("uc2_can_serve"@, "1 if this node currently holds NODE_FLAG_CAN_SERVE."@, flag(s.status.can_serve)),
        gauge("uc2_term"@, "Current consensus term."@, s.status.term),
    ] + (if s.status.leader_hint != LEADER_UNKNOWN {
        seq![gauge("uc2_leader_hint"@, "Last known leader node id."@, s.status.leader_hint)]
    } else {
        Seq::empty()
    }) + seq![
        gauge("uc2_config_version"@, "Adopted cluster-config version."@, s.config_version),
        gauge("uc2_config_pending"@, "1 if a config change is uncommitted."@, s.config_pending),
    ]
}

/// Families: how the node is set up, and its agents.
pub open spec fn settings_families(s: ObsSources) -> Seq<FamilyV> {
    seq![
        gauge("uc2_crypto_enabled"@, "1 if wire crypto (M8) is enabled on this node."@, flag(s.crypto_enabled)),
        gauge("uc2_purge_enabled"@, "1 if journal/log purge is enabled on this node."@, flag(s.purge_enabled)),
        gauge("uc2_admission_bytes"@, "Configured admission window in bytes."@, s.admission_bytes),
        gauge("uc2_journal_segment_bytes"@, "Configured journal segment size in bytes."@, s.journal_segment_bytes),
        FamilyV { name: "uc2_agent_alive"@, help: "1 if the named polling agent's worker loop is still running."@, counter: false, samples: agent_samples(s.agents@) },
    ]
}

/// Families: the positions of log, service and snapshots.
pub open spec fn positions_families(s: ObsSources) -> Seq<FamilyV> {
    seq![
        gauge("uc2_append_bytes"@, "Local append counter."@, s.counters.append),
        gauge("uc2_durable_bytes"@, "Local archive-durable counter."@, s.counters.durable),
        gauge("uc2_sent_bytes"@, "Local replication-sent counter."@, s.counters.sent),
        gauge("uc2_commit_bytes"@, "Cluster commit counter."@, s.counters.commit),
        gauge("uc2_service_applied_bytes"@, "Position the service state machine has applied through."@, s.service.applied),
        gauge("uc2_service_epoch"@, "Service incarnation counter, bumped each service attach."@, s.service.epoch),
        gauge("uc2_output_completed_bytes"@, "Durable (increase-only) output-handler progress marker."@, s.service.output_completed),
        gauge("uc2_output_progress_bytes"@, "Node-observed output-handler progress marker."@, s.status.output_progress),
    ]
}

/// Families: snapshots, lags and ages.
pub open spec fn derived_families(s: ObsSources) -> Seq<FamilyV> {
    seq![
        gauge("uc2_service_snapshot_pos_bytes"@, "Position of the newest complete service-built snapshot (0 = none)."@, s.snapshots.service_pos),
        gauge("uc2_node_snapshot_floor_bytes"@, "Node-side mirror of the snapshot floor the purge driver honors."@, s.snapshots.node_floor),
        gauge("uc2_incoming_snapshot_pos_bytes"@, "Position of the newest complete inbound snapshot this node landed."@, s.snapshots.incoming_pos),
        gauge("uc2_archive_first_base_bytes"@, "The archive's first-retained log position (purge floor)."@, s.archive_first_base),
        gauge("uc2_commit_lag_bytes"@, "append - commit: bytes appended locally but not yet cluster-committed."@, lag(s.counters.append, s.counters.commit)),
        gauge("uc2_apply_lag_bytes"@, "commit - service_applied: bytes committed but not yet applied."@, lag(s.counters.commit, s.service.applied)),
        scalar("uc2_admission_saturation"@, "commit_lag / admission_bytes; how full the admission window is."@, false, s.ratios.admission_saturation@),
        scalar("uc2_node_heartbeat_age_seconds"@, "Seconds since this node's own heartbeat was last stamped (a never-written heartbeat reads as a huge age, by design)."@, false, s.ratios.node_heartbeat_age@),
        scalar("uc2_service_heartbeat_age_seconds"@, "Seconds since the attached service's heartbeat was last stamped (a never-written heartbeat reads as a huge age, by design)."@, false, s.ratios.service_heartbeat_age@),
    ]
}

/// Families: what the peers report.
pub open spec fn peers_families(s: ObsSources) -> Seq<FamilyV> {
    seq![
        FamilyV { name: "uc2_peer_reported_durable_bytes"@, help: "Newest durable position this peer last reported."@, counter: false, samples: peer_samples(Column::Reported, s.counters.commit, s.peers@) },
        FamilyV { name: "uc2_peer_replication_lag_bytes"@, help: "commit - peer's reported_durable."@, counter: false, samples: peer_samples(Column::Lag, s.counters.commit, s.peers@) },
        FamilyV { name: "uc2_peer_advertised_limit_bytes"@, help: "The receive window this peer last advertised."@, counter: false, samples: peer_samples(Column::Limit, s.counters.commit, s.peers@) },
    ]
}

/// Families: what went wrong.
pub open spec fn incidents_families(s: ObsSources) -> Seq<FamilyV> {
    seq![
        counter("uc2_truncations_total"@, "Times this node truncated its own uncommitted log tail."@, s.truncations),
        counter("uc2_wipes_total"@, "Times this node wiped and rejoined (NoCommonPrefix)."@, s.wipes),
        counter("uc2_reports_unattested_total"@, "Durable reports declined for lacking a wire-0.5.0 term attestation."@, s.reports_unattested),
        counter("uc2_reports_implausible_total"@, "Durable reports declined for disagreeing with this node's term map."@, s.reports_implausible),
        counter("uc2_crypto_handshake_failures_total"@, "M8 Noise IK handshake failures."@, s.crypto_handshake_failures),
        counter("uc2_sender_seal_failures_total"@, "Outgoing datagrams the sender could not seal (M8)."@, s.sender.seal_failures),
        counter("uc2_receiver_seal_failures_total"@, "Outgoing datagrams the receiver could not seal (M8)."@, s.receiver.seal_failures),
        counter("uc2_unknown_source_datagrams_total"@, "Sealed datagrams from a SocketAddr with no known peer id."@, s.receiver.dropped_unknown_peer),
        counter("uc2_cleartext_peer_datagrams_total"@, "Datagrams that look like the flag-day cleartext-vs-crypto mismatch."@, s.receiver.peer_appears_cleartext),
    ]
}

/// Families: repair and flow.
pub open spec fn repairs_families(s: ObsSources) -> Seq<FamilyV> {
    seq![
        counter("uc2_naks_sent_total"@, "NAKs this follower sent requesting repair."@, s.receiver.naks_sent),
        counter("uc2_naks_served_total"@, "NAKs this sender served from the ring."@, s.sender.naks_served),
        counter("uc2_naks_dropped_total"@, "NAK requests dropped because the queue was full."@, s.sender.naks_dropped),
        counter("uc2_naks_rejected_total"@, "NAK positions rejected as not a frame boundary."@, s.sender.naks_rejected),
        counter("uc2_replay_datagrams_total"@, "DATA datagrams retransmitted from the journal (deep NAK)."@, s.sender.replay_datagrams),
        counter("uc2_flow_stalls_total"@, "Times the sender stalled on quorum-paced flow control."@, s.sender.flow_stalls),
        counter("uc2_overruns_total"@, "NAKs unservable from both ring and journal."@, s.sender.overruns),
        counter("uc2_heartbeats_sent_total"@, "HEARTBEAT datagrams sent."@, s.sender.heartbeats),
    ]
}

/// Families: datagrams and snapshot sessions.
pub open spec fn traffic_families(s: ObsSources) -> Seq<FamilyV> {
    seq![
        counter("uc2_sender_datagrams_total"@, "Total datagrams sent by this node's sender agent."@, s.sender.datagrams),
        counter("uc2_sender_bytes_total"@, "Total bytes sent by this node's sender agent."@, s.sender.bytes),
        counter("uc2_receiver_datagrams_total"@, "Total datagrams received by this node's receiver agent."@, s.receiver.datagrams),
        counter("uc2_receiver_bytes_total"@, "Total bytes received by this node's receiver agent."@, s.receiver.bytes),
        counter("uc2_snapshot_sessions_total"@, "Snapshot sessions opened (below-floor NAK upgrades)."@, s.sender.snap_sessions),
        counter("uc2_snapshot_chunks_total"@, "SNAP_CHUNK datagrams sent."@, s.sender.snap_chunks),
        counter("uc2_snapshot_chunk_naks_total"@, "SNAP_CHUNK datagrams sent to repair a peer NAK."@, s.sender.snap_chunk_naks),
    ]
}

/// Families: what the receiver dropped.
pub open spec fn drops_families(s: ObsSources) -> Seq<FamilyV> {
    seq![
        FamilyV { name: "uc2_receiver_dropped_total"@, help: "DATA datagrams dropped by the receiver, by reason."@, counter: true, samples: drop_samples(s.receiver) },
        counter("uc2_truncation_resyncs_total"@, "Times the receiver rebuilt its gap tracker after a reconciliation truncation."@, s.receiver.truncation_resyncs),
        counter("uc2_term_change_discards_total"@, "Times the receiver discarded out-of-order runs on a term change."@, s.receiver.term_change_discards),
        counter("uc2_counter_ahead_resyncs_total"@, "Times the receive frontier was rebased up to a counter that moved ahead of it."@, s.receiver.counter_ahead_resyncs),
        counter("uc2_net_event_drops_total"@, "Consensus events dropped because the route channel was full, summed across kinds."@, ingress::total(s.receiver.net_drops@) as u64),
    ]
}

/// Every family, in order.
pub open spec fn all_families(s: ObsSources) -> Seq<FamilyV> {
    identity_families(s) + settings_families(s) + positions_families(s) + derived_families(s) + peers_families(s) + incidents_families(s) + repairs_families(s) + traffic_families(s) + drops_families(s)
}

/// `key="value"`.
fn label_text(key: &str, value: &str) -> (s: String)
    ensures
        s@ == label(key@, value@),
{
    let mut s = key.to_owned();
    s.append("=\"");
    s.append(value);
    s.append("\"");
    s
}

/// Add a family.
fn push_family(
    out: &mut Vec<Family>,
    name: &'static str,
    help: &'static str,
    counter: bool,
    samples: Vec<Sample>,
)
    ensures
        families_view(final(out)@) == families_view(old(out)@).push(
            FamilyV { name: name@, help: help@, counter, samples: samples_view(samples@) },
        ),
{
    let ghost before = families_view(out@);
    out.push(Family { name, help, counter, samples });
    assert(families_view(out@) =~= before.push(
        FamilyV { name: name@, help: help@, counter, samples: samples_view(samples@) },
    ));
}

/// Add a family with one sample.
fn push_scalar(
    out: &mut Vec<Family>,
    name: &'static str,
    help: &'static str,
    counter: bool,
    value: String,
)
    ensures
        families_view(final(out)@) == families_view(old(out)@).push(
            scalar(name@, help@, counter, value@),
        ),
{
    let samples = vec![Sample { labels: None, value }];
    assert(samples_view(samples@) =~= seq![SampleV { labels: None, value: value@ }]);
    push_family(out, name, help, counter, samples);
}

/// Add a gauge.
fn push_gauge(out: &mut Vec<Family>, name: &'static str, help: &'static str, value: u64)
    ensures
        families_view(final(out)@) == families_view(old(out)@).push(gauge(name@, help@, value)),
{
    push_scalar(out, name, help, false, decimal(value));
}

/// Add a counter.
fn push_counter(out: &mut Vec<Family>, name: &'static str, help: &'static str, value: u64)
    ensures
        families_view(final(out)@) == families_view(old(out)@).push(counter(name@, help@, value)),
{
    push_scalar(out, name, help, true, decimal(value));
}

/// Add a gauge whose figure is given as text.
fn push_text(out: &mut Vec<Family>, name: &'static str, help: &'static str, value: &String)
    ensures
        families_view(final(out)@) == families_view(old(out)@).push(
            scalar(name@, help@, false, value@),
        ),
{
    push_scalar(out, name, help, false, value.clone());
}

/// The samples of the agents.
fn render_agents(agents: &Vec<(&'static str, bool)>) -> (r: Vec<Sample>)
    ensures
        samples_view(r@) == agent_samples(agents@),
{
    let mut r: Vec<Sample> = Vec::new();
    for i in 0..agents.len()
        invariant
            samples_view(r@) == agent_samples(agents@).take(i as int),
    {
        let ghost before = samples_view(r@);
        let s = Sample {
            labels: Some(label_text("agent", agents[i].0)),
            value: decimal(flag_value(!agents[i].1)),
        };
        assert(s@ =~= agent_samples(agents@)[i as int]);
        r.push(s);
        assert(samples_view(r@) =~= before.push(s@));
        assert(samples_view(r@) =~= agent_samples(agents@).take(i as int + 1));
    }
    assert(samples_view(r@) =~= agent_samples(agents@));
    r
}

/// The samples of a column of the peer band.
fn render_peers(c: Column, commit: u64, peers: &Vec<PeerSlot>) -> (r: Vec<Sample>)
    ensures
        samples_view(r@) == peer_samples(c, commit, peers@),
{
    let mut r: Vec<Sample> = Vec::new();
    assert(peers@.take(0) =~= Seq::<PeerSlot>::empty());
    assert(samples_view(r@) =~= Seq::<SampleV>::empty());
    for i in 0..peers.len()
        invariant
            samples_view(r@) == peer_samples(c, commit, peers@.take(i as int)),
    {
        let p = peers[i];
        let ghost before = samples_view(r@);
        assert(peers@.take(i as int + 1).drop_last() =~= peers@.take(i as int));
        match p.occupant {
            Some(o) => {
                let figure: u64 = match c {
                    Column::Reported => p.reported_durable,
                    Column::Lag => lag_bytes(commit, p.reported_durable),
                    Column::Limit => p.advertised_limit,
                };
                let id = decimal(o.0);
                let mut l = label_text("peer", id.as_str());
                l.push(',');
                let role = label_text("role", o.1.as_str());
                l.append(role.as_str());
                assert(l@ =~= label("peer"@, text::digits(o.0 as nat)) + seq![','] + label(
                    "role"@,
                    o.1.label(),
                ));
                let s = Sample { labels: Some(l), value: decimal(figure) };
                r.push(s);
                assert(samples_view(r@) =~= before.push(s@));
            },
            None => {},
        }
    }
    assert(peers@.take(peers@.len() as int) =~= peers@);
    r
}

/// A dropped-datagram sample.
fn render_drop(reason: &str, n: u64) -> (s: Sample)
    ensures
        s@ == drop_sample(reason@, n),
{
    Sample { labels: Some(label_text("reason", reason)), value: decimal(n) }
}

/// The samples of dropped datagrams.
fn render_drops(r: &FollowerStats) -> (v: Vec<Sample>)
    ensures
        samples_view(v@) == drop_samples(*r),
{
    let v = vec![
        render_drop("stale_term", r.dropped_stale_term),
        render_drop("dup", r.dropped_dup),
        render_drop("overrun", r.dropped_overrun),
        render_drop("malformed", r.dropped_malformed),
        render_drop("gated", r.dropped_gated),
        render_drop("straddle", r.dropped_straddle),
        render_drop("auth_failed", r.dropped_auth_failed),
        render_drop("replay", r.dropped_replay),
        render_drop("unknown_epoch", r.dropped_unknown_epoch),
        render_drop("unknown_peer", r.dropped_unknown_peer),
        render_drop("handshake", r.dropped_handshake),
    ];
    assert(samples_view(v@) =~= drop_samples(*r));
    v
}

/// Add the families: what the node is and how it stands.
fn push_identity(out: &mut Vec<Family>, s: &ObsSources)
    ensures
        families_view(final(out)@) == families_view(old(out)@) + identity_families(*s),
{
    let ghost before = families_view(out@);
    let version = vec![
        Sample { labels: Some(label_text("version", s.version.as_str())), value: decimal(1) },
    ];
    assert(samples_view(version@) =~= seq![
        SampleV { labels: Some(label("version"@, s.version@)), value: text::digits(1) },
    ]);
    push_family(out, "uc2_build_info", "Static build version info.", false, version);
    push_gauge(out, "uc2_node_id", "This node's configured id.", s.node_id as u64);
    push_gauge(out, "uc2_is_leader", "1 if this node currently holds NODE_FLAG_LEADER.", flag_value(s.status.leader));
    push_gauge(out, "uc2_can_serve", "1 if this node currently holds NODE_FLAG_CAN_SERVE.", flag_value(s.status.can_serve));
    push_gauge(out, "uc2_term", "Current consensus term.", s.status.term);
    if s.status.leader_hint != LEADER_UNKNOWN {
        push_gauge(out, "uc2_leader_hint", "Last known leader node id.", s.status.leader_hint);
    }
    push_gauge(out, "uc2_config_version", "Adopted cluster-config version.", s.config_version);
    push_gauge(out, "uc2_config_pending", "1 if a config change is uncommitted.", s.config_pending);
    assert(families_view(out@) =~= before + identity_families(*s));
}

/// Add the families: how the node is set up, and its agents.
fn push_settings(out: &mut Vec<Family>, s: &ObsSources)
    ensures
        families_view(final(out)@) == families_view(old(out)@) + settings_families(*s),
{
    let ghost before = families_view(out@);
    push_gauge(out, "uc2_crypto_enabled", "1 if wire crypto (M8) is enabled on this node.", flag_value(s.crypto_enabled));
    push_gauge(out, "uc2_purge_enabled", "1 if journal/log purge is enabled on this node.", flag_value(s.purge_enabled));
    push_gauge(out, "uc2_admission_bytes", "Configured admission window in bytes.", s.admission_bytes);
    push_gauge(out, "uc2_journal_segment_bytes", "Configured journal segment size in bytes.", s.journal_segment_bytes);
    push_family(out, "uc2_agent_alive", "1 if the named polling agent's worker loop is still running.", false, render_agents(&s.agents));
    assert(families_view(out@) =~= before + settings_families(*s));
}

/// Add the families: the positions of log, service and snapshots.
fn push_positions(out: &mut Vec<Family>, s: &ObsSources)
    ensures
        families_view(final(out)@) == families_view(old(out)@) + positions_families(*s),
{
    let ghost before = families_view(out@);
    push_gauge(out, "uc2_append_bytes", "Local append counter.", s.counters.append);
    push_gauge(out, "uc2_durable_bytes", "Local archive-durable counter.", s.counters.durable);
    push_gauge(out, "uc2_sent_bytes", "Local replication-sent counter.", s.counters.sent);
    push_gauge(out, "uc2_commit_bytes", "Cluster commit counter.", s.counters.commit);
    push_gauge(out, "uc2_service_applied_bytes", "Position the service state machine has applied through.", s.service.applied);
    push_gauge(out, "uc2_service_epoch", "Service incarnation counter, bumped each service attach.", s.service.epoch);
    push_gauge(out, "uc2_output_completed_bytes", "Durable (increase-only) output-handler progress marker.", s.service.output_completed);
    push_gauge(out, "uc2_output_progress_bytes", "Node-observed output-handler progress marker.", s.status.output_progress);
    assert(families_view(out@) =~= before + positions_families(*s));
}

/// Add the families: snapshots, lags and ages.
fn push_derived(out: &mut Vec<Family>, s: &ObsSources)
    ensures
        families_view(final(out)@) == families_view(old(out)@) + derived_families(*s),
{
    let ghost before = families_view(out@);
    push_gauge(out, "uc2_service_snapshot_pos_bytes", "Position of the newest complete service-built snapshot (0 = none).", s.snapshots.service_pos);
    push_gauge(out, "uc2_node_snapshot_floor_bytes", "Node-side mirror of the snapshot floor the purge driver honors.", s.snapshots.node_floor);
    push_gauge(out, "uc2_incoming_snapshot_pos_bytes", "Position of the newest complete inbound snapshot this node landed.", s.snapshots.incoming_pos);
    push_gauge(out, "uc2_archive_first_base_bytes", "The archive's first-retained log position (purge floor).", s.archive_first_base);
    push_gauge(out, "uc2_commit_lag_bytes", "append - commit: bytes appended locally but not yet cluster-committed.", lag_bytes(s.counters.append, s.counters.commit));
    push_gauge(out, "uc2_apply_lag_bytes", "commit - service_applied: bytes committed but not yet applied.", lag_bytes(s.counters.commit, s.service.applied));
    push_text(out, "uc2_admission_saturation", "commit_lag / admission_bytes; how full the admission window is.", &s.ratios.admission_saturation);
    push_text(out, "uc2_node_heartbeat_age_seconds", "Seconds since this node's own heartbeat was last stamped (a never-written heartbeat reads as a huge age, by design).", &s.ratios.node_heartbeat_age);
    push_text(out, "uc2_service_heartbeat_age_seconds", "Seconds since the attached service's heartbeat was last stamped (a never-written heartbeat reads as a huge age, by design).", &s.ratios.service_heartbeat_age);
    assert(families_view(out@) =~= before + derived_families(*s));
}

/// Add the families: what the peers report.
fn push_peers(out: &mut Vec<Family>, s: &ObsSources)
    ensures
        families_view(final(out)@) == families_view(old(out)@) + peers_families(*s),
{
    let ghost before = families_view(out@);
    push_family(out, "uc2_peer_reported_durable_bytes", "Newest durable position this peer last reported.", false, render_peers(Column::Reported, s.counters.commit, &s.peers));
    push_family(out, "uc2_peer_replication_lag_bytes", "commit - peer's reported_durable.", false, render_peers(Column::Lag, s.counters.commit, &s.peers));
    push_family(out, "uc2_peer_advertised_limit_bytes", "The receive window this peer last advertised.", false, render_peers(Column::Limit, s.counters.commit, &s.peers));
    assert(families_view(out@) =~= before + peers_families(*s));
}

/// Add the families: what went wrong.
fn push_incidents(out: &mut Vec<Family>, s: &ObsSources)
    ensures
        families_view(final(out)@) == families_view(old(out)@) + incidents_families(*s),
{
    let ghost before = families_view(out@);
    push_counter(out, "uc2_truncations_total", "Times this node truncated its own uncommitted log tail.", s.truncations);
    push_counter(out, "uc2_wipes_total", "Times this node wiped and rejoined (NoCommonPrefix).", s.wipes);
    push_counter(out, "uc2_reports_unattested_total", "Durable reports declined for lacking a wire-0.5.0 term attestation.", s.reports_unattested);
    push_counter(out, "uc2_reports_implausible_total", "Durable reports declined for disagreeing with this node's term map.", s.reports_implausible);
    push_counter(out, "uc2_crypto_handshake_failures_total", "M8 Noise IK handshake failures.", s.crypto_handshake_failures);
    push_counter(out, "uc2_sender_seal_failures_total", "Outgoing datagrams the sender could not seal (M8).", s.sender.seal_failures);
    push_counter(out, "uc2_receiver_seal_failures_total", "Outgoing datagrams the receiver could not seal (M8).", s.receiver.seal_failures);
    push_counter(out, "uc2_unknown_source_datagrams_total", "Sealed datagrams from a SocketAddr with no known peer id.", s.receiver.dropped_unknown_peer);
    push_counter(out, "uc2_cleartext_peer_datagrams_total", "Datagrams that look like the flag-day cleartext-vs-crypto mismatch.", s.receiver.peer_appears_cleartext);
    assert(families_view(out@) =~= before + incidents_families(*s));
}

/// Add the families: repair and flow.
fn push_repairs(out: &mut Vec<Family>, s: &ObsSources)
    ensures
        families_view(final(out)@) == families_view(old(out)@) + repairs_families(*s),
{
    let ghost before = families_view(out@);
    push_counter(out, "uc2_naks_sent_total", "NAKs this follower sent requesting repair.", s.receiver.naks_sent);
    push_counter(out, "uc2_naks_served_total", "NAKs this sender served from the ring.", s.sender.naks_served);
    push_counter(out, "uc2_naks_dropped_total", "NAK requests dropped because the queue was full.", s.sender.naks_dropped);
    push_counter(out, "uc2_naks_rejected_total", "NAK positions rejected as not a frame boundary.", s.sender.naks_rejected);
    push_counter(out, "uc2_replay_datagrams_total", "DATA datagrams retransmitted from the journal (deep NAK).", s.sender.replay_datagrams);
    push_counter(out, "uc2_flow_stalls_total", "Times the sender stalled on quorum-paced flow control.", s.sender.flow_stalls);
    push_counter(out, "uc2_overruns_total", "NAKs unservable from both ring and journal.", s.sender.overruns);
    push_counter(out, "uc2_heartbeats_sent_total", "HEARTBEAT datagrams sent.", s.sender.heartbeats);
    assert(families_view(out@) =~= before + repairs_families(*s));
}

/// Add the families: datagrams and snapshot sessions.
fn push_traffic(out: &mut Vec<Family>, s: &ObsSources)
    ensures
        families_view(final(out)@) == families_view(old(out)@) + traffic_families(*s),
{
    let ghost before = families_view(out@);
    push_counter(out, "uc2_sender_datagrams_total", "Total datagrams sent by this node's sender agent.", s.sender.datagrams);
    push_counter(out, "uc2_sender_bytes_total", "Total bytes sent by this node's sender agent.", s.sender.bytes);
    push_counter(out, "uc2_receiver_datagrams_total", "Total datagrams received by this node's receiver agent.", s.receiver.datagrams);
    push_counter(out, "uc2_receiver_bytes_total", "Total bytes received by this node's receiver agent.", s.receiver.bytes);
    push_counter(out, "uc2_snapshot_sessions_total", "Snapshot sessions opened (below-floor NAK upgrades).", s.sender.snap_sessions);
    push_counter(out, "uc2_snapshot_chunks_total", "SNAP_CHUNK datagrams sent.", s.sender.snap_chunks);
    push_counter(out, "uc2_snapshot_chunk_naks_total", "SNAP_CHUNK datagrams sent to repair a peer NAK.", s.sender.snap_chunk_naks);
    assert(families_view(out@) =~= before + traffic_families(*s));
}

/// Add the families: what the receiver dropped.
fn push_drops(out: &mut Vec<Family>, s: &ObsSources)
    requires
        ingress::total(s.receiver.net_drops@) <= u64::MAX,
    ensures
        families_view(final(out)@) == families_view(old(out)@) + drops_families(*s),
{
    let ghost before = families_view(out@);
    push_family(out, "uc2_receiver_dropped_total", "DATA datagrams dropped by the receiver, by reason.", true, render_drops(&s.receiver));
    push_counter(out, "uc2_truncation_resyncs_total", "Times the receiver rebuilt its gap tracker after a reconciliation truncation.", s.receiver.truncation_resyncs);
    push_counter(out, "uc2_term_change_discards_total", "Times the receiver discarded out-of-order runs on a term change.", s.receiver.term_change_discards);
    push_counter(out, "uc2_counter_ahead_resyncs_total", "Times the receive frontier was rebased up to a counter that moved ahead of it.", s.receiver.counter_ahead_resyncs);
    push_counter(out, "uc2_net_event_drops_total", "Consensus events dropped because the route channel was full, summed across kinds.", net_event_drops(&s.receiver.net_drops));
    assert(families_view(out@) =~= before + drops_families(*s));
}

/// Append a sample's line.
fn push_sample(out: &mut String, name: &str, s: &Sample)
    ensures
        final(out)@ == old(out)@ + sample_text(name@, s@),
{
    out.append(name);
    match &s.labels {
        Some(l) => {
            out.push('{');
            out.append(l.as_str());
            out.push('}');
        },
        None => {},
    }
    out.push(' ');
    out.append(s.value.as_str());
    out.push('\n');
    assert(out@ =~= old(out)@ + sample_text(name@, s@));
}

/// Append a family's lines.
fn push_family_lines(out: &mut String, f: &Family)
    ensures
        final(out)@ == old(out)@ + family_text(f@),
{
    out.append("# HELP ");
    out.append(f.name);
    out.push(' ');
    out.append(f.help);
    out.push('\n');
    out.append("# TYPE ");
    out.append(f.name);
    out.push(' ');
    if f.counter {
        out.append("counter");
    } else {
        out.append("gauge");
    }
    out.push('\n');
    let ghost head = out@;
    let ghost sv = samples_view(f.samples@);
    assert(sv.take(0) =~= Seq::<SampleV>::empty());
    for i in 0..f.samples.len()
        invariant
            sv == samples_view(f.samples@),
            out@ == head + samples_text(f.name@, sv.take(i as int)),
    {
        assert(sv.take(i as int + 1).drop_last() =~= sv.take(i as int));
        push_sample(out, f.name, &f.samples[i]);
        assert(out@ =~= head + samples_text(f.name@, sv.take(i as int + 1)));
    }
    assert(sv.take(sv.len() as int) =~= sv);
    assert(out@ =~= old(out)@ + family_text(f@));
}

/// Every family of a reading.
pub fn collect(s: &ObsSources) -> (v: Vec<Family>)
    requires
        ingress::total(s.receiver.net_drops@) <= u64::MAX,
    ensures
        families_view(v@) == all_families(*s),
{
    let mut v: Vec<Family> = Vec::new();
    assert(families_view(v@) =~= Seq::<FamilyV>::empty());
    push_identity(&mut v, s);
    push_settings(&mut v, s);
    push_positions(&mut v, s);
    push_derived(&mut v, s);
    push_peers(&mut v, s);
    push_incidents(&mut v, s);
    push_repairs(&mut v, s);
    push_traffic(&mut v, s);
    push_drops(&mut v, s);
    assert(families_view(v@) =~= all_families(*s));
    v
}

/// The metrics of a reading, in the Prometheus text format.
pub fn render_prometheus(s: &ObsSources) -> (out: String)
    requires
        ingress::total(s.receiver.net_drops@) <= u64::MAX,
    ensures
        out@ == families_text(all_families(*s)),
{
    let v = collect(s);
    let ghost fv = families_view(v@);
    let mut out = String::new();
    assert(fv.take(0) =~= Seq::<FamilyV>::empty());
    for i in 0..v.len()
        invariant
            fv == families_view(v@),
            out@ == families_text(fv.take(i as int)),
    {
        assert(fv.take(i as int + 1).drop_last() =~= fv.take(i as int));
        push_family_lines(&mut out, &v[i]);
    }
    assert(fv.take(fv.len() as int) =~= fv);
    out
}

/// The names of families.
pub open spec fn names(s: Seq<FamilyV>) -> Seq<Seq<char>> {
    s.map_values(|f: FamilyV| f.name)
}

/// The name of every family there is, in rendering order.
pub open spec fn contract_names() -> Seq<Seq<char>> {
    seq![
        "uc2_build_info"@,
        "uc2_node_id"@,
        "uc2_is_leader"@,
        "uc2_can_serve"@,
        "uc2_term"@,
        "uc2_leader_hint"@,
        "uc2_config_version"@,
        "uc2_config_pending"@,
        "uc2_crypto_enabled"@,
        "uc2_purge_enabled"@,
        "uc2_admission_bytes"@,
        "uc2_journal_segment_bytes"@,
        "uc2_agent_alive"@,
        "uc2_append_bytes"@,
        "uc2_durable_bytes"@,
        "uc2_sent_bytes"@,
        "uc2_commit_bytes"@,
        "uc2_service_applied_bytes"@,
        "uc2_service_epoch"@,
        "uc2_output_completed_bytes"@,
        "uc2_output_progress_bytes"@,
        "uc2_service_snapshot_pos_bytes"@,
        "uc2_node_snapshot_floor_bytes"@,
        "uc2_incoming_snapshot_pos_bytes"@,
        "uc2_archive_first_base_bytes"@,
        "uc2_commit_lag_bytes"@,
        "uc2_apply_lag_bytes"@,
        "uc2_admission_saturation"@,
        "uc2_node_heartbeat_age_seconds"@,
        "uc2_service_heartbeat_age_seconds"@,
        "uc2_peer_reported_durable_bytes"@,
        "uc2_peer_replication_lag_bytes"@,
        "uc2_peer_advertised_limit_bytes"@,
        "uc2_truncations_total"@,
        "uc2_wipes_total"@,
        "uc2_reports_unattested_total"@,
        "uc2_reports_implausible_total"@,
        "uc2_crypto_handshake_failures_total"@,
        "uc2_sender_seal_failures_total"@,
        "uc2_receiver_seal_failures_total"@,
        "uc2_unknown_source_datagrams_total"@,
        "uc2_cleartext_peer_datagrams_total"@,
        "uc2_naks_sent_total"@,
        "uc2_naks_served_total"@,
        "uc2_naks_dropped_total"@,
        "uc2_naks_rejected_total"@,
        "uc2_replay_datagrams_total"@,
        "uc2_flow_stalls_total"@,
        "uc2_overruns_total"@,
        "uc2_heartbeats_sent_total"@,
        "uc2_sender_datagrams_total"@,
        "uc2_sender_bytes_total"@,
        "uc2_receiver_datagrams_total"@,
        "uc2_receiver_bytes_total"@,
        "uc2_snapshot_sessions_total"@,
        "uc2_snapshot_chunks_total"@,
        "uc2_snapshot_chunk_naks_total"@,
        "uc2_receiver_dropped_total"@,
        "uc2_truncation_resyncs_total"@,
        "uc2_term_change_discards_total"@,
        "uc2_counter_ahead_resyncs_total"@,
        "uc2_net_event_drops_total"@,
    ]
}

/// The name of every family there is, in rendering order. Alert rules refer
/// to these.
pub fn contract_series() -> (v: Vec<&'static str>)
    ensures
        v@.map_values(|n: &'static str| n@) == contract_names(),
{
    let v = vec![
        "uc2_build_info",
        "uc2_node_id",
        "uc2_is_leader",
        "uc2_can_serve",
        "uc2_term",
        "uc2_leader_hint",
        "uc2_config_version",
        "uc2_config_pending",
        "uc2_crypto_enabled",
        "uc2_purge_enabled",
        "uc2_admission_bytes",
        "uc2_journal_segment_bytes",
        "uc2_agent_alive",
        "uc2_append_bytes",
        "uc2_durable_bytes",
        "uc2_sent_bytes",
        "uc2_commit_bytes",
        "uc2_service_applied_bytes",
        "uc2_service_epoch",
        "uc2_output_completed_bytes",
        "uc2_output_progress_bytes",
        "uc2_service_snapshot_pos_bytes",
        "uc2_node_snapshot_floor_bytes",
        "uc2_incoming_snapshot_pos_bytes",
        "uc2_archive_first_base_bytes",
        "uc2_commit_lag_bytes",
        "uc2_apply_lag_bytes",
        "uc2_admission_saturation",
        "uc2_node_heartbeat_age_seconds",
        "uc2_service_heartbeat_age_seconds",
        "uc2_peer_reported_durable_bytes",
        "uc2_peer_replication_lag_bytes",
        "uc2_peer_advertised_limit_bytes",
        "uc2_truncations_total",
        "uc2_wipes_total",
        "uc2_reports_unattested_total",
        "uc2_reports_implausible_total",
        "uc2_crypto_handshake_failures_total",
        "uc2_sender_seal_failures_total",
        "uc2_receiver_seal_failures_total",
        "uc2_unknown_source_datagrams_total",
        "uc2_cleartext_peer_datagrams_total",
        "uc2_naks_sent_total",
        "uc2_naks_served_total",
        "uc2_naks_dropped_total",
        "uc2_naks_rejected_total",
        "uc2_replay_datagrams_total",
        "uc2_flow_stalls_total",
        "uc2_overruns_total",
        "uc2_heartbeats_sent_total",
        "uc2_sender_datagrams_total",
        "uc2_sender_bytes_total",
        "uc2_receiver_datagrams_total",
        "uc2_receiver_bytes_total",
        "uc2_snapshot_sessions_total",
        "uc2_snapshot_chunks_total",
        "uc2_snapshot_chunk_naks_total",
        "uc2_receiver_dropped_total",
        "uc2_truncation_resyncs_total",
        "uc2_term_change_discards_total",
        "uc2_counter_ahead_resyncs_total",
        "uc2_net_event_drops_total",
    ];
    assert(v@.map_values(|n: &'static str| n@) =~= contract_names());
    v
}

/// A reading with a known leader renders every family of the contract, each
/// once and in order.
pub proof fn law_every_series_is_rendered(s: ObsSources)
    requires
        s.status.leader_hint != LEADER_UNKNOWN,
    ensures
        names(all_families(s)) == contract_names(),
{
    assert(names(all_families(s)) =~= contract_names());
}

/// Without a known leader everything is rendered but its hint.
pub proof fn law_unknown_leader_has_no_series(s: ObsSources)
    requires
        s.status.leader_hint == LEADER_UNKNOWN,
    ensures
        names(all_families(s)) == contract_names().remove(5),
        contract_names()[5] == "uc2_leader_hint"@,
{
    assert(names(all_families(s)) =~= contract_names().remove(5));
}

/// A peer band shows as many samples as it has occupied slots.
pub proof fn law_empty_slots_are_not_shown(c: Column, commit: u64, peers: Seq<PeerSlot>)
    ensures
        peer_samples(c, commit, peers).len() == peers.filter(
            |p: PeerSlot| p.occupant is Some,
        ).len(),
    decreases peers.len(),
{
    reveal(Seq::filter);
    if peers.len() > 0 {
        law_empty_slots_are_not_shown(c, commit, peers.drop_last());
    }
}

/// Whether a family of that name and type holds just the one sample `value`,
/// without labels.
pub open spec fn series(fs: Seq<FamilyV>, name: Seq<char>, counter: bool, value: Seq<char>) -> bool {
    exists|i: int| 0 <= i < fs.len() && #[trigger] is_series(fs[i], name, counter, value)
}

/// Whether a family is that of one sample without labels.
pub open spec fn is_series(f: FamilyV, name: Seq<char>, counter: bool, value: Seq<char>) -> bool {
    &&& f.name == name
    &&& f.counter == counter
    &&& f.samples.len() == 1
    &&& f.samples[0].labels is None
    &&& f.samples[0].value == value
}

proof fn lemma_series_at(
    p: Seq<FamilyV>,
    g: Seq<FamilyV>,
    q: Seq<FamilyV>,
    i: int,
    name: Seq<char>,
    counter: bool,
    value: Seq<char>,
)
    requires
        0 <= i < g.len(),
        is_series(g[i], name, counter, value),
    ensures
        series(p + g + q, name, counter, value),
{
    assert((p + g + q)[p.len() + i] == g[i]);
    assert(is_series((p + g + q)[p.len() + i], name, counter, value));
}

/// What the node is and how it stands is shown under its own names.
pub proof fn law_identity_series_show_the_status(s: ObsSources)
    ensures
        series(all_families(s), "uc2_node_id"@, false, text::digits((s.node_id as u64) as nat)),
        series(all_families(s), "uc2_is_leader"@, false, (if s.status.leader { "1"@ } else { "0"@ })),
        series(all_families(s), "uc2_can_serve"@, false, (if s.status.can_serve { "1"@ } else { "0"@ })),
        series(all_families(s), "uc2_term"@, false, text::digits(s.status.term as nat)),
        s.status.leader_hint != u64::MAX ==> series(all_families(s), "uc2_leader_hint"@, false, text::digits(s.status.leader_hint as nat)),
        series(all_families(s), "uc2_config_version"@, false, text::digits(s.config_version as nat)),
        series(all_families(s), "uc2_config_pending"@, false, text::digits(s.config_pending as nat)),
{
    law_flags_are_zero_or_one(true);
    law_flags_are_zero_or_one(false);
    let p = Seq::<FamilyV>::empty();
    let g = identity_families(s);
    let q = settings_families(s) + positions_families(s) + derived_families(s) + peers_families(s) + incidents_families(s) + repairs_families(s) + traffic_families(s) + drops_families(s);
    let all = all_families(s);
    assert(all =~= p + g + q);
    let h: int = if s.status.leader_hint != u64::MAX {
        1
    } else {
        0
    };
    lemma_series_at(p, g, q, 1, "uc2_node_id"@, false, text::digits((s.node_id as u64) as nat));
    lemma_series_at(p, g, q, 2, "uc2_is_leader"@, false, (if s.status.leader { "1"@ } else { "0"@ }));
    lemma_series_at(p, g, q, 3, "uc2_can_serve"@, false, (if s.status.can_serve { "1"@ } else { "0"@ }));
    lemma_series_at(p, g, q, 4, "uc2_term"@, false, text::digits(s.status.term as nat));
    if s.status.leader_hint != u64::MAX {
        lemma_series_at(p, g, q, 5, "uc2_leader_hint"@, false, text::digits(s.status.leader_hint as nat));
    }
    lemma_series_at(p, g, q, 5 + h, "uc2_config_version"@, false, text::digits(s.config_version as nat));
    lemma_series_at(p, g, q, 6 + h, "uc2_config_pending"@, false, text::digits(s.config_pending as nat));
}

/// How the node is set up is shown under its own names.
pub proof fn law_settings_series_show_the_settings(s: ObsSources)
    ensures
        series(all_families(s), "uc2_crypto_enabled"@, false, (if s.crypto_enabled { "1"@ } else { "0"@ })),
        series(all_families(s), "uc2_purge_enabled"@, false, (if s.purge_enabled { "1"@ } else { "0"@ })),
        series(all_families(s), "uc2_admission_bytes"@, false, text::digits(s.admission_bytes as nat)),
        series(all_families(s), "uc2_journal_segment_bytes"@, false, text::digits(s.journal_segment_bytes as nat)),
{
    law_flags_are_zero_or_one(true);
    law_flags_are_zero_or_one(false);
    let p = identity_families(s);
    let g = settings_families(s);
    let q = positions_families(s) + derived_families(s) + peers_families(s) + incidents_families(s) + repairs_families(s) + traffic_families(s) + drops_families(s);
    let all = all_families(s);
    assert(all =~= p + g + q);
    lemma_series_at(p, g, q, 0, "uc2_crypto_enabled"@, false, (if s.crypto_enabled { "1"@ } else { "0"@ }));
    lemma_series_at(p, g, q, 1, "uc2_purge_enabled"@, false, (if s.purge_enabled { "1"@ } else { "0"@ }));
    lemma_series_at(p, g, q, 2, "uc2_admission_bytes"@, false, text::digits(s.admission_bytes as nat));
    lemma_series_at(p, g, q, 3, "uc2_journal_segment_bytes"@, false, text::digits(s.journal_segment_bytes as nat));
}

/// Every position is shown under the name of its own counter.
pub proof fn law_position_series_show_the_counters(s: ObsSources)
    ensures
        series(all_families(s), "uc2_append_bytes"@, false, text::digits(s.counters.append as nat)),
        series(all_families(s), "uc2_durable_bytes"@, false, text::digits(s.counters.durable as nat)),
        series(all_families(s), "uc2_sent_bytes"@, false, text::digits(s.counters.sent as nat)),
        series(all_families(s), "uc2_commit_bytes"@, false, text::digits(s.counters.commit as nat)),
        series(all_families(s), "uc2_service_applied_bytes"@, false, text::digits(s.service.applied as nat)),
        series(all_families(s), "uc2_service_epoch"@, false, text::digits(s.service.epoch as nat)),
        series(all_families(s), "uc2_output_completed_bytes"@, false, text::digits(s.service.output_completed as nat)),
        series(all_families(s), "uc2_output_progress_bytes"@, false, text::digits(s.status.output_progress as nat)),
{
    let p = identity_families(s) + settings_families(s);
    let g = positions_families(s);
    let q = derived_families(s) + peers_families(s) + incidents_families(s) + repairs_families(s) + traffic_families(s) + drops_families(s);
    let all = all_families(s);
    assert(all =~= p + g + q);
    lemma_series_at(p, g, q, 0, "uc2_append_bytes"@, false, text::digits(s.counters.append as nat));
    lemma_series_at(p, g, q, 1, "uc2_durable_bytes"@, false, text::digits(s.counters.durable as nat));
    lemma_series_at(p, g, q, 2, "uc2_sent_bytes"@, false, text::digits(s.counters.sent as nat));
    lemma_series_at(p, g, q, 3, "uc2_commit_bytes"@, false, text::digits(s.counters.commit as nat));
    lemma_series_at(p, g, q, 4, "uc2_service_applied_bytes"@, false, text::digits(s.service.applied as nat));
    lemma_series_at(p, g, q, 5, "uc2_service_epoch"@, false, text::digits(s.service.epoch as nat));
    lemma_series_at(p, g, q, 6, "uc2_output_completed_bytes"@, false, text::digits(s.service.output_completed as nat));
    lemma_series_at(p, g, q, 7, "uc2_output_progress_bytes"@, false, text::digits(s.status.output_progress as nat));
}

/// Snapshot positions, the two lags and the three fractions are shown under
/// their own names: the commit behind the append, and the service behind the
/// commit.
pub proof fn law_derived_series_show_the_lags(s: ObsSources)
    ensures
        series(all_families(s), "uc2_service_snapshot_pos_bytes"@, false, text::digits(s.snapshots.service_pos as nat)),
        series(all_families(s), "uc2_node_snapshot_floor_bytes"@, false, text::digits(s.snapshots.node_floor as nat)),
        series(all_families(s), "uc2_incoming_snapshot_pos_bytes"@, false, text::digits(s.snapshots.incoming_pos as nat)),
        series(all_families(s), "uc2_archive_first_base_bytes"@, false, text::digits(s.archive_first_base as nat)),
        series(all_families(s), "uc2_commit_lag_bytes"@, false, text::digits(if s.counters.append >= s.counters.commit { (s.counters.append - s.counters.commit) as nat } else { 0 })),
        series(all_families(s), "uc2_apply_lag_bytes"@, false, text::digits(if s.counters.commit >= s.service.applied { (s.counters.commit - s.service.applied) as nat } else { 0 })),
        series(all_families(s), "uc2_admission_saturation"@, false, s.ratios.admission_saturation@),
        series(all_families(s), "uc2_node_heartbeat_age_seconds"@, false, s.ratios.node_heartbeat_age@),
        series(all_families(s), "uc2_service_heartbeat_age_seconds"@, false, s.ratios.service_heartbeat_age@),
{
    let p = identity_families(s) + settings_families(s) + positions_families(s);
    let g = derived_families(s);
    let q = peers_families(s) + incidents_families(s) + repairs_families(s) + traffic_families(s) + drops_families(s);
    let all = all_families(s);
    assert(all =~= p + g + q);
    lemma_series_at(p, g, q, 0, "uc2_service_snapshot_pos_bytes"@, false, text::digits(s.snapshots.service_pos as nat));
    lemma_series_at(p, g, q, 1, "uc2_node_snapshot_floor_bytes"@, false, text::digits(s.snapshots.node_floor as nat));
    lemma_series_at(p, g, q, 2, "uc2_incoming_snapshot_pos_bytes"@, false, text::digits(s.snapshots.incoming_pos as nat));
    lemma_series_at(p, g, q, 3, "uc2_archive_first_base_bytes"@, false, text::digits(s.archive_first_base as nat));
    lemma_series_at(p, g, q, 4, "uc2_commit_lag_bytes"@, false, text::digits(if s.counters.append >= s.counters.commit { (s.counters.append - s.counters.commit) as nat } else { 0 }));
    lemma_series_at(p, g, q, 5, "uc2_apply_lag_bytes"@, false, text::digits(if s.counters.commit >= s.service.applied { (s.counters.commit - s.service.applied) as nat } else { 0 }));
    lemma_series_at(p, g, q, 6, "uc2_admission_saturation"@, false, s.ratios.admission_saturation@);
    lemma_series_at(p, g, q, 7, "uc2_node_heartbeat_age_seconds"@, false, s.ratios.node_heartbeat_age@);
    lemma_series_at(p, g, q, 8, "uc2_service_heartbeat_age_seconds"@, false, s.ratios.service_heartbeat_age@);
}

/// What went wrong is counted under the name of what it was.
pub proof fn law_incident_series_show_their_counts(s: ObsSources)
    ensures
        series(all_families(s), "uc2_truncations_total"@, true, text::digits(s.truncations as nat)),
        series(all_families(s), "uc2_wipes_total"@, true, text::digits(s.wipes as nat)),
        series(all_families(s), "uc2_reports_unattested_total"@, true, text::digits(s.reports_unattested as nat)),
        series(all_families(s), "uc2_reports_implausible_total"@, true, text::digits(s.reports_implausible as nat)),
        series(all_families(s), "uc2_crypto_handshake_failures_total"@, true, text::digits(s.crypto_handshake_failures as nat)),
        series(all_families(s), "uc2_sender_seal_failures_total"@, true, text::digits(s.sender.seal_failures as nat)),
        series(all_families(s), "uc2_receiver_seal_failures_total"@, true, text::digits(s.receiver.seal_failures as nat)),
        series(all_families(s), "uc2_unknown_source_datagrams_total"@, true, text::digits(s.receiver.dropped_unknown_peer as nat)),
        series(all_families(s), "uc2_cleartext_peer_datagrams_total"@, true, text::digits(s.receiver.peer_appears_cleartext as nat)),
{
    let p = identity_families(s) + settings_families(s) + positions_families(s) + derived_families(s) + peers_families(s);
    let g = incidents_families(s);
    let q = repairs_families(s) + traffic_families(s) + drops_families(s);
    let all = all_families(s);
    assert(all =~= p + g + q);
    lemma_series_at(p, g, q, 0, "uc2_truncations_total"@, true, text::digits(s.truncations as nat));
    lemma_series_at(p, g, q, 1, "uc2_wipes_total"@, true, text::digits(s.wipes as nat));
    lemma_series_at(p, g, q, 2, "uc2_reports_unattested_total"@, true, text::digits(s.reports_unattested as nat));
    lemma_series_at(p, g, q, 3, "uc2_reports_implausible_total"@, true, text::digits(s.reports_implausible as nat));
    lemma_series_at(p, g, q, 4, "uc2_crypto_handshake_failures_total"@, true, text::digits(s.crypto_handshake_failures as nat));
    lemma_series_at(p, g, q, 5, "uc2_sender_seal_failures_total"@, true, text::digits(s.sender.seal_failures as nat));
    lemma_series_at(p, g, q, 6, "uc2_receiver_seal_failures_total"@, true, text::digits(s.receiver.seal_failures as nat));
    lemma_series_at(p, g, q, 7, "uc2_unknown_source_datagrams_total"@, true, text::digits(s.receiver.dropped_unknown_peer as nat));
    lemma_series_at(p, g, q, 8, "uc2_cleartext_peer_datagrams_total"@, true, text::digits(s.receiver.peer_appears_cleartext as nat));
}

/// Repair and flow are counted under their own names.
pub proof fn law_repair_series_show_their_counts(s: ObsSources)
    ensures
        series(all_families(s), "uc2_naks_sent_total"@, true, text::digits(s.receiver.naks_sent as nat)),
        series(all_families(s), "uc2_naks_served_total"@, true, text::digits(s.sender.naks_served as nat)),
        series(all_families(s), "uc2_naks_dropped_total"@, true, text::digits(s.sender.naks_dropped as nat)),
        series(all_families(s), "uc2_naks_rejected_total"@, true, text::digits(s.sender.naks_rejected as nat)),
        series(all_families(s), "uc2_replay_datagrams_total"@, true, text::digits(s.sender.replay_datagrams as nat)),
        series(all_families(s), "uc2_flow_stalls_total"@, true, text::digits(s.sender.flow_stalls as nat)),
        series(all_families(s), "uc2_overruns_total"@, true, text::digits(s.sender.overruns as nat)),
        series(all_families(s), "uc2_heartbeats_sent_total"@, true, text::digits(s.sender.heartbeats as nat)),
{
    let p = identity_families(s) + settings_families(s) + positions_families(s) + derived_families(s) + peers_families(s) + incidents_families(s);
    let g = repairs_families(s);
    let q = traffic_families(s) + drops_families(s);
    let all = all_families(s);
    assert(all =~= p + g + q);
    lemma_series_at(p, g, q, 0, "uc2_naks_sent_total"@, true, text::digits(s.receiver.naks_sent as nat));
    lemma_series_at(p, g, q, 1, "uc2_naks_served_total"@, true, text::digits(s.sender.naks_served as nat));
    lemma_series_at(p, g, q, 2, "uc2_naks_dropped_total"@, true, text::digits(s.sender.naks_dropped as nat));
    lemma_series_at(p, g, q, 3, "uc2_naks_rejected_total"@, true, text::digits(s.sender.naks_rejected as nat));
    lemma_series_at(p, g, q, 4, "uc2_replay_datagrams_total"@, true, text::digits(s.sender.replay_datagrams as nat));
    lemma_series_at(p, g, q, 5, "uc2_flow_stalls_total"@, true, text::digits(s.sender.flow_stalls as nat));
    lemma_series_at(p, g, q, 6, "uc2_overruns_total"@, true, text::digits(s.sender.overruns as nat));
    lemma_series_at(p, g, q, 7, "uc2_heartbeats_sent_total"@, true, text::digits(s.sender.heartbeats as nat));
}

/// Datagrams and snapshot sessions are counted under their own names.
pub proof fn law_traffic_series_show_their_counts(s: ObsSources)
    ensures
        series(all_families(s), "uc2_sender_datagrams_total"@, true, text::digits(s.sender.datagrams as nat)),
        series(all_families(s), "uc2_sender_bytes_total"@, true, text::digits(s.sender.bytes as nat)),
        series(all_families(s), "uc2_receiver_datagrams_total"@, true, text::digits(s.receiver.datagrams as nat)),
        series(all_families(s), "uc2_receiver_bytes_total"@, true, text::digits(s.receiver.bytes as nat)),
        series(all_families(s), "uc2_snapshot_sessions_total"@, true, text::digits(s.sender.snap_sessions as nat)),
        series(all_families(s), "uc2_snapshot_chunks_total"@, true, text::digits(s.sender.snap_chunks as nat)),
        series(all_families(s), "uc2_snapshot_chunk_naks_total"@, true, text::digits(s.sender.snap_chunk_naks as nat)),
{
    let p = identity_families(s) + settings_families(s) + positions_families(s) + derived_families(s) + peers_families(s) + incidents_families(s) + repairs_families(s);
    let g = traffic_families(s);
    let q = drops_families(s);
    let all = all_families(s);
    assert(all =~= p + g + q);
    lemma_series_at(p, g, q, 0, "uc2_sender_datagrams_total"@, true, text::digits(s.sender.datagrams as nat));
    lemma_series_at(p, g, q, 1, "uc2_sender_bytes_total"@, true, text::digits(s.sender.bytes as nat));
    lemma_series_at(p, g, q, 2, "uc2_receiver_datagrams_total"@, true, text::digits(s.receiver.datagrams as nat));
    lemma_series_at(p, g, q, 3, "uc2_receiver_bytes_total"@, true, text::digits(s.receiver.bytes as nat));
    lemma_series_at(p, g, q, 4, "uc2_snapshot_sessions_total"@, true, text::digits(s.sender.snap_sessions as nat));
    lemma_series_at(p, g, q, 5, "uc2_snapshot_chunks_total"@, true, text::digits(s.sender.snap_chunks as nat));
    lemma_series_at(p, g, q, 6, "uc2_snapshot_chunk_naks_total"@, true, text::digits(s.sender.snap_chunk_naks as nat));
}

/// What the receiver rebuilt and what the agent lost is counted under its own
/// name, events of every kind together.
pub proof fn law_drop_series_show_their_counts(s: ObsSources)
    ensures
        series(all_families(s), "uc2_truncation_resyncs_total"@, true, text::digits(s.receiver.truncation_resyncs as nat)),
        series(all_families(s), "uc2_term_change_discards_total"@, true, text::digits(s.receiver.term_change_discards as nat)),
        series(all_families(s), "uc2_counter_ahead_resyncs_total"@, true, text::digits(s.receiver.counter_ahead_resyncs as nat)),
        series(all_families(s), "uc2_net_event_drops_total"@, true, text::digits((ingress::total(s.receiver.net_drops@) as u64) as nat)),
{
    let p = identity_families(s) + settings_families(s) + positions_families(s) + derived_families(s) + peers_families(s) + incidents_families(s) + repairs_families(s) + traffic_families(s);
    let g = drops_families(s);
    let q = Seq::<FamilyV>::empty();
    let all = all_families(s);
    assert(all =~= p + g + q);
    lemma_series_at(p, g, q, 1, "uc2_truncation_resyncs_total"@, true, text::digits(s.receiver.truncation_resyncs as nat));
    lemma_series_at(p, g, q, 2, "uc2_term_change_discards_total"@, true, text::digits(s.receiver.term_change_discards as nat));
    lemma_series_at(p, g, q, 3, "uc2_counter_ahead_resyncs_total"@, true, text::digits(s.receiver.counter_ahead_resyncs as nat));
    lemma_series_at(p, g, q, 4, "uc2_net_event_drops_total"@, true, text::digits((ingress::total(s.receiver.net_drops@) as u64) as nat));
}

/// A truth value is shown as 1 or 0.
pub proof fn law_flags_are_zero_or_one(b: bool)
    ensures
        flag(true) == 1,
        flag(false) == 0,
        text::digits(flag(b) as nat) == (if b {
            "1"@
        } else {
            "0"@
        }),
{
    reveal_strlit("1");
    reveal_strlit("0");
    assert(text::digits(1) =~= "1"@);
    assert(text::digits(0) =~= "0"@);
}

/// A lag is how much further the one has come, and nothing where it has not.
pub proof fn law_lags_stop_at_zero(ahead: u64, behind: u64)
    ensures
        ahead >= behind ==> lag(ahead, behind) == ahead - behind,
        ahead <= behind ==> lag(ahead, behind) == 0,
{
}

/// Who occupies a slot, as its word says.
pub open spec fn occupant(id_and_role: u64, voter: u8, learner: u8) -> Option<(u64, SlotRole)> {
    if id_and_role == 0 {
        None
    } else {
        Some((id_and_role >> 8, slot_role((id_and_role & 0xFF) as u8, voter, learner)))
    }
}

/// A slot's word reads back: the id that was put above the role's code, and
/// the role of that code; a word of nothing is nobody.
pub proof fn law_slot_word_reads_back(id: u64, code: u8, voter: u8, learner: u8)
    requires
        id < 0x100_0000_0000_0000,
        voter != learner,
    ensures
        occupant(0, voter, learner) is None,
        id > 0 || code > 0 ==> occupant((id * 0x100 + code) as u64, voter, learner) == Some(
            (id, slot_role(code, voter, learner)),
        ),
        slot_role(voter, voter, learner) == SlotRole::Voter,
        slot_role(learner, voter, learner) == SlotRole::Learner,
        code != voter && code != learner ==> slot_role(code, voter, learner) == SlotRole::Unknown,
{
    let w: u64 = (id * 0x100 + code) as u64;
    assert(w >> 8 == w / 0x100) by (bit_vector);
    assert((w & 0xFF) as u8 == w % 0x100) by (bit_vector);
    assert(w / 0x100 == id);
    assert(w % 0x100 == code);
}

/// What to divide for the admission saturation.
pub open spec fn saturation(s: ObsSources) -> Option<(u64, u64)> {
    if s.admission_bytes == 0 {
        None
    } else {
        Some((lag(s.counters.append, s.counters.commit), s.admission_bytes))
    }
}

/// The saturation is what is appended and not committed, of the window; there
/// is none without a window, so that nothing is ever divided by 0.
pub proof fn law_saturation_is_of_the_window(s: ObsSources)
    ensures
        saturation(s) is None <==> s.admission_bytes == 0,
        saturation(s) matches Some(r) ==> r.1 == s.admission_bytes && r.1 > 0 && (
        s.counters.append >= s.counters.commit ==> r.0 == s.counters.append - s.counters.commit) && (
        s.counters.append <= s.counters.commit ==> r.0 == 0),
{
}

/// An agent is shown under its own name, 1 while it runs and 0 once it has
/// ended.
pub proof fn law_agents_are_shown_by_name(s: ObsSources, i: int)
    requires
        0 <= i < s.agents@.len(),
    ensures
        ({
            let samples = agent_samples(s.agents@);
            &&& samples.len() == s.agents@.len()
            &&& samples[i].labels == Some("agent=\""@ + s.agents@[i].0@ + "\""@)
            &&& samples[i].value == (if s.agents@[i].1 {
                "0"@
            } else {
                "1"@
            })
            &&& exists|k: int|
                0 <= k < all_families(s).len() && (#[trigger] all_families(s)[k]).name
                    == "uc2_agent_alive"@ && all_families(s)[k].samples == samples
        }),
{
    law_flags_are_zero_or_one(true);
    law_flags_are_zero_or_one(false);
    reveal_strlit("agent");
    reveal_strlit("=\"");
    reveal_strlit("agent=\"");
    assert("agent"@ + "=\""@ =~= "agent=\""@);
    let k: int = identity_families(s).len() as int + 4;
    assert(all_families(s)[k] == settings_families(s)[4]);
}

/// What a peer slot shows: what the peer reported, how far that is behind the
/// commit, or the window it advertised, under the peer's id and role. An
/// empty slot shows nothing.
pub proof fn law_peers_are_shown_by_id(
    c: Column,
    commit: u64,
    peers: Seq<PeerSlot>,
    slot: PeerSlot,
)
    ensures
        ({
            let before = peer_samples(c, commit, peers);
            let after = peer_samples(c, commit, peers.push(slot));
            match slot.occupant {
                None => after == before,
                Some(o) => {
                    let figure: nat = match c {
                        Column::Reported => slot.reported_durable as nat,
                        Column::Lag => if commit >= slot.reported_durable {
                            (commit - slot.reported_durable) as nat
                        } else {
                            0
                        },
                        Column::Limit => slot.advertised_limit as nat,
                    };
                    &&& after.len() == before.len() + 1
                    &&& after.drop_last() == before
                    &&& after.last().value == text::digits(figure)
                    &&& after.last().labels == Some(
                        "peer=\""@ + text::digits(o.0 as nat) + "\",role=\""@ + o.1.label()
                            + "\""@,
                    )
                },
            }
        }),
        peer_samples(c, commit, Seq::empty()).len() == 0,
{
    assert(peers.push(slot).drop_last() =~= peers);
    let before = peer_samples(c, commit, peers);
    let after = peer_samples(c, commit, peers.push(slot));
    if slot.occupant is Some {
        assert(after.drop_last() =~= before);
        let o = slot.occupant->0;
        reveal_strlit("peer");
        reveal_strlit("role");
        reveal_strlit("=\"");
        reveal_strlit("\"");
        reveal_strlit("peer=\"");
        reveal_strlit("\",role=\"");
        let d = text::digits(o.0 as nat);
        assert(label("peer"@, d) + seq![','] + label("role"@, o.1.label()) =~= "peer=\""@ + d
            + "\",role=\""@ + o.1.label() + "\""@);
    }
}

/// The three columns of the peers are shown under their own names.
pub proof fn law_peer_columns_are_shown_by_name(s: ObsSources, c: Column)
    ensures
        exists|k: int|
            0 <= k < all_families(s).len() && (#[trigger] all_families(s)[k]).name == (match c {
                Column::Reported => "uc2_peer_reported_durable_bytes"@,
                Column::Lag => "uc2_peer_replication_lag_bytes"@,
                Column::Limit => "uc2_peer_advertised_limit_bytes"@,
            }) && all_families(s)[k].samples == peer_samples(c, s.counters.commit, s.peers@)
                && !all_families(s)[k].counter,
{
    let k: int = (identity_families(s).len() + settings_families(s).len()
        + positions_families(s).len() + derived_families(s).len()) as int;
    assert(all_families(s)[k] == peers_families(s)[0]);
    assert(all_families(s)[k + 1] == peers_families(s)[1]);
    assert(all_families(s)[k + 2] == peers_families(s)[2]);
}

/// Every role has a label of its own.
pub proof fn law_roles_have_their_labels(r: SlotRole, other: SlotRole)
    ensures
        r != other ==> r.label() != other.label(),
        SlotRole::Voter.label() == "voter"@,
        SlotRole::Learner.label() == "learner"@,
        SlotRole::Unknown.label() == "unknown"@,
{
    reveal_strlit("voter");
    reveal_strlit("learner");
    reveal_strlit("unknown");
    assert("voter"@[0] == 'v');
    assert("learner"@[0] == 'l');
    assert("unknown"@[0] == 'u');
}

/// The version is shown as the label of a family that is always 1.
pub proof fn law_version_is_shown(s: ObsSources)
    ensures
        ({
            let f = all_families(s)[0];
            &&& f.name == "uc2_build_info"@ && !f.counter && f.samples.len() == 1
            &&& f.samples[0].labels == Some("version=\""@ + s.version@ + "\""@)
            &&& f.samples[0].value == "1"@
        }),
{
    law_flags_are_zero_or_one(true);
    reveal_strlit("version");
    reveal_strlit("=\"");
    reveal_strlit("version=\"");
    assert("version"@ + "=\""@ =~= "version=\""@);
}

/// Dropped datagrams are shown by the reason they were dropped for.
pub proof fn law_drops_are_shown_by_reason(s: ObsSources)
    ensures
        ({
            let d = drop_samples(s.receiver);
            let r = s.receiver;
            &&& d.len() == 11
            &&& shows_drop(d, "stale_term"@, r.dropped_stale_term)
            &&& shows_drop(d, "dup"@, r.dropped_dup)
            &&& shows_drop(d, "overrun"@, r.dropped_overrun)
            &&& shows_drop(d, "malformed"@, r.dropped_malformed)
            &&& shows_drop(d, "gated"@, r.dropped_gated)
            &&& shows_drop(d, "straddle"@, r.dropped_straddle)
            &&& shows_drop(d, "auth_failed"@, r.dropped_auth_failed)
            &&& shows_drop(d, "replay"@, r.dropped_replay)
            &&& shows_drop(d, "unknown_epoch"@, r.dropped_unknown_epoch)
            &&& shows_drop(d, "unknown_peer"@, r.dropped_unknown_peer)
            &&& shows_drop(d, "handshake"@, r.dropped_handshake)
            &&& exists|k: int|
                0 <= k < all_families(s).len() && (#[trigger] all_families(s)[k]).name
                    == "uc2_receiver_dropped_total"@ && all_families(s)[k].samples == d
                    && all_families(s)[k].counter
        }),
{
    let d = drop_samples(s.receiver);
    let r = s.receiver;
    reveal_strlit("reason");
    reveal_strlit("=\"");
    reveal_strlit("reason=\"");
    assert("reason"@ + "=\""@ =~= "reason=\""@);
    assert(is_drop(d[0], "stale_term"@, r.dropped_stale_term));
    assert(is_drop(d[1], "dup"@, r.dropped_dup));
    assert(is_drop(d[2], "overrun"@, r.dropped_overrun));
    assert(is_drop(d[3], "malformed"@, r.dropped_malformed));
    assert(is_drop(d[4], "gated"@, r.dropped_gated));
    assert(is_drop(d[5], "straddle"@, r.dropped_straddle));
    assert(is_drop(d[6], "auth_failed"@, r.dropped_auth_failed));
    assert(is_drop(d[7], "replay"@, r.dropped_replay));
    assert(is_drop(d[8], "unknown_epoch"@, r.dropped_unknown_epoch));
    assert(is_drop(d[9], "unknown_peer"@, r.dropped_unknown_peer));
    assert(is_drop(d[10], "handshake"@, r.dropped_handshake));
    let k = all_families(s).len() - 5;
    assert(all_families(s)[k] == drops_families(s)[0]);
}

/// Whether a sample is that of datagrams dropped for a reason.
pub open spec fn is_drop(x: SampleV, reason: Seq<char>, n: u64) -> bool {
    x.labels == Some("reason=\""@ + reason + "\""@) && x.value == text::digits(n as nat)
}

/// Whether samples hold that of datagrams dropped for a reason.
pub open spec fn shows_drop(d: Seq<SampleV>, reason: Seq<char>, n: u64) -> bool {
    exists|i: int| 0 <= i < d.len() && #[trigger] is_drop(d[i], reason, n)
}

/// A sample is a line: its family's name, its labels in braces where it has
/// any, a space and the value. A family is its help, its type and its samples,
/// and the whole is its families, one after the other.
pub proof fn law_rendering_is_line_by_line(
    name: Seq<char>,
    help: Seq<char>,
    labels: Seq<char>,
    value: Seq<char>,
    samples: Seq<SampleV>,
    x: SampleV,
    fs: Seq<FamilyV>,
    f: FamilyV,
)
    ensures
        sample_text(name, SampleV { labels: None, value }) == name + " "@ + value + "\n"@,
        sample_text(name, SampleV { labels: Some(labels), value }) == name + "{"@ + labels + "} "@
            + value + "\n"@,
        samples_text(name, samples.push(x)) == samples_text(name, samples) + sample_text(name, x),
        samples_text(name, Seq::empty()).len() == 0,
        families_text(fs.push(f)) == families_text(fs) + family_text(f),
        families_text(Seq::empty()).len() == 0,
        family_text(FamilyV { name, help, counter: true, samples }) == "# HELP "@ + name + " "@
            + help + "\n# TYPE "@ + name + " counter\n"@ + samples_text(name, samples),
        family_text(FamilyV { name, help, counter: false, samples }) == "# HELP "@ + name + " "@
            + help + "\n# TYPE "@ + name + " gauge\n"@ + samples_text(name, samples),
{
    reveal_strlit(" ");
    reveal_strlit("\n");
    reveal_strlit("{");
    reveal_strlit("} ");
    reveal_strlit("# TYPE ");
    reveal_strlit("\n# TYPE ");
    reveal_strlit("counter");
    reveal_strlit("gauge");
    reveal_strlit(" counter\n");
    reveal_strlit(" gauge\n");
    assert(samples.push(x).drop_last() =~= samples);
    assert(fs.push(f).drop_last() =~= fs);
    assert(sample_text(name, SampleV { labels: None, value }) =~= name + " "@ + value + "\n"@);
    assert(sample_text(name, SampleV { labels: Some(labels), value }) =~= name + "{"@ + labels
        + "} "@ + value + "\n"@);
    let st = samples_text(name, samples);
    assert(family_text(FamilyV { name, help, counter: true, samples }) =~= "# HELP "@ + name + " "@
        + help + "\n# TYPE "@ + name + " counter\n"@ + st);
    assert(family_text(FamilyV { name, help, counter: false, samples }) =~= "# HELP "@ + name
        + " "@ + help + "\n# TYPE "@ + name + " gauge\n"@ + st);
}

/// Families and samples say what they hold, in order.
pub proof fn law_families_say_what_they_hold(
    fs: Seq<Family>,
    xs: Seq<Sample>,
    i: int,
    labels: String,
)
    ensures
        families_view(fs).len() == fs.len(),
        samples_view(xs).len() == xs.len(),
        0 <= i < fs.len() ==> {
            let f = families_view(fs)[i];
            &&& f.name == fs[i].name@ && f.help == fs[i].help@ && f.counter == fs[i].counter
            &&& f.samples == samples_view(fs[i].samples@)
        },
        0 <= i < xs.len() ==> {
            let x = samples_view(xs)[i];
            &&& x.value == xs[i].value@
            &&& xs[i].labels == Some(labels) ==> x.labels == Some(labels@)
            &&& xs[i].labels is None ==> x.labels is None
        },
{
}

} // verus!
