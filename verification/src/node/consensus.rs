//! The consensus agent: what it does for each action of the election state
//! machine, and for what arrives from the network, the archive and the
//! operator.

use crate::node::admin;
use crate::node::admin::{AdminDesk, AdminV};
use crate::node::cluster;
use crate::node::cluster::{
    Addr, CNC_MAX_PEER_SLOTS, ClusterConfig, ConfigRecord, ConfigV, Member, NodeId, PeerMaps,
    PeerRole, PeersV, RecordV, addr_for, addrs_of, cluster_to_stored, cluster_to_wire, copy_ids,
    copy_members, derive_peer_maps, holds_id, id_for, other_members, sender_cluster_size,
};
use crate::node::crypto::CryptoState;
use crate::node::effects;
use crate::node::effects::{
    ArchiveCmd, Body, Effect, EffectV, Effects, FanOutBody, NodeEvent, Plain,
};
use crate::node::gate;
use crate::node::gate::{TermGate, bump};
use crate::node::published;
use crate::node::reads;
use crate::node::reads::{
    BarrierV, QueryRecord, QueryReply, ReadBarrier, RoundContext, ServiceSample, Sweep, SweepStep,
};
use crate::node::recover;
use crate::node::recover::{TermMap, copy_map, revert_record};
use vstd::prelude::*;
use vstd::string::StringExecFns;

verus! {

/// The newest durable position each peer has reported.
pub open spec fn reports(s: Seq<(NodeId, u64)>) -> Map<NodeId, u64>
    decreases s.len(),
{
    if s.len() == 0 {
        Map::empty()
    } else {
        reports(s.drop_last()).insert(s.last().0, s.last().1)
    }
}

/// Replacing the newest entry of an id replaces what it reports.
proof fn lemma_reports_update(s: Seq<(NodeId, u64)>, i: int, v: u64)
    requires
        0 <= i < s.len(),
        forall|j: int| i < j < s.len() ==> (#[trigger] s[j]).0 != s[i].0,
    ensures
        reports(s.update(i, (s[i].0, v))) == reports(s).insert(s[i].0, v),
    decreases s.len(),
{
    let t = s.update(i, (s[i].0, v));
    if i == s.len() - 1 {
        assert(t.drop_last() =~= s.drop_last());
        assert(reports(t) =~= reports(s).insert(s[i].0, v));
    } else {
        assert(s.last().0 != s[i].0);
        assert(t.drop_last() =~= s.drop_last().update(i, (s[i].0, v)));
        lemma_reports_update(s.drop_last(), i, v);
        assert(reports(t) =~= reports(s).insert(s[i].0, v));
    }
}

/// An id reports something iff some entry is its own.
proof fn lemma_reports_dom(s: Seq<(NodeId, u64)>, id: NodeId)
    ensures
        reports(s).dom().contains(id) <==> exists|i: int| 0 <= i < s.len() && (#[trigger] s[i]).0
            == id,
    decreases s.len(),
{
    if s.len() > 0 {
        lemma_reports_dom(s.drop_last(), id);
        if s.last().0 == id {
            assert(s[s.len() - 1].0 == id);
        }
        assert forall|i: int| 0 <= i < s.drop_last().len() && (#[trigger] s.drop_last()[i]).0
            == id implies s[i].0 == id by {}
        if reports(s).dom().contains(id) && s.last().0 != id {
            let i = choose|i: int| 0 <= i < s.drop_last().len() && (#[trigger] s.drop_last()[i]).0
                == id;
            assert(s[i].0 == id);
        }
        if exists|i: int| 0 <= i < s.len() && (#[trigger] s[i]).0 == id {
            let i = choose|i: int| 0 <= i < s.len() && (#[trigger] s[i]).0 == id;
            if i < s.len() - 1 {
                assert(s.drop_last()[i].0 == id);
            }
        }
    }
}

/// What `id` last reported, looked up.
fn reported_by(v: &Vec<(NodeId, u64)>, id: NodeId) -> (r: Option<u64>)
    ensures
        r == (if reports(v@).dom().contains(id) {
            Some(reports(v@)[id])
        } else {
            None
        }),
{
    let mut n: usize = v.len();
    assert(v@.take(n as int) =~= v@);
    while n > 0
        invariant
            n <= v.len(),
            reports(v@).dom().contains(id) == reports(v@.take(n as int)).dom().contains(id),
            reports(v@).dom().contains(id) ==> reports(v@)[id] == reports(v@.take(n as int))[id],
        decreases n,
    {
        n = n - 1;
        assert(v@.take(n as int + 1).drop_last() =~= v@.take(n as int));
        if v[n].0 == id {
            return Some(v[n].1);
        }
    }
    None
}

/// The reports after `id` reported `durable`: the higher of the two stays.
pub open spec fn reported(m: Map<NodeId, u64>, id: NodeId, durable: u64) -> Map<NodeId, u64> {
    if m.dom().contains(id) && m[id] >= durable {
        m
    } else {
        m.insert(id, durable)
    }
}

/// Take up a report.
fn note_report(v: &mut Vec<(NodeId, u64)>, id: NodeId, durable: u64)
    ensures
        reports(final(v)@) == reported(reports(old(v)@), id, durable),
{
    let ghost v0 = v@;
    let mut n: usize = v.len();
    while n > 0
        invariant
            n <= v.len(),
            v0 == old(v)@,
            v@ == v0,
            forall|j: int| n <= j < v@.len() ==> (#[trigger] v@[j]).0 != id,
        decreases n,
    {
        n = n - 1;
        if v[n].0 == id {
            proof {
                lemma_reports_at(v0, n as int);
            }
            if v[n].1 < durable {
                proof {
                    lemma_reports_update(v0, n as int, durable);
                }
                v.set(n, (id, durable));
            }
            return;
        }
    }
    proof {
        lemma_reports_dom(v0, id);
        assert(v0.push((id, durable)).drop_last() =~= v0);
    }
    v.push((id, durable));
}

/// The newest entry of an id is what it reports.
proof fn lemma_reports_at(s: Seq<(NodeId, u64)>, i: int)
    requires
        0 <= i < s.len(),
        forall|j: int| i < j < s.len() ==> (#[trigger] s[j]).0 != s[i].0,
    ensures
        reports(s).dom().contains(s[i].0),
        reports(s)[s[i].0] == s[i].1,
    decreases s.len(),
{
    if i < s.len() - 1 {
        assert(s.last().0 != s[i].0);
        lemma_reports_at(s.drop_last(), i);
    }
}

/// The ids of an observability band.
pub open spec fn band_ids(band: Seq<(NodeId, PeerRole)>) -> Set<NodeId> {
    Set::new(|id: NodeId| exists|i: int| 0 <= i < band.len() && (#[trigger] band[i]).0 == id)
}

/// Whether a band lists `id`.
fn band_lists(band: &Vec<(NodeId, PeerRole)>, id: NodeId) -> (r: bool)
    ensures
        r == band_ids(band@).contains(id),
{
    for i in 0..band.len()
        invariant
            forall|j: int| 0 <= j < i ==> (#[trigger] band@[j]).0 != id,
    {
        if band[i].0 == id {
            assert(band@[i as int].0 == id);
            return true;
        }
    }
    false
}

/// Keep the reports of the peers on the band alone.
fn prune_reports(v: &Vec<(NodeId, u64)>, band: &Vec<(NodeId, PeerRole)>) -> (r: Vec<(NodeId, u64)>)
    ensures
        reports(r@) == reports(v@).restrict(band_ids(band@)),
{
    let mut r: Vec<(NodeId, u64)> = Vec::new();
    assert(reports(v@.take(0)).restrict(band_ids(band@)) =~= Map::empty());
    for i in 0..v.len()
        invariant
            reports(r@) == reports(v@.take(i as int)).restrict(band_ids(band@)),
    {
        let ghost before = r@;
        assert(v@.take(i as int + 1).drop_last() =~= v@.take(i as int));
        if band_lists(band, v[i].0) {
            r.push(v[i]);
            assert(r@.drop_last() =~= before);
        }
        assert(reports(r@) =~= reports(v@.take(i as int + 1)).restrict(band_ids(band@)));
    }
    assert(v@.take(v@.len() as int) =~= v@);
    r
}

/// The effects that write the band's slots: who occupies each, and that the
/// rest are empty.
pub open spec fn band_cells(band: Seq<(NodeId, PeerRole)>) -> Seq<EffectV> {
    Seq::new(
        CNC_MAX_PEER_SLOTS as nat,
        |i: int|
            EffectV::Plain(
                Plain::PeerCell {
                    slot: i as usize,
                    occupant: if i < band.len() {
                        Some(band[i])
                    } else {
                        None
                    },
                },
            ),
    )
}

/// The effects that write what each peer on the band reported.
pub open spec fn durable_cells(
    band: Seq<(NodeId, PeerRole)>,
    m: Map<NodeId, u64>,
) -> Seq<EffectV>
    decreases band.len(),
{
    if band.len() == 0 {
        Seq::empty()
    } else {
        let head = durable_cells(band.drop_last(), m);
        let id = band.last().0;
        if m.dom().contains(id) {
            head.push(
                EffectV::Plain(
                    Plain::PeerDurable { slot: (band.len() - 1) as usize, durable: m[id] },
                ),
            )
        } else {
            head
        }
    }
}

/// The effects of publishing the band.
pub open spec fn band_effects(
    published: bool,
    band: Seq<(NodeId, PeerRole)>,
    m: Map<NodeId, u64>,
) -> Seq<EffectV> {
    (if published {
        Seq::empty()
    } else {
        band_cells(band)
    }) + durable_cells(band, m) + seq![EffectV::Plain(Plain::ArchiveFirstBase)]
}

/// Every id has a route.
pub open spec fn routable(table: Seq<Member>, ids: Seq<NodeId>) -> bool {
    forall|i: int| 0 <= i < ids.len() ==> cluster::route_addr(table, #[trigger] ids[i]) is Some
}

/// A listed member has a route.
proof fn lemma_listed_is_routed(table: Seq<Member>, id: NodeId)
    requires
        cluster::lists(table, id),
    ensures
        cluster::route_addr(table, id) is Some,
    decreases table.len(),
{
    if table.last().0 != id {
        let i = choose|i: int| 0 <= i < table.len() && (#[trigger] table[i]).0 == id;
        assert(table.drop_last()[i].0 == id);
        lemma_listed_is_routed(table.drop_last(), id);
    }
}

/// The others of a list are among the list.
proof fn lemma_others_are_listed(s: Seq<Member>, id: NodeId, i: int)
    requires
        0 <= i < cluster::others(s, id).len(),
    ensures
        cluster::lists(s, cluster::others(s, id)[i].0),
        cluster::others(s, id)[i].0 != id,
    decreases s.len(),
{
    if s.len() > 0 {
        let head = cluster::others(s.drop_last(), id);
        if i < head.len() {
            lemma_others_are_listed(s.drop_last(), id, i);
            let k = choose|k: int|
                0 <= k < s.drop_last().len() && (#[trigger] s.drop_last()[k]).0 == head[i].0;
            assert(s[k].0 == head[i].0);
        } else {
            assert(s[s.len() - 1].0 == cluster::others(s, id)[i].0);
        }
    }
}

/// Routing derived from a configuration reaches every peer and learner, and
/// fits the band.
pub proof fn law_derived_routing_is_complete(c: ConfigV, id: NodeId)
    ensures
        routable(cluster::peers_of(c, id).table, cluster::peers_of(c, id).peers),
        routable(cluster::peers_of(c, id).table, cluster::peers_of(c, id).learner_ids),
        cluster::peers_of(c, id).band.len() <= CNC_MAX_PEER_SLOTS,
        !cluster::peers_of(c, id).peers.contains(id),
        !cluster::peers_of(c, id).learner_ids.contains(id),
{
    let p = cluster::peers_of(c, id);
    assert forall|i: int| 0 <= i < p.peers.len() implies cluster::route_addr(
        p.table,
        #[trigger] p.peers[i],
    ) is Some && p.peers[i] != id by {
        lemma_others_are_listed(c.voters, id, i);
        let k = choose|k: int| 0 <= k < c.voters.len() && (#[trigger] c.voters[k]).0 == p.peers[i];
        assert(p.table[k].0 == p.peers[i]);
        lemma_listed_is_routed(p.table, p.peers[i]);
    }
    assert forall|i: int| 0 <= i < p.learner_ids.len() implies cluster::route_addr(
        p.table,
        #[trigger] p.learner_ids[i],
    ) is Some && p.learner_ids[i] != id by {
        lemma_others_are_listed(c.learners, id, i);
        let k = choose|k: int|
            0 <= k < c.learners.len() && (#[trigger] c.learners[k]).0 == p.learner_ids[i];
        assert(p.table[c.voters.len() + k].0 == p.learner_ids[i]);
        lemma_listed_is_routed(p.table, p.learner_ids[i]);
    }
}

/// What the election state machine shows of itself.
#[derive(Debug)]
pub struct SmView {
    pub term: u32,
    pub is_leader: bool,
    pub can_serve: bool,
    /// The adopted configuration is not committed yet.
    pub config_pending: bool,
    /// It has asked for a truncation that is not acknowledged yet.
    pub truncating: bool,
    pub term_map: TermMap,
}

/// What an action of the election state machine says.
#[verifier::ext_equal]
pub enum ActionV {
    PersistAndSendVote { candidate: NodeId, term: u32, voted_for: NodeId },
    SendVoteRejection { candidate: NodeId, term: u32 },
    StartElection { new_term: u32, last_term: u32, last_durable: u64 },
    BecomeLeader { term: u32, base: u64 },
    BecomeFollower { term: u32, leader: Option<NodeId> },
    AdvanceCommit { commit: u64 },
    GossipCommit { commit: u64 },
    ShipTermMap { entries: Seq<(u32, u64)> },
    Truncate { epoch: u64, to: u64, new_map: Seq<(u32, u64)> },
    PersistTermMap { new_map: Seq<(u32, u64)> },
    Fatal { reason: Seq<char> },
    CountWipe,
    ConfigAdopted { position: u64, config: ConfigV, prev_position: u64, prev: ConfigV },
    HaltRemoved,
    StepDownRemoved,
}

/// An action of the election state machine.
#[derive(Debug)]
pub enum Action {
    /// Persist the vote, then answer the candidate (unless it is this node).
    PersistAndSendVote { candidate: NodeId, term: u32, voted_for: NodeId },
    SendVoteRejection { candidate: NodeId, term: u32 },
    StartElection { new_term: u32, last_term: u32, last_durable: u64 },
    BecomeLeader { term: u32, base: u64 },
    BecomeFollower { term: u32, leader: Option<NodeId> },
    AdvanceCommit { commit: u64 },
    GossipCommit { commit: u64 },
    ShipTermMap { entries: TermMap },
    Truncate { epoch: u64, to: u64, new_map: TermMap },
    PersistTermMap { new_map: TermMap },
    Fatal { reason: String },
    /// A wipe was decided; the truncation to 0 follows.
    CountWipe,
    ConfigAdopted {
        position: u64,
        config: ClusterConfig,
        prev_position: u64,
        prev: ClusterConfig,
    },
    /// This node is not a member of the adopted configuration.
    HaltRemoved,
    /// This leader's own removal has committed.
    StepDownRemoved,
}

impl View for Action {
    type V = ActionV;

    open spec fn view(&self) -> ActionV {
        match self {
            Action::PersistAndSendVote { candidate, term, voted_for } =>
                ActionV::PersistAndSendVote {
                candidate: *candidate,
                term: *term,
                voted_for: *voted_for,
            },
            Action::SendVoteRejection { candidate, term } => ActionV::SendVoteRejection {
                candidate: *candidate,
                term: *term,
            },
            Action::StartElection { new_term, last_term, last_durable } => ActionV::StartElection {
                new_term: *new_term,
                last_term: *last_term,
                last_durable: *last_durable,
            },
            Action::BecomeLeader { term, base } => ActionV::BecomeLeader {
                term: *term,
                base: *base,
            },
            Action::BecomeFollower { term, leader } => ActionV::BecomeFollower {
                term: *term,
                leader: *leader,
            },
            Action::AdvanceCommit { commit } => ActionV::AdvanceCommit { commit: *commit },
            Action::GossipCommit { commit } => ActionV::GossipCommit { commit: *commit },
            Action::ShipTermMap { entries } => ActionV::ShipTermMap { entries: entries@ },
            Action::Truncate { epoch, to, new_map } => ActionV::Truncate {
                epoch: *epoch,
                to: *to,
                new_map: new_map@,
            },
            Action::PersistTermMap { new_map } => ActionV::PersistTermMap { new_map: new_map@ },
            Action::Fatal { reason } => ActionV::Fatal { reason: reason@ },
            Action::CountWipe => ActionV::CountWipe,
            Action::ConfigAdopted { position, config, prev_position, prev } =>
                ActionV::ConfigAdopted {
                position: *position,
                config: config@,
                prev_position: *prev_position,
                prev: prev@,
            },
            Action::HaltRemoved => ActionV::HaltRemoved,
            Action::StepDownRemoved => ActionV::StepDownRemoved,
        }
    }
}

/// What the consensus agent says.
#[verifier::ext_equal]
pub struct ConsensusV {
    pub id: NodeId,
    pub gate: TermGate,
    pub maps: PeersV,
    /// The newest durable position each peer has reported.
    pub reported: Map<NodeId, u64>,
    pub band_published: bool,
    pub record: Option<RecordV>,
    pub config_version: u64,
    pub config_pending: bool,
    pub reads: BarrierV,
    pub admin: AdminV,
    pub crypto: CryptoState,
    /// The leader's own term map, as last shipped.
    pub leader_map: Seq<(u32, u64)>,
    pub reports_implausible: u64,
    /// The serving flag as last published.
    pub published_can_serve: bool,
    /// The inbound snapshot last taken up.
    pub adopted_incoming: u64,
    /// Term observations held back while a truncation is in flight.
    pub held_terms: Seq<(u32, u64)>,
}

/// The consensus agent's own state. The durable record, the adopted version
/// and the leader hint are mirrors of what it alone writes.
#[derive(Debug)]
pub struct Consensus {
    pub id: NodeId,
    pub gate: TermGate,
    pub maps: PeerMaps,
    pub reported: Vec<(NodeId, u64)>,
    pub band_published: bool,
    pub record: Option<ConfigRecord>,
    pub config_version: u64,
    pub config_pending: bool,
    pub reads: ReadBarrier,
    pub admin: AdminDesk,
    pub crypto: CryptoState,
    pub leader_map: TermMap,
    pub reports_implausible: u64,
    pub published_can_serve: bool,
    pub adopted_incoming: u64,
    pub held_terms: TermMap,
}

impl View for Consensus {
    type V = ConsensusV;

    open spec fn view(&self) -> ConsensusV {
        ConsensusV {
            id: self.id,
            gate: self.gate,
            maps: self.maps@,
            reported: reports(self.reported@),
            band_published: self.band_published,
            record: recover::stored_view(self.record),
            config_version: self.config_version,
            config_pending: self.config_pending,
            reads: self.reads@,
            admin: self.admin@,
            crypto: self.crypto,
            leader_map: self.leader_map@,
            reports_implausible: self.reports_implausible,
            published_can_serve: self.published_can_serve,
            adopted_incoming: self.adopted_incoming,
            held_terms: self.held_terms@,
        }
    }
}

impl ConsensusV {
    /// Every peer and learner has a route, the band fits the page, and the
    /// read barrier is well formed.
    pub open spec fn wf(self) -> bool {
        &&& routable(self.maps.table, self.maps.peers)
        &&& routable(self.maps.table, self.maps.learner_ids)
        &&& self.maps.band.len() <= CNC_MAX_PEER_SLOTS
        &&& self.reads.wf()
    }

    /// Whom commit gossip, term maps and the group key go to.
    pub open spec fn gossip_targets(self) -> Seq<NodeId> {
        self.maps.peers + self.maps.learner_ids
    }
}

/// A datagram under `term`, where its destination has a route.
pub open spec fn send_to(
    table: Seq<Member>,
    to: NodeId,
    term: u32,
    body: Body,
) -> Seq<EffectV> {
    match cluster::route_addr(table, to) {
        Some(addr) => seq![EffectV::Plain(Plain::Send { to: addr, term, body })],
        None => Seq::empty(),
    }
}

/// The agent after a configuration was adopted: routed anew, the probe round
/// void, what departed peers reported forgotten.
pub open spec fn rebuilt(c: ConsensusV, config: ConfigV) -> ConsensusV {
    let maps = cluster::peers_of(config, c.id);
    ConsensusV {
        maps,
        reported: c.reported.restrict(band_ids(maps.band)),
        band_published: true,
        reads: BarrierV { round: None, ..c.reads },
        crypto: if c.crypto.enabled {
            CryptoState { peers_dirty: true, ..c.crypto }
        } else {
            c.crypto
        },
        ..c
    }
}

/// The effects of rebuilding the net layer for an adopted configuration.
pub open spec fn rebuild_effects(
    c: ConsensusV,
    config: ConfigV,
    prev_position: u64,
) -> Seq<EffectV> {
    let maps = cluster::peers_of(config, c.id);
    seq![
        EffectV::SetPeers {
            followers: cluster::member_addrs(cluster::others(config.voters, c.id)),
            learners: cluster::member_addrs(cluster::others(config.learners, c.id)),
            cluster_size: cluster::sender_size(config, c.id),
        },
        EffectV::ConfigBytes { config, prev_position },
    ] + (if c.crypto.enabled {
        seq![EffectV::PeerIds(maps.table)]
    } else {
        Seq::empty()
    }) + band_effects(false, maps.band, c.reported.restrict(band_ids(maps.band)))
}

/// The effects of halting: the flags first, then a retry for every parked
/// read.
pub open spec fn halt_effects(pending: Seq<reads::ReadV>) -> Seq<EffectV> {
    seq![EffectV::Plain(Plain::LeaderFlag(false)), EffectV::Plain(Plain::CanServeFlag(false))]
        + pending.map_values(
        |r: reads::ReadV|
            EffectV::Plain(Plain::Retry { client_id: r.client_id, local_seq: r.local_seq }),
    )
}

/// The agent after it halted.
pub open spec fn halted(c: ConsensusV) -> ConsensusV {
    ConsensusV {
        gate: c.gate.halted(),
        reads: BarrierV { pending: Seq::empty(), round: None, ..c.reads },
        ..c
    }
}

/// The record after a truncation to `to` that removes the frame it rests on:
/// a wipe keeps the configuration in force by fiat, any other cut takes it
/// back one level.
pub open spec fn cut_record(rec: RecordV, to: u64) -> RecordV {
    if to == 0 {
        RecordV { position: 0, config: rec.config, prev_position: 0, prev: rec.config }
    } else {
        recover::reverted(rec)
    }
}

/// Whether a truncation to `to` removes the frame that the record rests on.
pub open spec fn cuts_record(record: Option<RecordV>, to: u64) -> bool {
    record is Some && to < record->0.position
}

/// Whether a leader has adopted its own demotion: still leading, no longer a
/// voter, and not removed.
pub open spec fn self_demoted(c: ConfigV, id: NodeId, is_leader: bool) -> bool {
    is_leader && !cluster::lists(c.voters, id) && !c.tombstones.contains(id)
}

/// The agent after an action was carried out.
pub open spec fn acted(c: ConsensusV, act: ActionV, sm: SmView) -> ConsensusV {
    match act {
        ActionV::BecomeLeader { term, base } => ConsensusV {
            gate: c.gate.leader_opening(term, base),
            admin: admin::invalidated(c.admin),
            ..c
        },
        ActionV::BecomeFollower { term, leader } => ConsensusV {
            gate: c.gate.following(term),
            admin: admin::invalidated(c.admin),
            ..c
        },
        ActionV::Truncate { epoch, to, new_map } => ConsensusV {
            gate: c.gate.truncating(epoch),
            admin: admin::invalidated(c.admin),
            record: if cuts_record(c.record, to) {
                Some(cut_record(c.record->0, to))
            } else {
                c.record
            },
            ..c
        },
        ActionV::CountWipe => ConsensusV {
            gate: TermGate { wipes: gate::bumped(c.gate.wipes), ..c.gate },
            ..c
        },
        ActionV::ConfigAdopted { position, config, prev_position, prev } => ConsensusV {
            record: Some(RecordV { position, config, prev_position, prev }),
            config_version: config.version,
            config_pending: true,
            ..rebuilt(c, config)
        },
        ActionV::HaltRemoved => halted(c),
        ActionV::StepDownRemoved => halted(c),
        _ => c,
    }
}

/// The effects of carrying out an action, in the order they have to happen.
pub open spec fn action_effects(c: ConsensusV, act: ActionV, sm: SmView) -> Seq<EffectV> {
    let table = c.maps.table;
    match act {
        ActionV::PersistAndSendVote { candidate, term, voted_for } => {
            let stored = seq![EffectV::Plain(Plain::StoreVote { term, voted_for })];
            if candidate == c.id {
                stored
            } else {
                stored + send_to(table, candidate, term, Body::Vote { term, granted: true })
            }
        },
        ActionV::SendVoteRejection { candidate, term } => send_to(
            table,
            candidate,
            term,
            Body::Vote { term, granted: false },
        ),
        ActionV::StartElection { new_term, last_term, last_durable } => c.maps.peers.map_values(
            |id: NodeId|
                EffectV::Plain(
                    Plain::Send {
                        to: cluster::route_addr(table, id)->0,
                        term: new_term,
                        body: Body::RequestVote { new_term, last_term, last_durable },
                    },
                ),
        ),
        ActionV::BecomeLeader { term, base } => admin::invalidation_effects(
            c.admin,
            c.config_version,
        ) + seq![
            EffectV::StoreTermMap(sm.term_map@),
            EffectV::Plain(Plain::TermHandle(term)),
            EffectV::Plain(Plain::Gate(false)),
            EffectV::Plain(
                Plain::Archive(ArchiveCmd::Collapse { epoch: c.gate.next_collapse_epoch, to: base }),
            ),
        ] + (if c.crypto.enabled {
            seq![EffectV::Plain(Plain::CryptoBecameLeader)]
        } else {
            Seq::empty()
        }) + seq![EffectV::Plain(Plain::Log(NodeEvent::BecameLeader { term, base }))],
        ActionV::BecomeFollower { term, leader } => admin::invalidation_effects(
            c.admin,
            c.config_version,
        ) + seq![
            EffectV::Plain(Plain::TermHandle(term)),
            EffectV::Plain(Plain::LeaderFlag(false)),
            EffectV::Plain(Plain::DropAppender),
        ] + (if term > c.gate.adopted_term {
            seq![
                EffectV::Plain(Plain::Gate(false)),
                EffectV::Plain(Plain::LeaderHint(gate::LEADER_UNKNOWN)),
            ]
        } else {
            Seq::empty()
        }) + seq![EffectV::Plain(Plain::Log(NodeEvent::BecameFollower { term, leader }))],
        ActionV::AdvanceCommit { commit } => seq![EffectV::Plain(Plain::Commit(commit))],
        ActionV::GossipCommit { commit } => seq![
            EffectV::FanOut {
                targets: c.gossip_targets(),
                term: sm.term,
                body: FanOutBody::CommitPosition { commit },
            },
        ],
        ActionV::ShipTermMap { entries } => c.gossip_targets().map_values(
            |id: NodeId|
                EffectV::TermMapTo {
                    to: cluster::route_addr(table, id)->0,
                    term: sm.term,
                    entries,
                },
        ),
        ActionV::Truncate { epoch, to, new_map } => admin::invalidation_effects(
            c.admin,
            c.config_version,
        ) + seq![EffectV::StoreTermMap(new_map)] + (if cuts_record(c.record, to) {
            seq![EffectV::StoreRecord(cut_record(c.record->0, to))]
        } else {
            Seq::empty()
        }) + seq![
            EffectV::Plain(Plain::Gate(false)),
            EffectV::Plain(Plain::Archive(ArchiveCmd::Truncate { epoch, to })),
            EffectV::Plain(Plain::Log(NodeEvent::LogTruncated { epoch, to })),
        ],
        ActionV::PersistTermMap { new_map } => seq![EffectV::StoreTermMap(new_map)],
        ActionV::Fatal { reason } => seq![
            EffectV::FailStop("consensus fatal (fail-stop): "@ + reason),
        ],
        ActionV::CountWipe => seq![EffectV::Plain(Plain::Log(NodeEvent::LogWiped))],
        ActionV::ConfigAdopted { position, config, prev_position, prev } => seq![
            EffectV::StoreRecord(RecordV { position, config, prev_position, prev }),
        ] + rebuild_effects(c, config, prev_position) + seq![
            EffectV::Plain(Plain::ConfigVersion(config.version)),
            EffectV::Plain(Plain::ConfigPending(true)),
        ] + (if self_demoted(config, c.id, sm.is_leader) {
            seq![EffectV::Plain(Plain::Log(NodeEvent::SelfDemoted))]
        } else {
            Seq::empty()
        }) + seq![
            EffectV::Plain(
                Plain::Log(
                    NodeEvent::ConfigAdopted { position, version: config.version, prev_position },
                ),
            ),
        ],
        ActionV::HaltRemoved => seq![
            EffectV::Plain(Plain::Log(NodeEvent::HaltRemoved { term: sm.term })),
        ] + halt_effects(c.reads.pending),
        ActionV::StepDownRemoved => seq![
            EffectV::Plain(Plain::Log(NodeEvent::StepdownRemoved { term: sm.term })),
        ] + halt_effects(c.reads.pending),
    }
}

impl Consensus {
    /// Publish the observability band: who occupies each slot, once per
    /// adopted configuration, and what each peer reported, every time.
    pub fn publish_peer_band(&mut self, out: &mut Effects)
        requires
            old(self).maps.band@.len() <= CNC_MAX_PEER_SLOTS,
        ensures
            final(self)@ == (ConsensusV { band_published: true, ..old(self)@ }),
            final(out)@ == old(out)@ + band_effects(
                old(self).band_published,
                old(self).maps.band@,
                reports(old(self).reported@),
            ),
            old(self)@.wf() ==> final(self)@.wf(),
    {
        let ghost out0 = out@;
        let ghost band = self.maps.band@;
        let ghost m = reports(self.reported@);
        let ghost first = if self.band_published {
            Seq::<EffectV>::empty()
        } else {
            band_cells(band)
        };
        if !self.band_published {
            let ghost cells = band_cells(band);
            assert(out@ =~= out0 + cells.take(0));
            for i in 0..CNC_MAX_PEER_SLOTS
                invariant
                    band == self.maps.band@,
                    band.len() <= CNC_MAX_PEER_SLOTS,
                    cells == band_cells(band),
                    out@ == out0 + cells.take(i as int),
            {
                let occupant: Option<(NodeId, PeerRole)> = if i < self.maps.band.len() {
                    Some(self.maps.band[i])
                } else {
                    None
                };
                out.plain(Plain::PeerCell { slot: i, occupant });
                assert(out@ =~= out0 + cells.take(i as int + 1));
            }
            assert(cells.take(CNC_MAX_PEER_SLOTS as int) =~= cells);
            self.band_published = true;
        } else {
            assert(out@ =~= out0 + first);
        }
        assert(band.take(0) =~= Seq::<(NodeId, PeerRole)>::empty());
        assert(out@ =~= out0 + first + durable_cells(band.take(0), m));
        for i in 0..self.maps.band.len()
            invariant
                band == self.maps.band@,
                m == reports(self.reported@),
                out@ == out0 + first + durable_cells(band.take(i as int), m),
        {
            assert(band.take(i as int + 1).drop_last() =~= band.take(i as int));
            match reported_by(&self.reported, self.maps.band[i].0) {
                Some(d) => {
                    out.plain(Plain::PeerDurable { slot: i, durable: d });
                },
                None => {},
            }
            assert(out@ =~= out0 + first + durable_cells(band.take(i as int + 1), m));
        }
        assert(band.take(band.len() as int) =~= band);
        out.plain(Plain::ArchiveFirstBase);
        assert(out@ =~= out0 + band_effects(old(self).band_published, band, m));
    }

    /// Rebuild the sender's peers, the shipped configuration, this node's own
    /// routing and its observability for an adopted configuration.
    pub fn rebuild_net_for_config(
        &mut self,
        config: &ClusterConfig,
        prev_position: u64,
        out: &mut Effects,
    )
        requires
            config.voters.len() < usize::MAX,
        ensures
            final(self)@ == rebuilt(old(self)@, config@),
            final(out)@ == old(out)@ + rebuild_effects(old(self)@, config@, prev_position),
            old(self)@.wf() ==> final(self)@.wf(),
    {
        let ghost c0 = self@;
        let ghost out0 = out@;
        let followers = addrs_of(&other_members(&config.voters, self.id));
        let learners = addrs_of(&other_members(&config.learners, self.id));
        let cluster_size: usize = sender_cluster_size(config, self.id);
        out.put(Effect::SetPeers { followers, learners, cluster_size });
        out.put(Effect::ConfigBytes(cluster_to_wire(config, prev_position)));
        self.maps = derive_peer_maps(config, self.id);
        self.reads.void_round();
        self.band_published = false;
        let kept = prune_reports(&self.reported, &self.maps.band);
        self.reported = kept;
        if self.crypto.enabled {
            out.put(Effect::PeerIds(copy_members(&self.maps.table)));
            self.crypto.peers_dirty = true;
        }
        proof {
            law_derived_routing_is_complete(config@, self.id);
        }
        let ghost mid = out@;
        assert(mid =~= out0 + seq![
            EffectV::SetPeers {
                followers: cluster::member_addrs(cluster::others(config@.voters, c0.id)),
                learners: cluster::member_addrs(cluster::others(config@.learners, c0.id)),
                cluster_size: cluster::sender_size(config@, c0.id),
            },
            EffectV::ConfigBytes { config: config@, prev_position },
        ] + (if c0.crypto.enabled {
            seq![EffectV::PeerIds(cluster::peers_of(config@, c0.id).table)]
        } else {
            Seq::empty()
        }));
        self.publish_peer_band(out);
        assert(out@ =~= out0 + rebuild_effects(c0, config@, prev_position));
        assert(self@ =~= rebuilt(c0, config@));
    }

    /// Halt: the flags go down and every parked read is answered with a
    /// retry.
    pub fn halt(&mut self, out: &mut Effects)
        ensures
            final(self)@ == halted(old(self)@),
            final(out)@ == old(out)@ + halt_effects(old(self)@.reads.pending),
            old(self)@.wf() ==> final(self)@.wf(),
    {
        let ghost c0 = self@;
        let ghost out0 = out@;
        self.gate.halt();
        out.plain(Plain::LeaderFlag(false));
        out.plain(Plain::CanServeFlag(false));
        let clients = self.reads.retry_all();
        let ghost retries = c0.reads.pending.map_values(
            |r: reads::ReadV|
                EffectV::Plain(Plain::Retry { client_id: r.client_id, local_seq: r.local_seq }),
        );
        let ghost flags = seq![
            EffectV::Plain(Plain::LeaderFlag(false)),
            EffectV::Plain(Plain::CanServeFlag(false)),
        ];
        assert(out@ =~= out0 + flags + retries.take(0));
        for i in 0..clients.len()
            invariant
                clients@ == reads::clients_of(c0.reads.pending),
                retries == c0.reads.pending.map_values(
                    |r: reads::ReadV|
                        EffectV::Plain(
                            Plain::Retry { client_id: r.client_id, local_seq: r.local_seq },
                        ),
                ),
                out@ == out0 + flags + retries.take(i as int),
        {
            out.plain(Plain::Retry { client_id: clients[i].0, local_seq: clients[i].1 });
            assert(out@ =~= out0 + flags + retries.take(i as int + 1));
        }
        assert(retries.take(retries.len() as int) =~= retries);
        assert(out@ =~= out0 + halt_effects(c0.reads.pending));
        assert(self@ =~= halted(c0));
    }

    /// Put one datagram, where its destination has a route.
    fn put_send(&self, to: NodeId, term: u32, body: Body, out: &mut Effects)
        ensures
            final(out)@ == old(out)@ + send_to(self.maps.table@, to, term, body),
    {
        match addr_for(&self.maps.table, to) {
            Some(addr) => {
                out.plain(Plain::Send { to: addr, term, body });
            },
            None => {},
        }
        assert(final(out)@ =~= old(out)@ + send_to(self.maps.table@, to, term, body));
    }

    /// Whom commit gossip, term maps and the group key go to: voting peers,
    /// then learners.
    pub fn gossip_targets(&self) -> (ids: Vec<NodeId>)
        ensures
            ids@ == self@.gossip_targets(),
    {
        let mut ids = copy_ids(&self.maps.peers);
        for i in 0..self.maps.learner_ids.len()
            invariant
                ids@ == self.maps.peers@ + self.maps.learner_ids@.take(i as int),
        {
            ids.push(self.maps.learner_ids[i]);
            assert(ids@ =~= self.maps.peers@ + self.maps.learner_ids@.take(i as int + 1));
        }
        assert(self.maps.learner_ids@.take(self.maps.learner_ids@.len() as int)
            =~= self.maps.learner_ids@);
        ids
    }

    /// Ask every voting peer for its vote.
    fn put_request_votes(
        &self,
        new_term: u32,
        last_term: u32,
        last_durable: u64,
        out: &mut Effects,
    )
        requires
            self@.wf(),
        ensures
            final(out)@ == old(out)@ + self@.maps.peers.map_values(
                |id: NodeId|
                    EffectV::Plain(
                        Plain::Send {
                            to: cluster::route_addr(self@.maps.table, id)->0,
                            term: new_term,
                            body: Body::RequestVote { new_term, last_term, last_durable },
                        },
                    ),
            ),
    {
        let ghost sends = self@.maps.peers.map_values(
            |id: NodeId|
                EffectV::Plain(
                    Plain::Send {
                        to: cluster::route_addr(self@.maps.table, id)->0,
                        term: new_term,
                        body: Body::RequestVote { new_term, last_term, last_durable },
                    },
                ),
        );
        let ghost out0 = out@;
        assert(out@ =~= out0 + sends.take(0));
        for i in 0..self.maps.peers.len()
            invariant
                self@.wf(),
                sends == self@.maps.peers.map_values(
                    |id: NodeId|
                        EffectV::Plain(
                            Plain::Send {
                                to: cluster::route_addr(self@.maps.table, id)->0,
                                term: new_term,
                                body: Body::RequestVote { new_term, last_term, last_durable },
                            },
                        ),
                ),
                out@ == out0 + sends.take(i as int),
        {
            let to: NodeId = self.maps.peers[i];
            assert(cluster::route_addr(self@.maps.table, self@.maps.peers[i as int]) is Some);
            self.put_send(
                to,
                new_term,
                Body::RequestVote { new_term, last_term, last_durable },
                out,
            );
            assert(out@ =~= out0 + sends.take(i as int + 1));
        }
        assert(sends.take(sends.len() as int) =~= sends);
    }

    /// Ship the term map to every gossip target.
    fn put_term_maps(&self, entries: &TermMap, term: u32, out: &mut Effects)
        requires
            self@.wf(),
        ensures
            final(out)@ == old(out)@ + self@.gossip_targets().map_values(
                |id: NodeId|
                    EffectV::TermMapTo {
                        to: cluster::route_addr(self@.maps.table, id)->0,
                        term,
                        entries: entries@,
                    },
            ),
    {
        let ghost maps = self@.gossip_targets().map_values(
            |id: NodeId|
                EffectV::TermMapTo {
                    to: cluster::route_addr(self@.maps.table, id)->0,
                    term,
                    entries: entries@,
                },
        );
        let ghost out0 = out@;
        let targets = self.gossip_targets();
        assert(out@ =~= out0 + maps.take(0));
        for i in 0..targets.len()
            invariant
                self@.wf(),
                targets@ == self@.gossip_targets(),
                maps == self@.gossip_targets().map_values(
                    |id: NodeId|
                        EffectV::TermMapTo {
                            to: cluster::route_addr(self@.maps.table, id)->0,
                            term,
                            entries: entries@,
                        },
                ),
                out@ == out0 + maps.take(i as int),
        {
            proof {
                let n = self@.maps.peers.len();
                if i < n {
                    assert(targets@[i as int] == self@.maps.peers[i as int]);
                } else {
                    assert(targets@[i as int] == self@.maps.learner_ids[i - n]);
                }
                assert(cluster::route_addr(self@.maps.table, targets@[i as int]) is Some);
            }
            match addr_for(&self.maps.table, targets[i]) {
                Some(to) => {
                    out.put(Effect::TermMapTo { to, term, entries: copy_map(entries) });
                },
                None => {},
            }
            assert(out@ =~= out0 + maps.take(i as int + 1));
        }
        assert(maps.take(maps.len() as int) =~= maps);
    }

    /// Elected: persist the map, close intake, command the collapse.
    fn become_leader(&mut self, term: u32, base: u64, sm: &SmView, out: &mut Effects)
        requires
            old(self).gate.next_collapse_epoch < u64::MAX,
        ensures
            final(self)@ == acted(old(self)@, ActionV::BecomeLeader { term, base }, *sm),
            final(out)@ == old(out)@ + action_effects(
                old(self)@,
                ActionV::BecomeLeader { term, base },
                *sm,
            ),
    {
        let ghost c0 = self@;
        let ghost out0 = out@;
        self.admin.invalidate_caches(self.config_version, out);
        out.put(Effect::StoreTermMap(copy_map(&sm.term_map)));
        out.plain(Plain::TermHandle(term));
        out.plain(Plain::Gate(false));
        let epoch: u64 = self.gate.open_leader(term, base);
        out.plain(Plain::Archive(ArchiveCmd::Collapse { epoch, to: base }));
        if self.crypto.enabled {
            out.plain(Plain::CryptoBecameLeader);
        }
        out.plain(Plain::Log(NodeEvent::BecameLeader { term, base }));
        assert(out@ =~= out0 + action_effects(c0, ActionV::BecomeLeader { term, base }, *sm));
        assert(self@ =~= acted(c0, ActionV::BecomeLeader { term, base }, *sm));
    }

    /// Stepped down, or a follower of a new term.
    fn become_follower(
        &mut self,
        term: u32,
        leader: Option<NodeId>,
        sm: &SmView,
        out: &mut Effects,
    )
        ensures
            final(self)@ == acted(old(self)@, ActionV::BecomeFollower { term, leader }, *sm),
            final(out)@ == old(out)@ + action_effects(
                old(self)@,
                ActionV::BecomeFollower { term, leader },
                *sm,
            ),
    {
        let ghost c0 = self@;
        let ghost out0 = out@;
        self.admin.invalidate_caches(self.config_version, out);
        out.plain(Plain::TermHandle(term));
        out.plain(Plain::LeaderFlag(false));
        out.plain(Plain::DropAppender);
        if self.gate.follow(term) {
            out.plain(Plain::Gate(false));
            out.plain(Plain::LeaderHint(gate::LEADER_UNKNOWN));
        }
        out.plain(Plain::Log(NodeEvent::BecameFollower { term, leader }));
        assert(out@ =~= out0 + action_effects(c0, ActionV::BecomeFollower { term, leader }, *sm));
        assert(self@ =~= acted(c0, ActionV::BecomeFollower { term, leader }, *sm));
    }

    /// The record as a truncation to `to` leaves it, where that changes it.
    fn record_after_cut(&self, to: u64) -> (r: Option<ConfigRecord>)
        ensures
            recover::stored_view(r) == (if cuts_record(self@.record, to) {
                Some(cut_record(self@.record->0, to))
            } else {
                None
            }),
    {
        match &self.record {
            Some(rec) => {
                if to >= rec.position {
                    None
                } else if to == 0 {
                    Some(
                        ConfigRecord {
                            position: 0,
                            config: rec.config.clone(),
                            prev_position: 0,
                            prev: rec.config.clone(),
                        },
                    )
                } else {
                    Some(revert_record(rec))
                }
            },
            None => None,
        }
    }

    /// Truncate: the pruned map and the reverted record durably first, then
    /// the command.
    fn truncate_log(&mut self, epoch: u64, to: u64, new_map: TermMap, sm: &SmView, out: &mut Effects)
        ensures
            final(self)@ == acted(
                old(self)@,
                ActionV::Truncate { epoch, to, new_map: new_map@ },
                *sm,
            ),
            final(out)@ == old(out)@ + action_effects(
                old(self)@,
                ActionV::Truncate { epoch, to, new_map: new_map@ },
                *sm,
            ),
    {
        let ghost c0 = self@;
        let ghost out0 = out@;
        let ghost av = ActionV::Truncate { epoch, to, new_map: new_map@ };
        self.admin.invalidate_caches(self.config_version, out);
        out.put(Effect::StoreTermMap(new_map));
        match self.record_after_cut(to) {
            Some(rec) => {
                out.put(Effect::StoreRecord(rec.clone()));
                self.record = Some(rec);
            },
            None => {},
        }
        out.plain(Plain::Gate(false));
        self.gate.truncate(epoch);
        out.plain(Plain::Archive(ArchiveCmd::Truncate { epoch, to }));
        out.plain(Plain::Log(NodeEvent::LogTruncated { epoch, to }));
        assert(out@ =~= out0 + action_effects(c0, av, *sm));
        assert(self@ =~= acted(c0, av, *sm));
    }

    /// A configuration was adopted: durably first, then everything that
    /// depends on it.
    fn adopt_config(
        &mut self,
        position: u64,
        config: ClusterConfig,
        prev_position: u64,
        prev: ClusterConfig,
        sm: &SmView,
        out: &mut Effects,
    )
        requires
            config.voters.len() < usize::MAX,
        ensures
            ({
                let av = ActionV::ConfigAdopted {
                    position,
                    config: config@,
                    prev_position,
                    prev: prev@,
                };
                &&& final(self)@ == acted(old(self)@, av, *sm)
                &&& final(out)@ == old(out)@ + action_effects(old(self)@, av, *sm)
            }),
            old(self)@.wf() ==> final(self)@.wf(),
    {
        let ghost c0 = self@;
        let ghost out0 = out@;
        let ghost av = ActionV::ConfigAdopted {
            position,
            config: config@,
            prev_position,
            prev: prev@,
        };
        let rec = ConfigRecord {
            position,
            config: cluster_to_stored(&config),
            prev_position,
            prev: cluster_to_stored(&prev),
        };
        out.put(Effect::StoreRecord(rec.clone()));
        self.record = Some(rec);
        let ghost c1 = self@;
        let ghost out1 = out@;
        self.rebuild_net_for_config(&config, prev_position, out);
        let ghost rebuild = rebuild_effects(c0, config@, prev_position);
        assert(rebuild_effects(c1, config@, prev_position) == rebuild);
        assert(out@ == out1 + rebuild);
        out.plain(Plain::ConfigVersion(config.version));
        self.config_version = config.version;
        out.plain(Plain::ConfigPending(true));
        self.config_pending = true;
        if sm.is_leader && !config.is_voter(self.id) && !holds_id(&config.tombstones, self.id) {
            out.plain(Plain::Log(NodeEvent::SelfDemoted));
        }
        out.plain(
            Plain::Log(
                NodeEvent::ConfigAdopted { position, version: config.version, prev_position },
            ),
        );
        assert(out@ =~= out0 + action_effects(c0, av, *sm));
        assert(self@ =~= acted(c0, av, *sm));
    }

    /// Carry out one action of the election state machine.
    pub fn exec(&mut self, act: Action, sm: &SmView, out: &mut Effects)
        requires
            old(self)@.wf(),
            old(self).gate.next_collapse_epoch < u64::MAX,
            act matches Action::ConfigAdopted { config, .. } ==> config.voters.len() < usize::MAX,
        ensures
            final(self)@ == acted(old(self)@, act@, *sm),
            final(out)@ == old(out)@ + action_effects(old(self)@, act@, *sm),
            final(self)@.wf(),
            old(self).gate.wf() ==> final(self).gate.wf(),
    {
        let ghost c0 = self@;
        let ghost out0 = out@;
        let ghost av = act@;
        match act {
            Action::PersistAndSendVote { candidate, term, voted_for } => {
                out.plain(Plain::StoreVote { term, voted_for });
                if candidate != self.id {
                    self.put_send(candidate, term, Body::Vote { term, granted: true }, out);
                }
                assert(out@ =~= out0 + action_effects(c0, av, *sm));
            },
            Action::SendVoteRejection { candidate, term } => {
                self.put_send(candidate, term, Body::Vote { term, granted: false }, out);
            },
            Action::StartElection { new_term, last_term, last_durable } => {
                self.put_request_votes(new_term, last_term, last_durable, out);
            },
            Action::BecomeLeader { term, base } => {
                self.become_leader(term, base, sm, out);
            },
            Action::BecomeFollower { term, leader } => {
                self.become_follower(term, leader, sm, out);
            },
            Action::AdvanceCommit { commit } => {
                out.plain(Plain::Commit(commit));
                assert(out@ =~= out0 + action_effects(c0, av, *sm));
            },
            Action::GossipCommit { commit } => {
                let targets = self.gossip_targets();
                out.put(
                    Effect::FanOut {
                        targets,
                        term: sm.term,
                        body: FanOutBody::CommitPosition { commit },
                    },
                );
                assert(out@ =~= out0 + action_effects(c0, av, *sm));
            },
            Action::ShipTermMap { entries } => {
                self.put_term_maps(&entries, sm.term, out);
            },
            Action::Truncate { epoch, to, new_map } => {
                self.truncate_log(epoch, to, new_map, sm, out);
            },
            Action::PersistTermMap { new_map } => {
                out.put(Effect::StoreTermMap(new_map));
                assert(out@ =~= out0 + action_effects(c0, av, *sm));
            },
            Action::Fatal { reason } => {
                let mut text = String::new();
                text.append("consensus fatal (fail-stop): ");
                text.append(reason.as_str());
                assert(text@ =~= "consensus fatal (fail-stop): "@ + reason@);
                out.put(Effect::FailStop(text));
                assert(out@ =~= out0 + action_effects(c0, av, *sm));
            },
            Action::CountWipe => {
                self.gate.wipes = bump(self.gate.wipes);
                out.plain(Plain::Log(NodeEvent::LogWiped));
                assert(out@ =~= out0 + action_effects(c0, av, *sm));
                assert(self@ =~= acted(c0, av, *sm));
            },
            Action::ConfigAdopted { position, config, prev_position, prev } => {
                self.adopt_config(position, config, prev_position, prev, sm, out);
            },
            Action::HaltRemoved => {
                out.plain(Plain::Log(NodeEvent::HaltRemoved { term: sm.term }));
                self.halt(out);
                assert(out@ =~= out0 + action_effects(c0, av, *sm));
            },
            Action::StepDownRemoved => {
                out.plain(Plain::Log(NodeEvent::StepdownRemoved { term: sm.term }));
                self.halt(out);
                assert(out@ =~= out0 + action_effects(c0, av, *sm));
            },
        }
    }
}

/// The agent after a run of actions.
pub open spec fn all_acted(c: ConsensusV, acts: Seq<ActionV>, sm: SmView) -> ConsensusV
    decreases acts.len(),
{
    if acts.len() == 0 {
        c
    } else {
        acted(all_acted(c, acts.drop_last(), sm), acts.last(), sm)
    }
}

/// The effects of a run of actions: each action's own, in order, as the agent
/// stands when its turn comes.
pub open spec fn all_effects(c: ConsensusV, acts: Seq<ActionV>, sm: SmView) -> Seq<EffectV>
    decreases acts.len(),
{
    if acts.len() == 0 {
        Seq::empty()
    } else {
        all_effects(c, acts.drop_last(), sm) + action_effects(
            all_acted(c, acts.drop_last(), sm),
            acts.last(),
            sm,
        )
    }
}

/// Whether a run of actions asks for a truncation.
pub open spec fn truncates(acts: Seq<ActionV>) -> bool {
    exists|i: int| 0 <= i < acts.len() && #[trigger] acts[i] is Truncate
}

/// Whether a fed event, with the actions it led to, completes the reconcile
/// of the adopted term.
pub open spec fn feed_reconciles(
    c: ConsensusV,
    map_term: Option<u32>,
    term_before: u32,
    acts: Seq<ActionV>,
    sm: SmView,
) -> bool {
    all_acted(c, acts, sm).gate.reconciles(map_term, term_before, sm.term, truncates(acts))
}

/// The agent after an event was fed.
pub open spec fn fed(
    c: ConsensusV,
    map_term: Option<u32>,
    term_before: u32,
    acts: Seq<ActionV>,
    sm: SmView,
) -> ConsensusV {
    let after = all_acted(c, acts, sm);
    if feed_reconciles(c, map_term, term_before, acts, sm) {
        ConsensusV { gate: after.gate.reconciled(), ..after }
    } else {
        after
    }
}

/// The effects of feeding an event.
pub open spec fn feed_effects(
    c: ConsensusV,
    map_term: Option<u32>,
    term_before: u32,
    acts: Seq<ActionV>,
    sm: SmView,
) -> Seq<EffectV> {
    let done = all_effects(c, acts, sm);
    if feed_reconciles(c, map_term, term_before, acts, sm) {
        done.push(EffectV::Plain(Plain::Gate(true)))
    } else {
        done
    }
}

/// What a run of actions says.
pub open spec fn actions_view(acts: Seq<Action>) -> Seq<ActionV> {
    acts.map_values(|a: Action| a@)
}

/// An event of the election state machine.
#[derive(Debug)]
pub enum SmEvent {
    Report { from: NodeId, term: u32, durable: u64, durable_term: u32 },
    CommitGossip { term: u32, commit: u64 },
    RequestVote { from: NodeId, new_term: u32, last_term: u32, last_durable: u64 },
    Vote { from: NodeId, term: u32, granted: bool },
    TermMapReceived { term: u32, entries: TermMap },
    LeaderSeen { term: u32 },
}

/// What arrives from the network.
#[derive(Debug)]
pub enum NetEvent {
    Report { from: Addr, term: u32, durable: u64, durable_term: u32 },
    CommitGossip { from: Addr, term: u32, commit: u64 },
    RequestVote { from: Addr, new_term: u32, last_term: u32, last_durable: u64 },
    Vote { from: Addr, term: u32, granted: bool },
    TermMap { from: Addr, term: u32, entries: TermMap },
    ReadProbe { nonce: u64, prober: NodeId, term: u32 },
    ReadProbeAck { nonce: u64, acker: NodeId },
    LeaderActivity { term: u32 },
    ConfigProposal { from: Addr, proposal: admin::ConfigProposal },
    ConfigReply { reply: admin::ConfigReply },
}

/// What becomes of an event from the network.
pub struct NetStep {
    pub effects: Effects,
    /// Absorb the durable counter before feeding `feed`.
    pub refresh: bool,
    /// Feed this to the election state machine.
    pub feed: Option<SmEvent>,
    /// Put the forwarded proposal to the cluster, then answer it.
    pub propose: bool,
}

/// What a fed event says.
#[verifier::ext_equal]
pub enum SmEventV {
    Report { from: NodeId, term: u32, durable: u64, durable_term: u32 },
    CommitGossip { term: u32, commit: u64 },
    RequestVote { from: NodeId, new_term: u32, last_term: u32, last_durable: u64 },
    Vote { from: NodeId, term: u32, granted: bool },
    TermMapReceived { term: u32, entries: Seq<(u32, u64)> },
    LeaderSeen { term: u32 },
}

impl View for SmEvent {
    type V = SmEventV;

    open spec fn view(&self) -> SmEventV {
        match self {
            SmEvent::Report { from, term, durable, durable_term } => SmEventV::Report {
                from: *from,
                term: *term,
                durable: *durable,
                durable_term: *durable_term,
            },
            SmEvent::CommitGossip { term, commit } => SmEventV::CommitGossip {
                term: *term,
                commit: *commit,
            },
            SmEvent::RequestVote { from, new_term, last_term, last_durable } =>
                SmEventV::RequestVote {
                from: *from,
                new_term: *new_term,
                last_term: *last_term,
                last_durable: *last_durable,
            },
            SmEvent::Vote { from, term, granted } => SmEventV::Vote {
                from: *from,
                term: *term,
                granted: *granted,
            },
            SmEvent::TermMapReceived { term, entries } => SmEventV::TermMapReceived {
                term: *term,
                entries: entries@,
            },
            SmEvent::LeaderSeen { term } => SmEventV::LeaderSeen { term: *term },
        }
    }
}

/// What an optional event says.
pub open spec fn event_view(e: Option<SmEvent>) -> Option<SmEventV> {
    match e {
        Some(e) => Some(e@),
        None => None,
    }
}

/// A report of the current term that claims more than this leader ever
/// appended: provably corrupt, and dropped whole.
pub open spec fn implausible(term: u32, durable: u64, sm_term: u32, append: u64) -> bool {
    term == sm_term && durable > append
}

/// The agent after leader traffic of `term` from `from`: traffic of the
/// adopted term names its leader.
pub open spec fn hinted(c: ConsensusV, from: Addr, term: u32, sm_term: u32) -> ConsensusV {
    match cluster::route_id(c.maps.table, from) {
        Some(id) => if term == sm_term {
            ConsensusV { gate: TermGate { leader_hint: id as u64, ..c.gate }, ..c }
        } else {
            c
        },
        None => c,
    }
}

/// The effects of leader traffic.
pub open spec fn hint_effects(c: ConsensusV, from: Addr, term: u32, sm_term: u32) -> Seq<EffectV> {
    match cluster::route_id(c.maps.table, from) {
        Some(id) => if term == sm_term {
            seq![EffectV::Plain(Plain::LeaderHint(id as u64))]
        } else {
            Seq::empty()
        },
        None => Seq::empty(),
    }
}

/// The agent after an event from the network.
pub open spec fn net_after(c: ConsensusV, ev: NetEvent, sm: SmView, append: u64) -> ConsensusV {
    match ev {
        NetEvent::Report { from, term, durable, durable_term } => match cluster::route_id(
            c.maps.table,
            from,
        ) {
            Some(id) => if implausible(term, durable, sm.term, append) {
                ConsensusV { reports_implausible: gate::bumped(c.reports_implausible), ..c }
            } else {
                ConsensusV { reported: reported(c.reported, id, durable), ..c }
            },
            None => c,
        },
        NetEvent::CommitGossip { from, term, commit } => hinted(c, from, term, sm.term),
        NetEvent::TermMap { from, term, entries } => ConsensusV {
            leader_map: entries@,
            ..hinted(c, from, term, sm.term)
        },
        NetEvent::ReadProbeAck { nonce, acker: from } => ConsensusV {
            reads: reads::after_ack(c.reads, nonce, from, c.maps.peers),
            ..c
        },
        NetEvent::ConfigProposal { from, proposal: body } => ConsensusV {
            admin: admin::desk_after_proposal(
                c.admin,
                sm.is_leader,
                cluster::route_id(c.maps.table, from) is Some,
                body.nonce,
            ),
            ..c
        },
        NetEvent::ConfigReply { reply: body } => if c.admin.pending is Some
            && c.admin.pending->0.nonce == body.nonce {
            ConsensusV { admin: AdminV { pending: None, ..c.admin }, ..c }
        } else {
            c
        },
        _ => c,
    }
}

/// The effects of an event from the network, before it is fed.
pub open spec fn net_effects(c: ConsensusV, ev: NetEvent, sm: SmView) -> Seq<EffectV> {
    match ev {
        NetEvent::CommitGossip { from, term, commit } => hint_effects(c, from, term, sm.term),
        NetEvent::TermMap { from, term, entries } => hint_effects(c, from, term, sm.term),
        NetEvent::ReadProbe { nonce, prober: from, term } => if term == sm.term {
            send_to(c.maps.table, from, sm.term, Body::ReadProbeAck { nonce, from: c.id })
        } else {
            Seq::empty()
        },
        NetEvent::ConfigProposal { from, proposal: body } => admin::proposal_effects(
            c.admin,
            sm.is_leader,
            cluster::route_id(c.maps.table, from) is Some,
            from,
            body.nonce,
            sm.term,
        ),
        NetEvent::ConfigReply { reply: body } => if c.admin.pending is Some
            && c.admin.pending->0.nonce == body.nonce {
            seq![
                admin::local_answer(
                    c.admin.pending->0.actor,
                    admin::audited_fwd(c.admin.pending->0),
                    body.status,
                    body.reason,
                    body.version,
                ),
            ]
        } else {
            Seq::empty()
        },
        _ => Seq::empty(),
    }
}

/// What of an event from the network is fed to the election state machine.
/// An unknown source is never fed on.
pub open spec fn net_feed(c: ConsensusV, ev: NetEvent, sm: SmView, append: u64) -> Option<SmEventV> {
    match ev {
        NetEvent::Report { from, term, durable, durable_term } => match cluster::route_id(
            c.maps.table,
            from,
        ) {
            Some(id) => if implausible(term, durable, sm.term, append) {
                None
            } else {
                Some(SmEventV::Report { from: id, term, durable, durable_term })
            },
            None => None,
        },
        NetEvent::CommitGossip { from, term, commit } => Some(
            SmEventV::CommitGossip { term, commit },
        ),
        NetEvent::RequestVote { from, new_term, last_term, last_durable } => match cluster::route_id(
            c.maps.table,
            from,
        ) {
            Some(id) => Some(
                SmEventV::RequestVote { from: id, new_term, last_term, last_durable },
            ),
            None => None,
        },
        NetEvent::Vote { from, term, granted } => match cluster::route_id(c.maps.table, from) {
            Some(id) => Some(SmEventV::Vote { from: id, term, granted }),
            None => None,
        },
        NetEvent::TermMap { from, term, entries } => Some(
            SmEventV::TermMapReceived { term, entries: entries@ },
        ),
        NetEvent::LeaderActivity { term } => Some(SmEventV::LeaderSeen { term }),
        _ => None,
    }
}

impl Consensus {
    /// Feed one event's consequences: carry out every action in order, then
    /// reopen intake if that completed the reconcile of the adopted term.
    /// `map_term` is the term of the term map that was fed, if it was one.
    pub fn feed_actions(
        &mut self,
        map_term: Option<u32>,
        term_before: u32,
        actions: Vec<Action>,
        sm: &SmView,
    ) -> (out: Effects)
        requires
            old(self)@.wf(),
            old(self).gate.next_collapse_epoch + actions@.len() <= u64::MAX,
            forall|i: int|
                0 <= i < actions@.len() ==> (#[trigger] actions@[i] matches Action::ConfigAdopted {
                    config,
                    ..
                } ==> config.voters.len() < usize::MAX),
        ensures
            final(self)@ == fed(
                old(self)@,
                map_term,
                term_before,
                actions_view(actions@),
                *sm,
            ),
            out@ == feed_effects(
                old(self)@,
                map_term,
                term_before,
                actions_view(actions@),
                *sm,
            ),
            final(self)@.wf(),
            old(self).gate.wf() ==> final(self).gate.wf(),
    {
        let mut out = Effects::new();
        let ghost acts = actions_view(actions@);
        let ghost c0 = self@;
        let mut produced_truncate = false;
        assert(acts.take(0) =~= Seq::<ActionV>::empty());
        for act in it: actions
            invariant
                it.seq() == actions@,
                c0 == old(self)@,
                acts == actions_view(actions@),
                self@.wf(),
                old(self).gate.wf() ==> self.gate.wf(),
                self.gate.next_collapse_epoch <= old(self).gate.next_collapse_epoch + it.index(),
                old(self).gate.next_collapse_epoch + actions@.len() <= u64::MAX,
                forall|i: int|
                    0 <= i < actions@.len() ==> (#[trigger] actions@[i] matches Action::ConfigAdopted {
                        config,
                        ..
                    } ==> config.voters.len() < usize::MAX),
                self@ == all_acted(c0, acts.take(it.index() as int), *sm),
                out@ == all_effects(c0, acts.take(it.index() as int), *sm),
                produced_truncate == truncates(acts.take(it.index() as int)),
        {
            let ghost k = it.index() as int;
            assert(act == actions@[k]);
            assert(acts.take(k + 1).drop_last() =~= acts.take(k));
            assert(acts.take(k + 1).last() == act@);
            let is_cut = match &act {
                Action::Truncate { .. } => true,
                _ => false,
            };
            proof {
                assert(is_cut == (act@ is Truncate));
                if produced_truncate {
                    let i = choose|i: int| 0 <= i < k && #[trigger] acts.take(k)[i] is Truncate;
                    assert(acts.take(k + 1)[i] is Truncate);
                }
                if is_cut {
                    assert(acts.take(k + 1)[k] is Truncate);
                }
                if truncates(acts.take(k + 1)) {
                    let i = choose|i: int|
                        0 <= i < k + 1 && #[trigger] acts.take(k + 1)[i] is Truncate;
                    if i < k {
                        assert(acts.take(k)[i] is Truncate);
                    }
                }
            }
            if is_cut {
                produced_truncate = true;
            }
            self.exec(act, sm, &mut out);
        }
        assert(acts.take(acts.len() as int) =~= acts);
        let opened = self.gate.reopen_if_reconciled(
            map_term,
            term_before,
            sm.term,
            produced_truncate,
        );
        if opened {
            out.plain(Plain::Gate(true));
        }
        assert(self@ =~= fed(c0, map_term, term_before, acts, *sm));
        out
    }

    /// Learn who leads from leader traffic.
    fn learn_leader_hint(&mut self, from: Addr, term: u32, sm_term: u32, out: &mut Effects)
        ensures
            final(self)@ == hinted(old(self)@, from, term, sm_term),
            final(out)@ == old(out)@ + hint_effects(old(self)@, from, term, sm_term),
            final(self).maps == old(self).maps,
    {
        let ghost c0 = self@;
        if term == sm_term {
            match id_for(&self.maps.table, from) {
                Some(id) => {
                    self.gate.leader_hint = id as u64;
                    out.plain(Plain::LeaderHint(id as u64));
                },
                None => {},
            }
        }
        assert(final(out)@ =~= old(out)@ + hint_effects(c0, from, term, sm_term));
        assert(self@ =~= hinted(c0, from, term, sm_term));
    }

    /// Take up one event from the network. `append` is this node's own append
    /// position.
    pub fn feed_net(&mut self, ev: NetEvent, sm: &SmView, append: u64) -> (step: NetStep)
        requires
            old(self)@.wf(),
        ensures
            final(self)@ == net_after(old(self)@, ev, *sm, append),
            step.effects@ == net_effects(old(self)@, ev, *sm),
            event_view(step.feed) == net_feed(old(self)@, ev, *sm, append),
            step.refresh == net_refreshes(old(self)@, ev),
            step.refresh == (ev is RequestVote && step.feed is Some),
            step.propose == net_proposes(old(self)@, ev, *sm),
            final(self)@.wf(),
            old(self).gate.wf() ==> final(self).gate.wf(),
    {
        let ghost c0 = self@;
        let mut out = Effects::new();
        let mut feed: Option<SmEvent> = None;
        let mut refresh = false;
        let mut propose = false;
        match ev {
            NetEvent::Report { from, term, durable, durable_term } => {
                match id_for(&self.maps.table, from) {
                    Some(id) => {
                        if term == sm.term && durable > append {
                            self.reports_implausible = bump(self.reports_implausible);
                        } else {
                            note_report(&mut self.reported, id, durable);
                            feed = Some(SmEvent::Report { from: id, term, durable, durable_term });
                        }
                    },
                    None => {},
                }
            },
            NetEvent::CommitGossip { from, term, commit } => {
                self.learn_leader_hint(from, term, sm.term, &mut out);
                feed = Some(SmEvent::CommitGossip { term, commit });
            },
            NetEvent::RequestVote { from, new_term, last_term, last_durable } => {
                match id_for(&self.maps.table, from) {
                    Some(id) => {
                        refresh = true;
                        feed = Some(
                            SmEvent::RequestVote { from: id, new_term, last_term, last_durable },
                        );
                    },
                    None => {},
                }
            },
            NetEvent::Vote { from, term, granted } => {
                match id_for(&self.maps.table, from) {
                    Some(id) => {
                        feed = Some(SmEvent::Vote { from: id, term, granted });
                    },
                    None => {},
                }
            },
            NetEvent::TermMap { from, term, entries } => {
                self.learn_leader_hint(from, term, sm.term, &mut out);
                self.leader_map = copy_map(&entries);
                feed = Some(SmEvent::TermMapReceived { term, entries });
            },
            NetEvent::ReadProbe { nonce, prober: from, term } => {
                if term == sm.term {
                    self.put_send(
                        from,
                        sm.term,
                        Body::ReadProbeAck { nonce, from: self.id },
                        &mut out,
                    );
                }
            },
            NetEvent::ReadProbeAck { nonce, acker: from } => {
                self.reads.on_read_probe_ack(nonce, from, &self.maps.peers);
            },
            NetEvent::LeaderActivity { term } => {
                feed = Some(SmEvent::LeaderSeen { term });
            },
            NetEvent::ConfigProposal { from, proposal: body } => {
                let (effects, fresh) = self.admin.on_config_proposal(
                    from,
                    body,
                    sm.is_leader,
                    &self.maps.table,
                    sm.term,
                );
                out = effects;
                propose = fresh;
            },
            NetEvent::ConfigReply { reply: body } => {
                out = self.admin.on_config_reply(body);
            },
        }
        assert(out@ =~= net_effects(c0, ev, *sm));
        assert(self@ =~= net_after(c0, ev, *sm, append));
        NetStep { effects: out, refresh, feed, propose }
    }
}

/// What an inbound snapshot at `pos` asks for.
#[derive(Debug)]
pub enum Incoming {
    /// Already taken up.
    Known,
    /// This node covers `pos` itself: only the signal is mirrored.
    Covered,
    /// Install it. The leader's term map to adopt first, if one is known.
    Install { lineage: Option<TermMap> },
}

/// The record of a configuration installed by fiat at `pos`.
pub open spec fn fiat_record(config: ConfigV, pos: u64) -> RecordV {
    RecordV { position: pos, config, prev_position: pos, prev: config }
}

/// The agent after a snapshot at `pos` was installed.
pub open spec fn installed(c: ConsensusV, pos: u64, config: Option<ConfigV>) -> ConsensusV {
    match config {
        Some(cfg) => ConsensusV {
            record: Some(fiat_record(cfg, pos)),
            config_version: cfg.version,
            config_pending: false,
            ..rebuilt(c, cfg)
        },
        None => c,
    }
}

/// The effects of installing a snapshot: its lineage and its configuration
/// durably before the archive adopts the floor.
pub open spec fn install_effects(
    c: ConsensusV,
    pos: u64,
    term_map: Option<Seq<(u32, u64)>>,
    config: Option<ConfigV>,
) -> Seq<EffectV> {
    (match term_map {
        Some(m) => seq![EffectV::StoreTermMap(m)],
        None => Seq::empty(),
    }) + (match config {
        Some(cfg) => seq![
            EffectV::StoreRecord(fiat_record(cfg, pos)),
            EffectV::Plain(Plain::ConfigVersion(cfg.version)),
            EffectV::Plain(Plain::ConfigPending(false)),
        ] + rebuild_effects(c, cfg, pos),
        None => Seq::empty(),
    }) + seq![
        EffectV::Plain(Plain::Archive(ArchiveCmd::AdoptFloor { pos })),
        EffectV::Plain(Plain::Log(NodeEvent::SnapshotInstalled { pos })),
    ]
}

/// What an optional term map says.
pub open spec fn map_view(m: Option<TermMap>) -> Option<Seq<(u32, u64)>> {
    match m {
        Some(m) => Some(m@),
        None => None,
    }
}

/// What an optional configuration says.
pub open spec fn config_view(c: Option<ClusterConfig>) -> Option<ConfigV> {
    match c {
        Some(c) => Some(c@),
        None => None,
    }
}

/// Whether a removed node's flags are forced down.
pub open spec fn shown_serving(c: ConsensusV, sm: SmView) -> bool {
    !c.gate.halt_removed && sm.can_serve
}

/// The effects of publishing the term and the role flags.
pub open spec fn status_effects(c: ConsensusV, sm: SmView) -> Seq<EffectV> {
    seq![
        EffectV::Plain(
            Plain::Status {
                term: sm.term,
                leader: !c.gate.halt_removed && c.gate.leader_flag,
                can_serve: shown_serving(c, sm),
            },
        ),
    ] + (if shown_serving(c, sm) != c.published_can_serve {
        seq![
            EffectV::Plain(
                Plain::Log(
                    NodeEvent::ServingChanged {
                        term: sm.term,
                        can_serve: shown_serving(c, sm),
                    },
                ),
            ),
        ]
    } else {
        Seq::empty()
    })
}

/// The term observations that may be fed now, and those that are held, given
/// those held so far and the news.
pub open spec fn terms_split(
    held: Seq<(u32, u64)>,
    news: Seq<(u32, u64)>,
    truncating: bool,
) -> (Seq<(u32, u64)>, Seq<(u32, u64)>) {
    if truncating {
        (Seq::empty(), held + news)
    } else {
        (held + news, Seq::empty())
    }
}

/// The inbound snapshot last taken up, once one at `pos` was completed.
pub open spec fn incoming_mark(adopted: u64, pos: u64) -> u64 {
    if pos > adopted {
        pos
    } else {
        adopted
    }
}

/// Whether an inbound snapshot at `pos` has to be installed: it is a new one,
/// and this node does not reach that far itself.
pub open spec fn incoming_installs(adopted: u64, pos: u64, durable: u64) -> bool {
    adopted < pos && durable < pos
}

/// What becomes of a configuration frame that ends at `position`.
pub open spec fn observation(
    position: u64,
    durable: u64,
    adopted: ConfigV,
    incoming: ConfigV,
) -> ConfigObservation {
    if position > durable {
        ConfigObservation::Implausible
    } else {
        ConfigObservation::Observed {
            divergent: incoming.version == adopted.version && incoming != adopted,
        }
    }
}

/// Where the last known leader is, if it is known and has a route.
pub open spec fn leader_route(c: ConsensusV) -> Option<Addr> {
    if c.gate.leader_hint == gate::LEADER_UNKNOWN {
        None
    } else {
        cluster::route_addr(c.maps.table, c.gate.leader_hint as u32)
    }
}

/// What the agent knows when an admin request comes in.
pub open spec fn admin_context(c: ConsensusV, sm: SmView) -> admin::AdminContext {
    admin::AdminContext {
        is_leader: sm.is_leader,
        leader_addr: leader_route(c),
        term: sm.term,
        version: c.config_version,
    }
}

impl Consensus {
    /// The receiver completed an inbound snapshot at `pos`.
    pub fn begin_incoming_snapshot(&mut self, pos: u64, durable: u64) -> (r: (Incoming, Effects))
        ensures
            final(self)@ == (ConsensusV {
                adopted_incoming: incoming_mark(old(self)@.adopted_incoming, pos),
                ..old(self)@
            }),
            r.0 is Install <==> incoming_installs(old(self)@.adopted_incoming, pos, durable),
            (if pos <= old(self)@.adopted_incoming {
                r.0 is Known && r.1@ == Seq::<EffectV>::empty()
            } else if durable >= pos {
                r.0 is Covered && r.1@ == seq![
                    EffectV::Plain(Plain::IncomingSnapshot(pos)),
                    EffectV::Plain(Plain::Log(NodeEvent::SnapshotInstalled { pos })),
                ]
            } else {
                &&& r.1@ == seq![EffectV::Plain(Plain::IncomingSnapshot(pos))]
                &&& r.0 matches Incoming::Install { lineage } && map_view(lineage) == (if old(
                    self,
                )@.leader_map.len() == 0 {
                    None
                } else {
                    Some(old(self)@.leader_map)
                })
            }),
            final(self).maps == old(self).maps,
            old(self)@.wf() ==> final(self)@.wf(),
    {
        let mut out = Effects::new();
        if pos <= self.adopted_incoming {
            assert(self@ =~= (ConsensusV {
                adopted_incoming: old(self)@.adopted_incoming,
                ..old(self)@
            }));
            return (Incoming::Known, out);
        }
        self.adopted_incoming = pos;
        out.plain(Plain::IncomingSnapshot(pos));
        if durable >= pos {
            out.plain(Plain::Log(NodeEvent::SnapshotInstalled { pos }));
            return (Incoming::Covered, out);
        }
        let lineage = if self.leader_map.len() == 0 {
            None
        } else {
            Some(copy_map(&self.leader_map))
        };
        (Incoming::Install { lineage }, out)
    }

    /// Install the snapshot at `pos`, once the state machine has adopted its
    /// lineage (`term_map` is its map then) and the configuration it carried.
    pub fn install_snapshot(
        &mut self,
        pos: u64,
        term_map: Option<TermMap>,
        config: Option<ClusterConfig>,
    ) -> (out: Effects)
        requires
            config matches Some(c) ==> c.voters.len() < usize::MAX,
        ensures
            final(self)@ == installed(old(self)@, pos, config_view(config)),
            out@ == install_effects(old(self)@, pos, map_view(term_map), config_view(config)),
            old(self)@.wf() ==> final(self)@.wf(),
    {
        let ghost c0 = self@;
        let ghost mv = map_view(term_map);
        let ghost cv = config_view(config);
        let mut out = Effects::new();
        match term_map {
            Some(m) => {
                out.put(Effect::StoreTermMap(m));
            },
            None => {},
        }
        let ghost first = match mv {
            Some(m) => seq![EffectV::StoreTermMap(m)],
            None => Seq::empty(),
        };
        assert(out@ =~= first);
        match config {
            Some(cfg) => {
                let rec = ConfigRecord {
                    position: pos,
                    config: cluster_to_stored(&cfg),
                    prev_position: pos,
                    prev: cluster_to_stored(&cfg),
                };
                out.put(Effect::StoreRecord(rec.clone()));
                self.record = Some(rec);
                out.plain(Plain::ConfigVersion(cfg.version));
                self.config_version = cfg.version;
                out.plain(Plain::ConfigPending(false));
                self.config_pending = false;
                let ghost c1 = self@;
                let ghost mid = out@;
                self.rebuild_net_for_config(&cfg, pos, &mut out);
                assert(rebuild_effects(c1, cfg@, pos) == rebuild_effects(c0, cfg@, pos));
                assert(mid =~= first + seq![
                    EffectV::StoreRecord(fiat_record(cfg@, pos)),
                    EffectV::Plain(Plain::ConfigVersion(cfg@.version)),
                    EffectV::Plain(Plain::ConfigPending(false)),
                ]);
            },
            None => {},
        }
        out.plain(Plain::Archive(ArchiveCmd::AdoptFloor { pos }));
        out.plain(Plain::Log(NodeEvent::SnapshotInstalled { pos }));
        assert(out@ =~= install_effects(c0, pos, mv, cv));
        assert(self@ =~= installed(c0, pos, cv));
        out
    }

    /// Publish the serving flag for the node's own callers.
    pub fn publish_can_serve(&mut self, sm: &SmView) -> (out: Effects)
        ensures
            final(self)@ == (ConsensusV {
                gate: TermGate { can_serve_flag: shown_serving(old(self)@, *sm), ..old(self)@.gate },
                ..old(self)@
            }),
            out@ == seq![EffectV::Plain(Plain::CanServeFlag(shown_serving(old(self)@, *sm)))],
            forall|m: published::ShownV|
                published::mirrors(m, old(self)@) ==> published::mirrors(
                    #[trigger] published::shown(m, out@),
                    final(self)@,
                ),
            old(self)@.wf() ==> final(self)@.wf(),
    {
        let mut out = Effects::new();
        let serving = !self.gate.halt_removed && sm.can_serve;
        self.gate.can_serve_flag = serving;
        out.plain(Plain::CanServeFlag(serving));
        let ghost e = EffectV::Plain(Plain::CanServeFlag(serving));
        assert(out@ =~= seq![e]);
        assert forall|m: published::ShownV|
            published::mirrors(m, old(self)@) implies published::mirrors(
            #[trigger] published::shown(m, out@),
            self@,
        ) by {
            published::lemma_shown_one(m, e);
        }
        out
    }

    /// Publish the term and the role flags; a change of the serving flag is
    /// logged. A removed node shows neither role.
    pub fn publish_status(&mut self, sm: &SmView) -> (out: Effects)
        ensures
            final(self)@ == (ConsensusV {
                published_can_serve: shown_serving(old(self)@, *sm),
                ..old(self)@
            }),
            out@ == status_effects(old(self)@, *sm),
            old(self)@.wf() ==> final(self)@.wf(),
    {
        let ghost c0 = self@;
        let mut out = Effects::new();
        let leader = !self.gate.halt_removed && self.gate.leader_flag;
        let can_serve = !self.gate.halt_removed && sm.can_serve;
        out.plain(Plain::Status { term: sm.term, leader, can_serve });
        if can_serve != self.published_can_serve {
            out.plain(Plain::Log(NodeEvent::ServingChanged { term: sm.term, can_serve }));
        }
        self.published_can_serve = can_serve;
        assert(out@ =~= seq![EffectV::Plain(Plain::Status { term: sm.term, leader, can_serve })] + (
        if can_serve != c0.published_can_serve {
            seq![
                EffectV::Plain(Plain::Log(NodeEvent::ServingChanged { term: sm.term, can_serve })),
            ]
        } else {
            Seq::empty()
        }));
        out
    }

    /// Take in term observations, and hand on what may be fed now: everything
    /// held, in order, unless a truncation is in flight, which would lose it.
    pub fn observe_terms(&mut self, news: Vec<(u32, u64)>, truncating: bool) -> (feed: TermMap)
        ensures
            ({
                let (now, later) = terms_split(old(self)@.held_terms, news@, truncating);
                &&& feed@ == now
                &&& final(self)@ == (ConsensusV { held_terms: later, ..old(self)@ })
            }),
            old(self)@.wf() ==> final(self)@.wf(),
    {
        let ghost c0 = self@;
        let mut tail = news;
        self.held_terms.append(&mut tail);
        if truncating {
            assert(self@ =~= (ConsensusV { held_terms: c0.held_terms + news@, ..c0 }));
            return Vec::new();
        }
        let mut feed: TermMap = Vec::new();
        std::mem::swap(&mut feed, &mut self.held_terms);
        assert(self@ =~= (ConsensusV { held_terms: Seq::empty(), ..c0 }));
        feed
    }

    /// Mirror that the adopted configuration is committed.
    pub fn clear_config_pending(&mut self, sm: &SmView) -> (out: Effects)
        ensures
            final(self)@ == (ConsensusV {
                config_pending: old(self)@.config_pending && sm.config_pending,
                ..old(self)@
            }),
            out@ == (if old(self)@.config_pending && !sm.config_pending {
                seq![EffectV::Plain(Plain::ConfigPending(false))]
            } else {
                Seq::empty()
            }),
            forall|m: published::ShownV|
                published::mirrors(m, old(self)@) ==> published::mirrors(
                    #[trigger] published::shown(m, out@),
                    final(self)@,
                ),
            old(self)@.wf() ==> final(self)@.wf(),
    {
        let mut out = Effects::new();
        if !sm.config_pending && self.config_pending {
            out.plain(Plain::ConfigPending(false));
            self.config_pending = false;
            let ghost e = EffectV::Plain(Plain::ConfigPending(false));
            assert(out@ =~= seq![e]);
            assert forall|m: published::ShownV|
                published::mirrors(m, old(self)@) implies published::mirrors(
                #[trigger] published::shown(m, out@),
                self@,
            ) by {
                published::lemma_shown_one(m, e);
            }
        }
        out
    }

    /// Take up one request off the admin band.
    pub fn handle_admin(
        &mut self,
        req: admin::AdminReq,
        verdict: Result<Option<String>, u32>,
        sm: &SmView,
    ) -> (step: admin::AdminStep)
        ensures
            final(self)@ == asked(old(self)@, req, admin::verdict_view(verdict), *sm),
            step.effects@ == asked_effects(old(self)@, req, admin::verdict_view(verdict), *sm),
            admin::propose_view(step.propose) == admin::proposer(
                admin::verdict_view(verdict),
                sm.is_leader,
            ),
            old(self)@.wf() ==> final(self)@.wf(),
    {
        let leader_addr: Option<Addr> = if self.gate.leader_hint == gate::LEADER_UNKNOWN {
            None
        } else {
            addr_for(&self.maps.table, self.gate.leader_hint as u32)
        };
        let ctx = admin::AdminContext {
            is_leader: sm.is_leader,
            leader_addr,
            term: sm.term,
            version: self.config_version,
        };
        let ghost c0 = self@;
        self.admin.last_admin_seq = req.seq;
        let step = self.admin.handle_admin(req, verdict, ctx);
        assert(self@ =~= (ConsensusV {
            admin: AdminV {
                last_admin_seq: req.seq,
                ..admin::desk_after_request(
                    c0.admin,
                    req,
                    admin::verdict_view(verdict),
                    admin_context(c0, *sm),
                )
            },
            ..c0
        }));
        step
    }

    /// The archive acknowledged a collapse. The term to open, if this is the
    /// leader open in flight: install an appender, append the term's first
    /// frame, feed its end, then call [`Consensus::finish_leader_open`].
    pub fn on_collapsed(&mut self, epoch: u64, to: u64) -> (term: Option<u32>)
        ensures
            final(self)@ == (ConsensusV {
                gate: old(self)@.gate.collapsed(epoch, to),
                ..old(self)@
            }),
            term == old(self)@.gate.opens(epoch),
            old(self).gate.wf() ==> final(self).gate.wf(),
            old(self)@.wf() ==> final(self)@.wf(),
    {
        self.gate.on_collapsed(epoch, to)
    }

    /// Complete a leader open: intake opens and this node says it leads.
    pub fn finish_leader_open(&mut self) -> (out: Effects)
        ensures
            final(self)@ == (ConsensusV {
                gate: old(self)@.gate.leader_opened(old(self)@.id),
                ..old(self)@
            }),
            out@ == seq![
                EffectV::Plain(Plain::Gate(true)),
                EffectV::Plain(Plain::LeaderFlag(true)),
                EffectV::Plain(Plain::LeaderHint(old(self)@.id as u64)),
            ],
            forall|m: published::ShownV|
                published::mirrors(m, old(self)@) ==> published::mirrors(
                    #[trigger] published::shown(m, out@),
                    final(self)@,
                ),
            old(self)@.wf() ==> final(self)@.wf(),
    {
        let mut out = Effects::new();
        self.gate.finish_leader_open(self.id);
        out.plain(Plain::Gate(true));
        out.plain(Plain::LeaderFlag(true));
        out.plain(Plain::LeaderHint(self.id as u64));
        let ghost a = EffectV::Plain(Plain::Gate(true));
        let ghost b = EffectV::Plain(Plain::LeaderFlag(true));
        let ghost d = EffectV::Plain(Plain::LeaderHint(self.id as u64));
        assert(out@ =~= seq![a, b, d]);
        assert forall|m: published::ShownV|
            published::mirrors(m, old(self)@) implies published::mirrors(
            #[trigger] published::shown(m, out@),
            self@,
        ) by {
            published::lemma_shown_three(m, a, b, d);
        }
        out
    }

    /// The archive acknowledged a truncation: feed it, then call
    /// [`Consensus::finish_truncation`] iff this returned `true`.
    pub fn on_truncated(&mut self, epoch: u64, to: u64) -> (matching: bool)
        ensures
            final(self)@ == (ConsensusV { gate: old(self)@.gate.cut_at(to), ..old(self)@ }),
            matching == old(self)@.gate.awaits_cut(epoch),
            old(self).gate.wf() ==> final(self).gate.wf(),
            old(self)@.wf() ==> final(self)@.wf(),
    {
        self.gate.on_truncated(epoch, to)
    }

    /// Close the bracket of an acknowledged truncation.
    pub fn finish_truncation(&mut self, sm: &SmView) -> (out: Effects)
        ensures
            final(self)@ == (ConsensusV { gate: old(self)@.gate.truncated(sm.term), ..old(self)@ }),
            out@ == (if !old(self)@.gate.awaiting_reconcile && sm.term == old(
                self,
            )@.gate.adopted_term && old(self)@.gate.pending_leader_open is None {
                seq![EffectV::Plain(Plain::Gate(true))]
            } else {
                Seq::empty()
            }),
            forall|m: published::ShownV|
                published::mirrors(m, old(self)@) ==> published::mirrors(
                    #[trigger] published::shown(m, out@),
                    final(self)@,
                ),
            old(self).gate.wf() ==> final(self).gate.wf(),
            old(self)@.wf() ==> final(self)@.wf(),
    {
        let mut out = Effects::new();
        if self.gate.finish_truncation(sm.term) {
            out.plain(Plain::Gate(true));
            let ghost e = EffectV::Plain(Plain::Gate(true));
            assert(out@ =~= seq![e]);
            assert forall|m: published::ShownV|
                published::mirrors(m, old(self)@) implies published::mirrors(
                #[trigger] published::shown(m, out@),
                self@,
            ) by {
                published::lemma_shown_one(m, e);
            }
        }
        out
    }
}

/// The effects of probing the voters under `nonce`: one datagram for all of
/// them.
pub open spec fn probe_effects(c: ConsensusV, sm: SmView, nonce: Option<u64>) -> Seq<EffectV> {
    match nonce {
        Some(nonce) => seq![
            EffectV::FanOut {
                targets: c.maps.peers,
                term: sm.term,
                body: FanOutBody::ReadProbe { nonce, from: c.id },
            },
        ],
        None => Seq::empty(),
    }
}

/// What issuing a probe round needs to know, as the agent stands.
pub open spec fn round_context(c: ConsensusV, sm: SmView, commit: u64, now_ns: u64) -> RoundContext {
    RoundContext { id: c.id, peers: c.maps.peers.len() as usize, term: sm.term, commit, now_ns }
}

/// The nonce of the round that the barrier issues, if one is due.
pub open spec fn issued_nonce(b: BarrierV, ctx: RoundContext) -> Option<u64> {
    if reads::issues(b, ctx) {
        Some(b.next_nonce)
    } else {
        None
    }
}

/// The nonce of a round in flight that is due to be probed again.
pub open spec fn overdue_nonce(b: BarrierV, now_ns: u64) -> Option<u64> {
    match b.round {
        Some(r) => if r.due(now_ns) {
            Some(r.nonce)
        } else {
            None
        },
        None => None,
    }
}

impl Consensus {
    /// Whether reads are served: a halt within this cycle counts, although
    /// the state machine's own flag survives it.
    pub fn serves_reads(&self, sm: &SmView) -> (r: bool)
        ensures
            r == shown_serving(self@, *sm),
    {
        !self.gate.halt_removed && sm.can_serve
    }

    /// Whether ingress is appended rather than redirected.
    pub fn serves_ingress(&self, sm: &SmView) -> (r: bool)
        ensures
            r == takes_ingress(self@, *sm),
    {
        self.gate.leader_flag && sm.can_serve
    }

    /// What issuing a probe round needs to know.
    fn round_ctx(&self, sm: &SmView, commit: u64, now_ns: u64) -> (ctx: RoundContext)
        ensures
            ctx == round_context(self@, *sm, commit, now_ns),
            ctx.peers == self.maps.peers@.len(),
    {
        RoundContext { id: self.id, peers: self.maps.peers.len(), term: sm.term, commit, now_ns }
    }

    /// Probe the voters under `nonce`.
    fn put_probe(&self, sm: &SmView, nonce: Option<u64>, out: &mut Effects)
        ensures
            final(out)@ == old(out)@ + probe_effects(self@, *sm, nonce),
    {
        match nonce {
            Some(nonce) => {
                out.put(
                    Effect::FanOut {
                        targets: copy_ids(&self.maps.peers),
                        term: sm.term,
                        body: FanOutBody::ReadProbe { nonce, from: self.id },
                    },
                );
            },
            None => {},
        }
        assert(final(out)@ =~= old(out)@ + probe_effects(self@, *sm, nonce));
    }

    /// Take up the query records drained this cycle, at most
    /// [`reads::QUERY_DRAIN_PER_CYCLE`] of them, then issue the round they
    /// need.
    pub fn drain_query_ring(
        &mut self,
        records: Vec<QueryRecord>,
        sm: &SmView,
        commit: u64,
        now_ns: u64,
    ) -> (r: (Vec<QueryReply>, Effects))
        requires
            forall|i: int|
                0 <= i < records@.len() ==> (#[trigger] records@[i]).now_ns
                    + reads::READ_BARRIER_TIMEOUT_NS <= u64::MAX,
            old(self).reads.next_round_seq < u64::MAX,
            old(self).reads.next_nonce < u64::MAX,
            old(self).maps.peers@.len() < usize::MAX,
        ensures
            ({
                let c = old(self)@;
                let qs = records@.map_values(|q: QueryRecord| q@);
                &&& final(self)@ == (ConsensusV {
                    reads: queries_taken(c, qs, *sm, commit, now_ns),
                    ..c
                })
                &&& r.0@.map_values(|q: QueryReply| q@) == qs.map_values(
                    |q: reads::QueryV| reads::reply_to(q, shown_serving(c, *sm)),
                )
                &&& r.1@ == queries_effects(c, qs, *sm, commit, now_ns)
            }),
            old(self)@.wf() ==> final(self)@.wf(),
    {
        let ghost c0 = self@;
        let mut out = Effects::new();
        let serving = self.serves_reads(sm);
        let ctx = self.round_ctx(sm, commit, now_ns);
        let (replies, probe) = self.reads.drain_query_ring(records, serving, ctx);
        self.put_probe(sm, probe, &mut out);
        assert(out@ =~= probe_effects(c0, *sm, probe));
        assert(self@ =~= (ConsensusV { reads: self@.reads, ..c0 }));
        (replies, out)
    }

    /// Start a walk over the parked reads; `None` where none is parked, and
    /// then nothing is left to do for this cycle.
    pub fn begin_reads(&mut self, sm: &SmView) -> (s: Option<Sweep>)
        ensures
            final(self)@ == (ConsensusV {
                reads: reads::swept_round(old(self)@.reads, shown_serving(old(self)@, *sm), sm.term),
                ..old(self)@
            }),
            s == (if old(self)@.reads.pending.len() == 0 {
                None
            } else {
                Some(Sweep { index: 0 })
            }),
            old(self)@.wf() ==> final(self)@.wf(),
    {
        let ghost c0 = self@;
        let serving = self.serves_reads(sm);
        let s = self.reads.begin_sweep(serving, sm.term);
        assert(self@ =~= (ConsensusV { reads: self@.reads, ..c0 }));
        s
    }

    /// The next step of a walk: see [`ReadBarrier::sweep_next`].
    pub fn next_read(
        &mut self,
        sweep: &mut Sweep,
        now_ns: u64,
        sm: &SmView,
        sample: ServiceSample,
    ) -> (step: SweepStep)
        ensures
            final(self)@ == (ConsensusV {
                reads: reads::swept(
                    old(self)@.reads,
                    old(sweep).index as int,
                    now_ns,
                    shown_serving(old(self)@, *sm),
                    sample,
                ),
                ..old(self)@
            }),
            final(sweep).index == (if step is Parked {
                old(sweep).index + 1
            } else {
                old(sweep).index as int
            }),
            reads::step_view(step) == reads::sweep_step(
                old(self)@.reads.pending,
                old(sweep).index as int,
                now_ns,
                shown_serving(old(self)@, *sm),
                sample,
            ),
            old(self)@.wf() ==> final(self)@.wf(),
    {
        let ghost c0 = self@;
        let serving = self.serves_reads(sm);
        let step = self.reads.sweep_next(sweep, now_ns, serving, sample);
        assert(self@ =~= (ConsensusV { reads: self@.reads, ..c0 }));
        step
    }

    /// End a walk: probe again for an overdue round, and issue the next one
    /// if reads still wait.
    pub fn end_reads(&mut self, sm: &SmView, commit: u64, now_ns: u64) -> (out: Effects)
        requires
            old(self).reads.next_round_seq < u64::MAX,
            old(self).reads.next_nonce < u64::MAX,
            old(self).maps.peers@.len() < usize::MAX,
        ensures
            ({
                let c = old(self)@;
                &&& final(self)@ == (ConsensusV {
                    reads: walk_ended(c, *sm, commit, now_ns),
                    ..c
                })
                &&& out@ == walk_effects(c, *sm, commit, now_ns)
            }),
            old(self)@.wf() ==> final(self)@.wf(),
    {
        let ghost c0 = self@;
        let mut out = Effects::new();
        let ctx = self.round_ctx(sm, commit, now_ns);
        let (again, issued) = self.reads.end_sweep(ctx);
        self.put_probe(sm, again, &mut out);
        self.put_probe(sm, issued, &mut out);
        assert(out@ =~= probe_effects(c0, *sm, again) + probe_effects(c0, *sm, issued));
        assert(self@ =~= (ConsensusV { reads: self@.reads, ..c0 }));
        out
    }
}

/// Mirror the validated frontier for the receive path. The term goes first:
/// whoever reads between the two sees an older position under a newer term,
/// which a leader refuses, and never the reverse.
pub fn publish_validated(unattested: u64, term: u32, position: u64) -> (out: Effects)
    ensures
        out@ == validated_effects(unattested, term, position),
{
    let mut out = Effects::new();
    out.plain(Plain::ReportsUnattested(unattested));
    out.plain(Plain::ValidatedTerm(term));
    out.plain(Plain::ValidatedFrontier(position));
    assert(out@ =~= seq![
        EffectV::Plain(Plain::ReportsUnattested(unattested)),
        EffectV::Plain(Plain::ValidatedTerm(term)),
        EffectV::Plain(Plain::ValidatedFrontier(position)),
    ]);
    out
}

/// What becomes of a configuration frame that the archive has recorded.
#[derive(Debug)]
pub enum ConfigObservation {
    /// Above the durable frontier: logged and ignored.
    Implausible,
    /// Fed. `divergent`: its version is the adopted one's, its content is
    /// not.
    Observed { divergent: bool },
}

/// Look at a recorded configuration frame that ends at `position`.
pub fn observe_config(
    position: u64,
    durable: u64,
    adopted: &ClusterConfig,
    incoming: &ClusterConfig,
) -> (r: ConfigObservation)
    ensures
        r == observation(position, durable, adopted@, incoming@),
{
    if position > durable {
        return ConfigObservation::Implausible;
    }
    ConfigObservation::Observed {
        divergent: crate::node::cluster::config_content_diverges(adopted, incoming),
    }
}

/// A vote is on disk before it is answered.
pub proof fn law_vote_is_stored_before_it_is_sent(
    c: ConsensusV,
    candidate: NodeId,
    term: u32,
    voted_for: NodeId,
    sm: SmView,
)
    ensures
        ({
            let e = action_effects(
                c,
                ActionV::PersistAndSendVote { candidate, term, voted_for },
                sm,
            );
            &&& e.len() >= 1
            &&& e[0] == EffectV::Plain(Plain::StoreVote { term, voted_for })
            &&& forall|i: int|
                0 < i < e.len() ==> (#[trigger] e[i] matches EffectV::Plain(Plain::Send { .. }))
            &&& candidate == c.id ==> e.len() == 1
        }),
{
}

/// Before a truncation is commanded its pruned term map is on disk, and so is
/// the record taken back from the frame it removes; the command comes after
/// intake is closed.
pub proof fn law_truncation_is_prepared_on_disk(
    c: ConsensusV,
    epoch: u64,
    to: u64,
    new_map: Seq<(u32, u64)>,
    sm: SmView,
)
    ensures
        ({
            let e = action_effects(c, ActionV::Truncate { epoch, to, new_map }, sm);
            let n = e.len() as int;
            &&& e[n - 2] == EffectV::Plain(Plain::Archive(ArchiveCmd::Truncate { epoch, to }))
            &&& e[n - 3] == EffectV::Plain(Plain::Gate(false))
            &&& exists|i: int| 0 <= i < n - 3 && #[trigger] e[i] == EffectV::StoreTermMap(new_map)
            &&& cuts_record(c.record, to) ==> e[n - 4] == EffectV::StoreRecord(
                cut_record(c.record->0, to),
            )
        }),
{
    let e = action_effects(c, ActionV::Truncate { epoch, to, new_map }, sm);
    let k = admin::invalidation_effects(c.admin, c.config_version).len() as int;
    assert(e[k] == EffectV::StoreTermMap(new_map));
}

/// After a truncation the record no longer rests on a frame that the cut
/// removed, as long as its predecessor does not either. A cut at or above
/// the record's own frame leaves it untouched.
pub proof fn law_truncation_leaves_a_backed_record(
    c: ConsensusV,
    epoch: u64,
    to: u64,
    new_map: Seq<(u32, u64)>,
    sm: SmView,
)
    requires
        c.record is Some,
    ensures
        ({
            let after = acted(c, ActionV::Truncate { epoch, to, new_map }, sm);
            &&& after.record is Some
            &&& to >= c.record->0.position ==> after.record == c.record
            &&& c.record->0.prev_position <= to ==> after.record->0.position <= to
            &&& to == 0 ==> after.record->0.position == 0 && after.record->0.config
                == c.record->0.config
        }),
{
}

/// Adopting a configuration voids the probe round and keeps every parked
/// read.
pub proof fn law_adoption_keeps_reads(c: ConsensusV, config: ConfigV)
    ensures
        rebuilt(c, config).reads.round is None,
        rebuilt(c, config).reads.pending == c.reads.pending,
        rebuilt(c, config).reads.next_round_seq == c.reads.next_round_seq,
{
}

/// A configuration adopted at some position is durable before the node
/// behaves differently for it.
pub proof fn law_adoption_is_stored_first(
    c: ConsensusV,
    position: u64,
    config: ConfigV,
    prev_position: u64,
    prev: ConfigV,
    sm: SmView,
)
    ensures
        action_effects(
            c,
            ActionV::ConfigAdopted { position, config, prev_position, prev },
            sm,
        )[0] == EffectV::StoreRecord(RecordV { position, config, prev_position, prev }),
{
}

/// A probe of a term that is not this node's own gets no answer: a deposed
/// leader cannot collect a quorum from those that have moved on.
pub proof fn law_stale_probe_is_not_acked(
    c: ConsensusV,
    nonce: u64,
    from: NodeId,
    term: u32,
    sm: SmView,
)
    requires
        term != sm.term,
    ensures
        net_effects(c, NetEvent::ReadProbe { nonce, prober: from, term }, sm) == Seq::<EffectV>::empty(),
{
}

/// A corrupt report of the current term is neither counted toward a commit
/// nor remembered; one of a higher term always reaches the state machine.
pub proof fn law_implausible_reports_are_dropped(
    c: ConsensusV,
    from: Addr,
    id: NodeId,
    term: u32,
    durable: u64,
    durable_term: u32,
    sm: SmView,
    append: u64,
)
    requires
        cluster::route_id(c.maps.table, from) == Some(id),
    ensures
        ({
            let ev = NetEvent::Report { from, term, durable, durable_term };
            &&& (term == sm.term && durable > append) ==> net_feed(c, ev, sm, append) is None
                && net_after(c, ev, sm, append).reported == c.reported
            &&& term != sm.term ==> net_feed(c, ev, sm, append) == Some(
                SmEventV::Report { from: id, term, durable, durable_term },
            )
        }),
{
}

/// Removal is final: whatever a removed node is asked to do next, it stays
/// removed, and so it serves no read. A query is redirected, a parked read is
/// answered with a retry.
pub proof fn law_removed_node_serves_no_read(
    c: ConsensusV,
    act: ActionV,
    sm: SmView,
    q: reads::QueryV,
    i: int,
    now_ns: u64,
    sample: ServiceSample,
)
    requires
        c.gate.halt_removed || act is HaltRemoved || act is StepDownRemoved,
        q.linearizable,
    ensures
        ({
            let after = acted(c, act, sm);
            let r = after.reads.pending[i];
            &&& after.gate.halt_removed
            &&& !shown_serving(after, sm)
            &&& reads::reply_to(q, shown_serving(after, sm)) == (reads::ReplyV::NotLeader {
                client_id: q.client_id,
                local_seq: q.local_seq,
            })
            &&& 0 <= i < after.reads.pending.len() ==> reads::sweep_step(
                after.reads.pending,
                i,
                now_ns,
                shown_serving(after, sm),
                sample,
            ) == (reads::StepV::Retry { client_id: r.client_id, local_seq: r.local_seq })
        }),
{
}

/// What a peer has reported never moves back.
pub proof fn law_reports_only_grow(m: Map<NodeId, u64>, id: NodeId, durable: u64, other: NodeId)
    ensures
        reported(m, id, durable).dom().contains(id),
        reported(m, id, durable)[id] >= durable,
        m.dom().contains(other) ==> reported(m, id, durable).dom().contains(other) && reported(
            m,
            id,
            durable,
        )[other] >= m[other],
{
}

/// What a member sends is fed to the state machine as it was sent, under the
/// member's own id: a refusal of a vote stays a refusal, a report keeps its
/// positions and terms, and a map its entries.
pub proof fn law_feed_carries_what_arrived(
    c: ConsensusV,
    sm: SmView,
    append: u64,
    from: Addr,
    id: NodeId,
    term: u32,
    granted: bool,
    last_term: u32,
    position: u64,
    entries: TermMap,
)
    requires
        cluster::route_id(c.maps.table, from) == Some(id),
    ensures
        net_feed(c, NetEvent::Vote { from, term, granted }, sm, append) == Some(
            SmEventV::Vote { from: id, term, granted },
        ),
        net_feed(
            c,
            NetEvent::RequestVote { from, new_term: term, last_term, last_durable: position },
            sm,
            append,
        ) == Some(
            SmEventV::RequestVote { from: id, new_term: term, last_term, last_durable: position },
        ),
        !(term == sm.term && position > append) ==> net_feed(
            c,
            NetEvent::Report { from, term, durable: position, durable_term: last_term },
            sm,
            append,
        ) == Some(
            SmEventV::Report { from: id, term, durable: position, durable_term: last_term },
        ),
        net_feed(c, NetEvent::CommitGossip { from, term, commit: position }, sm, append) == Some(
            SmEventV::CommitGossip { term, commit: position },
        ),
        net_feed(c, NetEvent::TermMap { from, term, entries }, sm, append) == Some(
            SmEventV::TermMapReceived { term, entries: entries@ },
        ),
        net_feed(c, NetEvent::LeaderActivity { term }, sm, append) == Some(
            SmEventV::LeaderSeen { term },
        ),
{
}

/// Nothing in the election is heard from an address that is no member's: no
/// vote, no request for one and no report, and none is remembered. What is
/// not about the election is never fed.
pub proof fn law_strangers_take_no_part(
    c: ConsensusV,
    sm: SmView,
    append: u64,
    from: Addr,
    term: u32,
    granted: bool,
    last_term: u32,
    position: u64,
    nonce: u64,
    id: NodeId,
    proposal: admin::ConfigProposal,
    reply: admin::ConfigReply,
)
    ensures
        cluster::route_id(c.maps.table, from) is None ==> {
            let vote = NetEvent::Vote { from, term, granted };
            let ask = NetEvent::RequestVote {
                from,
                new_term: term,
                last_term,
                last_durable: position,
            };
            let report = NetEvent::Report {
                from,
                term,
                durable: position,
                durable_term: last_term,
            };
            &&& net_feed(c, vote, sm, append) is None && net_after(c, vote, sm, append) == c
            &&& net_feed(c, ask, sm, append) is None && net_after(c, ask, sm, append) == c
            &&& net_feed(c, report, sm, append) is None && net_after(c, report, sm, append) == c
        },
        net_feed(c, NetEvent::ReadProbe { nonce, prober: id, term }, sm, append) is None,
        net_feed(c, NetEvent::ReadProbeAck { nonce, acker: id }, sm, append) is None,
        net_feed(c, NetEvent::ConfigProposal { from, proposal }, sm, append) is None,
        net_feed(c, NetEvent::ConfigReply { reply }, sm, append) is None,
{
}

/// An event from the network changes what it is about and nothing else: a
/// report what its sender reported, leader traffic the leader that is known,
/// an acknowledgement the read barrier, an admin message the admin desk.
/// Votes, requests for them, probes and signs of a leader change nothing here.
pub proof fn law_network_touches_only_its_own(
    c: ConsensusV,
    ev: NetEvent,
    sm: SmView,
    append: u64,
)
    ensures
        ({
            let a = net_after(c, ev, sm, append);
            &&& a.id == c.id && a.maps == c.maps && a.record == c.record
            &&& a.band_published == c.band_published
            &&& a.config_version == c.config_version && a.config_pending == c.config_pending
            &&& a.crypto == c.crypto && a.published_can_serve == c.published_can_serve
            &&& a.adopted_incoming == c.adopted_incoming && a.held_terms == c.held_terms
            &&& a.gate == (TermGate { leader_hint: a.gate.leader_hint, ..c.gate })
            &&& !(ev is Report) ==> a.reported == c.reported && a.reports_implausible
                == c.reports_implausible
            &&& !(ev is CommitGossip || ev is TermMap) ==> a.gate == c.gate
            &&& !(ev is TermMap) ==> a.leader_map == c.leader_map
            &&& !(ev is ReadProbeAck) ==> a.reads == c.reads
            &&& !(ev is ConfigProposal || ev is ConfigReply) ==> a.admin == c.admin
            &&& ev is Vote || ev is RequestVote || ev is ReadProbe || ev is LeaderActivity ==> a
                == c
        }),
{
}

/// A member's report is remembered as the highest it has made, without
/// touching anybody else's; one that claims more than this leader appended is
/// counted and forgotten.
pub proof fn law_reports_are_kept_at_their_highest(
    c: ConsensusV,
    sm: SmView,
    append: u64,
    from: Addr,
    id: NodeId,
    term: u32,
    durable: u64,
    durable_term: u32,
    other: NodeId,
)
    requires
        cluster::route_id(c.maps.table, from) == Some(id),
    ensures
        ({
            let a = net_after(
                c,
                NetEvent::Report { from, term, durable, durable_term },
                sm,
                append,
            );
            let bad = term == sm.term && durable > append;
            &&& bad ==> a.reported == c.reported && (c.reports_implausible < u64::MAX
                ==> a.reports_implausible == c.reports_implausible + 1)
            &&& !bad ==> {
                &&& a.reports_implausible == c.reports_implausible
                &&& a.reported.dom().contains(id)
                &&& c.reported.dom().contains(id) && c.reported[id] > durable ==> a.reported[id]
                    == c.reported[id]
                &&& !(c.reported.dom().contains(id) && c.reported[id] > durable)
                    ==> a.reported[id] == durable
                &&& other != id ==> (a.reported.dom().contains(other) <==> c.reported.dom().contains(
                    other,
                )) && (c.reported.dom().contains(other) ==> a.reported[other] == c.reported[other])
            }
        }),
{
}

/// Traffic that only a leader sends, of the state machine's own term and from
/// a member, names that member the leader, and that is published. Any other
/// leaves the known leader alone and publishes nothing. The leader's map is
/// kept as it came.
pub proof fn law_leader_traffic_names_the_leader(
    c: ConsensusV,
    sm: SmView,
    append: u64,
    from: Addr,
    term: u32,
    commit: u64,
    entries: TermMap,
)
    ensures
        ({
            let gossip = NetEvent::CommitGossip { from, term, commit };
            let map = NetEvent::TermMap { from, term, entries };
            let id = cluster::route_id(c.maps.table, from);
            let a = net_after(c, gossip, sm, append);
            let b = net_after(c, map, sm, append);
            &&& b.leader_map == entries@
            &&& if id is Some && term == sm.term {
                let named = seq![EffectV::Plain(Plain::LeaderHint(id->0 as u64))];
                &&& a.gate.leader_hint == id->0 && b.gate.leader_hint == id->0
                &&& net_effects(c, gossip, sm) == named && net_effects(c, map, sm) == named
            } else {
                &&& a.gate == c.gate && b.gate == c.gate
                &&& net_effects(c, gossip, sm) == Seq::<EffectV>::empty()
                &&& net_effects(c, map, sm) == Seq::<EffectV>::empty()
            }
        }),
{
}

/// A probe of the current term is acknowledged to whoever sent it, by this
/// node, under the probe's own nonce.
pub proof fn law_probe_is_acknowledged_by_its_nonce(
    c: ConsensusV,
    sm: SmView,
    nonce: u64,
    prober: NodeId,
    to: Addr,
)
    requires
        cluster::route_addr(c.maps.table, prober) == Some(to),
    ensures
        net_effects(c, NetEvent::ReadProbe { nonce, prober, term: sm.term }, sm) == seq![
            EffectV::Plain(
                Plain::Send { to, term: sm.term, body: Body::ReadProbeAck { nonce, from: c.id } },
            ),
        ],
{
}

/// The leader's reply to the request in forwarding is that request's answer:
/// its status, reason and version, recorded for who asked and written to the
/// line it was asked on. The request is then no longer in forwarding. A reply
/// under another nonce answers nothing and changes nothing.
pub proof fn law_forwarded_request_gets_the_leaders_reply(
    c: ConsensusV,
    sm: SmView,
    append: u64,
    reply: admin::ConfigReply,
)
    ensures
        ({
            let e = net_effects(c, NetEvent::ConfigReply { reply }, sm);
            let a = net_after(c, NetEvent::ConfigReply { reply }, sm, append);
            match c.admin.pending {
                Some(p) if p.nonce == reply.nonce => {
                    &&& e.len() == 1
                    &&& e[0] matches EffectV::Answer(x) && {
                        &&& x.status == reply.status && x.reason == reply.reason && x.version
                            == reply.version
                        &&& x.actor == p.actor && x.origin == crate::audit::AuditOrigin::Local
                        &&& x.to == (effects::AnswerTo::ResponseLine { seq: p.seq })
                        &&& x.req.op == p.op && x.req.id == p.id && x.req.ip == p.ip && x.req.port
                            == p.port && x.req.seq == p.seq && x.req.nonce == p.nonce
                    }
                    &&& a.admin == (AdminV { pending: None, ..c.admin })
                },
                _ => e.len() == 0 && a == c,
            }
        }),
{
}

/// A vote is answered as it was decided, to the candidate and under the
/// term it was asked in: a grant after it was stored, a refusal without
/// anything being stored. A vote for oneself is stored and told to nobody.
pub proof fn law_votes_are_answered_as_decided(
    c: ConsensusV,
    candidate: NodeId,
    to: Addr,
    term: u32,
    voted_for: NodeId,
    sm: SmView,
)
    requires
        cluster::route_addr(c.maps.table, candidate) == Some(to),
    ensures
        ({
            let yes = action_effects(
                c,
                ActionV::PersistAndSendVote { candidate, term, voted_for },
                sm,
            );
            let no = action_effects(c, ActionV::SendVoteRejection { candidate, term }, sm);
            &&& yes[0] == EffectV::Plain(Plain::StoreVote { term, voted_for })
            &&& candidate != c.id ==> yes.len() == 2 && yes[1] == EffectV::Plain(
                Plain::Send { to, term, body: Body::Vote { term, granted: true } },
            )
            &&& candidate == c.id ==> yes.len() == 1
            &&& no == seq![
                EffectV::Plain(Plain::Send { to, term, body: Body::Vote { term, granted: false } }),
            ]
        }),
{
}

/// A candidate asks every other voter once, at its own address, for a vote in
/// the new term, and says how far its log reaches.
pub proof fn law_candidate_asks_every_voter(
    c: ConsensusV,
    new_term: u32,
    last_term: u32,
    last_durable: u64,
    sm: SmView,
    i: int,
)
    requires
        c.wf(),
        0 <= i < c.maps.peers.len(),
    ensures
        ({
            let e = action_effects(
                c,
                ActionV::StartElection { new_term, last_term, last_durable },
                sm,
            );
            &&& e.len() == c.maps.peers.len()
            &&& e[i] matches EffectV::Plain(Plain::Send { to, term, body }) && {
                &&& Some(to) == cluster::route_addr(c.maps.table, c.maps.peers[i])
                &&& term == new_term
                &&& body == (Body::RequestVote { new_term, last_term, last_durable })
            }
        }),
{
    assert(cluster::route_addr(c.maps.table, c.maps.peers[i]) is Some);
}

/// Commit positions and term maps go to every other member, voter or learner,
/// and to nobody else, under the state machine's term and as they were given.
pub proof fn law_gossip_reaches_every_member(
    c: ConsensusV,
    commit: u64,
    entries: Seq<(u32, u64)>,
    sm: SmView,
    x: NodeId,
    i: int,
)
    requires
        c.wf(),
    ensures
        c.gossip_targets().contains(x) <==> c.maps.peers.contains(x) || c.maps.learner_ids.contains(
            x,
        ),
        action_effects(c, ActionV::GossipCommit { commit }, sm) == seq![
            EffectV::FanOut {
                targets: c.gossip_targets(),
                term: sm.term,
                body: FanOutBody::CommitPosition { commit },
            },
        ],
        ({
            let e = action_effects(c, ActionV::ShipTermMap { entries }, sm);
            &&& e.len() == c.maps.peers.len() + c.maps.learner_ids.len()
            &&& 0 <= i < e.len() ==> (e[i] matches EffectV::TermMapTo { to, term, entries: sent }
                && {
                &&& Some(to) == cluster::route_addr(c.maps.table, c.gossip_targets()[i])
                &&& term == sm.term
                &&& sent == entries
            })
        }),
{
    let t = c.gossip_targets();
    if c.maps.peers.contains(x) {
        let k = choose|k: int| 0 <= k < c.maps.peers.len() && c.maps.peers[k] == x;
        assert(t[k] == x);
    }
    if c.maps.learner_ids.contains(x) {
        let k = choose|k: int| 0 <= k < c.maps.learner_ids.len() && c.maps.learner_ids[k] == x;
        assert(t[c.maps.peers.len() + k] == x);
    }
    if t.contains(x) {
        let k = choose|k: int| 0 <= k < t.len() && t[k] == x;
        if k < c.maps.peers.len() {
            assert(c.maps.peers[k] == x);
        } else {
            assert(c.maps.learner_ids[k - c.maps.peers.len()] == x);
        }
    }
    if 0 <= i < t.len() {
        if i < c.maps.peers.len() {
            assert(t[i] == c.maps.peers[i]);
        } else {
            assert(t[i] == c.maps.learner_ids[i - c.maps.peers.len()]);
        }
    }
}

/// A commit is published as it was decided, a map is stored as it was
/// decided, and a fatal reason stops the agent with that reason; none of
/// these changes the agent. A wipe is counted.
pub proof fn law_plain_decisions_are_carried_out(
    c: ConsensusV,
    commit: u64,
    new_map: Seq<(u32, u64)>,
    reason: Seq<char>,
    sm: SmView,
)
    ensures
        action_effects(c, ActionV::AdvanceCommit { commit }, sm) == seq![
            EffectV::Plain(Plain::Commit(commit)),
        ],
        action_effects(c, ActionV::PersistTermMap { new_map }, sm) == seq![
            EffectV::StoreTermMap(new_map),
        ],
        ({
            let e = action_effects(c, ActionV::Fatal { reason }, sm);
            &&& e.len() == 1
            &&& e[0] matches EffectV::FailStop(s) && s.len() >= reason.len() && s.skip(
                s.len() - reason.len(),
            ) == reason
        }),
        c.gate.wipes < u64::MAX ==> acted(c, ActionV::CountWipe, sm).gate.wipes == c.gate.wipes + 1,
        acted(c, ActionV::CountWipe, sm).gate == (TermGate {
            wipes: acted(c, ActionV::CountWipe, sm).gate.wipes,
            ..c.gate
        }),
{
    let head = "consensus fatal (fail-stop): "@;
    assert((head + reason).skip(head.len() as int) =~= reason);
}

/// An action changes what it is about and nothing else.
pub proof fn law_actions_touch_only_their_own(c: ConsensusV, act: ActionV, sm: SmView)
    ensures
        ({
            let a = acted(c, act, sm);
            let role = act is BecomeLeader || act is BecomeFollower || act is Truncate;
            let halt = act is HaltRemoved || act is StepDownRemoved;
            &&& a.id == c.id && a.leader_map == c.leader_map
            &&& a.reports_implausible == c.reports_implausible
            &&& a.published_can_serve == c.published_can_serve
            &&& a.adopted_incoming == c.adopted_incoming && a.held_terms == c.held_terms
            &&& a.admin.last_admin_seq == c.admin.last_admin_seq
            &&& a.admin.non_member == c.admin.non_member
            &&& a.admin.dedup_resend == c.admin.dedup_resend
            &&& role ==> a.admin.pending is None && a.admin.last_reply is None
            &&& !role ==> a.admin == c.admin
            &&& !(role || halt || act is CountWipe) ==> a.gate == c.gate
            &&& !(act is ConfigAdopted) ==> a.maps == c.maps && a.reported == c.reported
                && a.crypto == c.crypto && a.band_published == c.band_published
                && a.config_version == c.config_version && a.config_pending == c.config_pending
            &&& !(act is ConfigAdopted || act is Truncate) ==> a.record == c.record
            &&& !(act is ConfigAdopted || halt) ==> a.reads == c.reads
        }),
{
}

/// The state machine's word that this node follows takes the lead away: the
/// flag and the appender go, and no open of its own is in flight. A strictly
/// newer term closes intake until it is reconciled, and forgets the leader;
/// otherwise intake stays as it was. What was being forwarded is answered.
pub proof fn law_follower_closes_intake_on_a_new_term(
    c: ConsensusV,
    term: u32,
    leader: Option<NodeId>,
    sm: SmView,
)
    ensures
        ({
            let act = ActionV::BecomeFollower { term, leader };
            let a = acted(c, act, sm).gate;
            let e = action_effects(c, act, sm);
            let newer = term > c.gate.adopted_term;
            &&& a.adopted_term == term && !a.leader_flag && !a.appender
            &&& a.pending_leader_open is None
            &&& a.pending_truncation == c.gate.pending_truncation
            &&& a.durable_seen == c.gate.durable_seen
            &&& newer ==> !a.gate_open && a.awaiting_reconcile && a.leader_hint == u64::MAX
            &&& !newer ==> a.gate_open == c.gate.gate_open && a.awaiting_reconcile
                == c.gate.awaiting_reconcile && a.leader_hint == c.gate.leader_hint
            &&& e.contains(EffectV::Plain(Plain::TermHandle(term)))
            &&& e.contains(EffectV::Plain(Plain::LeaderFlag(false)))
            &&& e.contains(EffectV::Plain(Plain::DropAppender))
            &&& newer <==> e.contains(EffectV::Plain(Plain::Gate(false)))
            &&& newer <==> e.contains(EffectV::Plain(Plain::LeaderHint(u64::MAX)))
            &&& !e.contains(EffectV::Plain(Plain::Gate(true)))
            &&& e.last() == EffectV::Plain(Plain::Log(NodeEvent::BecameFollower { term, leader }))
        }),
{
    let act = ActionV::BecomeFollower { term, leader };
    let e = action_effects(c, act, sm);
    let k = admin::invalidation_effects(c.admin, c.config_version).len() as int;
    assert(e[k] == EffectV::Plain(Plain::TermHandle(term)));
    assert(e[k + 1] == EffectV::Plain(Plain::LeaderFlag(false)));
    assert(e[k + 2] == EffectV::Plain(Plain::DropAppender));
    if term > c.gate.adopted_term {
        assert(e[k + 3] == EffectV::Plain(Plain::Gate(false)));
        assert(e[k + 4] == EffectV::Plain(Plain::LeaderHint(u64::MAX)));
    }
}

/// A new leader keeps intake closed and does not yet say that it leads. Its
/// lineage is on disk, the data plane runs under its term and intake is closed
/// before the archive is told to cut the tail at the base, under the epoch
/// whose acknowledgement completes the open of this very term.
pub proof fn law_leader_opens_on_a_collapsed_tail(
    c: ConsensusV,
    term: u32,
    base: u64,
    sm: SmView,
    to: u64,
)
    requires
        c.gate.next_collapse_epoch < u64::MAX,
    ensures
        ({
            let act = ActionV::BecomeLeader { term, base };
            let a = acted(c, act, sm).gate;
            let e = action_effects(c, act, sm);
            let k = admin::invalidation_effects(c.admin, c.config_version).len() as int;
            &&& !a.gate_open && !a.awaiting_reconcile && a.adopted_term == term
            &&& a.leader_flag == c.gate.leader_flag && a.leader_hint == c.gate.leader_hint
            &&& a.next_collapse_epoch == c.gate.next_collapse_epoch + 1
            &&& a.pending_leader_open matches Some(o) && {
                &&& o.term == term && o.base == base
                &&& e[k + 3] == EffectV::Plain(
                    Plain::Archive(ArchiveCmd::Collapse { epoch: o.epoch, to: base }),
                )
                &&& a.collapsed(o.epoch, to).appender
                &&& a.collapsed(o.epoch, to).pending_leader_open is None
            }
            &&& e[k] == EffectV::StoreTermMap(sm.term_map@)
            &&& e[k + 1] == EffectV::Plain(Plain::TermHandle(term))
            &&& e[k + 2] == EffectV::Plain(Plain::Gate(false))
            &&& c.crypto.enabled <==> e.contains(EffectV::Plain(Plain::CryptoBecameLeader))
            &&& e.last() == EffectV::Plain(Plain::Log(NodeEvent::BecameLeader { term, base }))
        }),
{
    let e = action_effects(c, ActionV::BecomeLeader { term, base }, sm);
    let k = admin::invalidation_effects(c.admin, c.config_version).len() as int;
    if c.crypto.enabled {
        assert(e[k + 4] == EffectV::Plain(Plain::CryptoBecameLeader));
    }
}

/// A cut below the frame that the record rests on takes the record back: to
/// the configuration before it, or, where the log is wiped, to the same
/// configuration held by fiat. A cut at or above leaves it. Intake is closed
/// and the cut is in flight under the epoch that the archive is commanded with.
pub proof fn law_truncation_takes_the_record_back(
    c: ConsensusV,
    epoch: u64,
    to: u64,
    new_map: Seq<(u32, u64)>,
    sm: SmView,
)
    ensures
        ({
            let act = ActionV::Truncate { epoch, to, new_map };
            let a = acted(c, act, sm);
            let e = action_effects(c, act, sm);
            &&& !a.gate.gate_open && !a.gate.awaiting_reconcile
            &&& a.gate.pending_truncation == Some(epoch)
            &&& a.gate.adopted_term == c.gate.adopted_term
            &&& a.gate.pending_leader_open == c.gate.pending_leader_open
            &&& a.gate.durable_seen == c.gate.durable_seen
            &&& e.contains(EffectV::Plain(Plain::Archive(ArchiveCmd::Truncate { epoch, to })))
            &&& e.contains(EffectV::StoreTermMap(new_map))
            &&& c.record is None ==> a.record is None
            &&& c.record matches Some(r) ==> {
                &&& to >= r.position ==> a.record == c.record
                &&& to == 0 && r.position > 0 ==> a.record == Some(
                    RecordV { position: 0, config: r.config, prev_position: 0, prev: r.config },
                )
                &&& 0 < to < r.position ==> a.record == Some(
                    RecordV {
                        position: r.prev_position,
                        config: r.prev,
                        prev_position: r.prev_position,
                        prev: r.prev,
                    },
                )
                &&& to < r.position ==> e.contains(EffectV::StoreRecord(a.record->0))
            }
        }),
{
    let e = action_effects(c, ActionV::Truncate { epoch, to, new_map }, sm);
    let n = e.len() as int;
    let k = admin::invalidation_effects(c.admin, c.config_version).len() as int;
    assert(e[n - 2] == EffectV::Plain(Plain::Archive(ArchiveCmd::Truncate { epoch, to })));
    assert(e[k] == EffectV::StoreTermMap(new_map));
    if c.record is Some && to < c.record->0.position {
        assert(e[k + 1] == EffectV::StoreRecord(
            acted(c, ActionV::Truncate { epoch, to, new_map }, sm).record->0,
        ));
    }
}

/// An adopted configuration is what the agent then runs by: its record and
/// version, its members to route to, its voters as peers and its learners as
/// learners, and no report of anybody that it no longer lists. It counts as
/// pending until it is committed.
pub proof fn law_adopted_configuration_is_run_by(
    c: ConsensusV,
    position: u64,
    config: ConfigV,
    prev_position: u64,
    prev: ConfigV,
    sm: SmView,
    x: NodeId,
    m: Member,
)
    ensures
        ({
            let act = ActionV::ConfigAdopted { position, config, prev_position, prev };
            let a = acted(c, act, sm);
            &&& a.record == Some(RecordV { position, config, prev_position, prev })
            &&& a.config_version == config.version && a.config_pending
            &&& a.maps.peers.contains(x) <==> cluster::lists(config.voters, x) && x != c.id
            &&& a.maps.learner_ids.contains(x) <==> cluster::lists(config.learners, x) && x != c.id
            &&& a.maps.table.contains(m) <==> config.voters.contains(m) || config.learners.contains(
                m,
            )
            &&& a.reported.dom().contains(x) ==> c.reported.dom().contains(x) && a.reported[x]
                == c.reported[x] && (a.maps.peers.contains(x) || a.maps.learner_ids.contains(x))
            &&& a.reads.round is None && a.reads.pending == c.reads.pending
            &&& a.reads.next_round_seq == c.reads.next_round_seq && a.reads.next_nonce
                == c.reads.next_nonce
            &&& c.crypto.enabled ==> a.crypto.peers_dirty
            &&& a.crypto == (CryptoState { peers_dirty: a.crypto.peers_dirty, ..c.crypto })
        }),
{
    cluster::law_peers_are_the_other_members(config, c.id, x, m);
    let a = acted(c, ActionV::ConfigAdopted { position, config, prev_position, prev }, sm);
    if a.reported.dom().contains(x) {
        let i = choose|i: int| 0 <= i < a.maps.band.len() && (#[trigger] a.maps.band[i]).0 == x;
        cluster::law_band_shows_peers_then_learners(a.maps.peers, a.maps.learner_ids, i);
        if i < a.maps.peers.len() {
            assert(a.maps.peers[i] == x);
        } else {
            assert(a.maps.learner_ids[i - a.maps.peers.len()] == x);
        }
    }
}

/// The sender is rebuilt for the adopted members: every other voter as a
/// follower and every other learner as a learner, each at its own address.
/// From then on snapshot sessions ship that configuration, and with encryption
/// the receive path learns who is at which address.
pub proof fn law_sender_is_rebuilt_for_the_members(
    c: ConsensusV,
    config: ConfigV,
    prev_position: u64,
    m: Member,
)
    ensures
        ({
            let e = rebuild_effects(c, config, prev_position);
            &&& e[0] matches EffectV::SetPeers { followers, learners, cluster_size } && {
                &&& config.voters.contains(m) && m.0 != c.id ==> followers.contains(m.1)
                &&& config.learners.contains(m) && m.0 != c.id ==> learners.contains(m.1)
                &&& followers.len() == cluster::peers_of(config, c.id).peers.len()
                &&& learners.len() == cluster::peers_of(config, c.id).learner_ids.len()
                &&& cluster_size == (if cluster::lists(config.voters, c.id) {
                    config.voters.len()
                } else {
                    config.voters.len() + 1
                })
            }
            &&& e[1] == EffectV::ConfigBytes { config, prev_position }
            &&& c.crypto.enabled ==> e[2] == EffectV::PeerIds(config.voters + config.learners)
        }),
{
    let v = cluster::others(config.voters, c.id);
    let l = cluster::others(config.learners, c.id);
    cluster::law_others_are_all_but_one(config.voters, c.id, m);
    cluster::law_others_are_all_but_one(config.learners, c.id, m);
    if config.voters.contains(m) && m.0 != c.id {
        let k = choose|k: int| 0 <= k < v.len() && v[k] == m;
        assert(cluster::member_addrs(v)[k] == m.1);
    }
    if config.learners.contains(m) && m.0 != c.id {
        let k = choose|k: int| 0 <= k < l.len() && l[k] == m;
        assert(cluster::member_addrs(l)[k] == m.1);
    }
}

/// A removed node takes its flags down first and then answers every parked
/// read with a retry; none is left, and no round is in flight.
pub proof fn law_removal_answers_every_parked_read(
    c: ConsensusV,
    act: ActionV,
    sm: SmView,
    i: int,
)
    requires
        act is HaltRemoved || act is StepDownRemoved,
        0 <= i < c.reads.pending.len(),
    ensures
        ({
            let e = action_effects(c, act, sm);
            let a = acted(c, act, sm);
            &&& e.len() == c.reads.pending.len() + 3
            &&& e[1] == EffectV::Plain(Plain::LeaderFlag(false))
            &&& e[2] == EffectV::Plain(Plain::CanServeFlag(false))
            &&& e[3 + i] == EffectV::Plain(
                Plain::Retry {
                    client_id: c.reads.pending[i].client_id,
                    local_seq: c.reads.pending[i].local_seq,
                },
            )
            &&& a.reads.pending.len() == 0 && a.reads.round is None
            &&& a.gate.halt_removed && !a.gate.leader_flag && !a.gate.can_serve_flag
        }),
{
}

/// An event opens intake only by completing the reconcile of the adopted
/// term, and then it does: the event was a term map, not older than the term
/// before it; no cut was asked for or is in flight; and the state machine's
/// term is the one that the data plane runs under.
pub proof fn law_only_a_reconcile_opens_intake(
    c: ConsensusV,
    map_term: Option<u32>,
    term_before: u32,
    acts: Seq<ActionV>,
    sm: SmView,
)
    ensures
        ({
            let g = all_acted(c, acts, sm).gate;
            let f = fed(c, map_term, term_before, acts, sm);
            let e = feed_effects(c, map_term, term_before, acts, sm);
            let done = map_term is Some && map_term->0 >= term_before && g.awaiting_reconcile
                && g.pending_truncation is None && g.adopted_term == sm.term && forall|i: int|
                0 <= i < acts.len() ==> !(#[trigger] acts[i] is Truncate);
            &&& done ==> f.gate.gate_open && !f.gate.awaiting_reconcile && e.len() > 0 && e.last()
                == EffectV::Plain(Plain::Gate(true))
            &&& !done ==> f == all_acted(c, acts, sm) && e == all_effects(c, acts, sm)
        }),
{
}

/// A run of actions is carried out one after the other: its effects are the
/// first ones' and then the rest's, from the state the first ones left.
pub proof fn law_actions_are_carried_out_in_order(
    c: ConsensusV,
    acts: Seq<ActionV>,
    more: Seq<ActionV>,
    act: ActionV,
    sm: SmView,
)
    ensures
        all_acted(c, acts + more, sm) == all_acted(all_acted(c, acts, sm), more, sm),
        all_effects(c, acts + more, sm) == all_effects(c, acts, sm) + all_effects(
            all_acted(c, acts, sm),
            more,
            sm,
        ),
        all_acted(c, seq![act], sm) == acted(c, act, sm),
        all_effects(c, seq![act], sm) == action_effects(c, act, sm),
    decreases more.len(),
{
    assert(seq![act].drop_last() =~= Seq::<ActionV>::empty());
    assert(seq![act].last() == act);
    assert(all_acted(c, seq![act].drop_last(), sm) == c);
    assert(all_effects(c, seq![act].drop_last(), sm) =~= Seq::<EffectV>::empty());
    assert(all_effects(c, seq![act], sm) =~= action_effects(c, act, sm));
    if more.len() == 0 {
        assert(acts + more =~= acts);
        assert(all_effects(c, acts + more, sm) =~= all_effects(c, acts, sm) + all_effects(
            all_acted(c, acts, sm),
            more,
            sm,
        ));
    } else {
        let head = more.drop_last();
        assert((acts + more).drop_last() =~= acts + head);
        assert((acts + more).last() == more.last());
        law_actions_are_carried_out_in_order(c, acts, head, act, sm);
        assert(all_effects(c, acts + more, sm) =~= all_effects(c, acts, sm) + all_effects(
            all_acted(c, acts, sm),
            more,
            sm,
        ));
    }
}

/// An installed snapshot's lineage and configuration are on disk before the
/// archive takes its position as the floor. Its configuration holds by fiat
/// at that position and is what the agent then runs by; it is not pending.
pub proof fn law_install_is_durable_before_the_floor(
    c: ConsensusV,
    pos: u64,
    term_map: Option<Seq<(u32, u64)>>,
    config: ConfigV,
    x: NodeId,
)
    ensures
        ({
            let e = install_effects(c, pos, term_map, Some(config));
            let bare = install_effects(c, pos, term_map, None);
            let a = installed(c, pos, Some(config));
            let n = e.len() as int;
            let held = RecordV { position: pos, config, prev_position: pos, prev: config };
            &&& e[n - 2] == EffectV::Plain(Plain::Archive(ArchiveCmd::AdoptFloor { pos }))
            &&& exists|i: int| 0 <= i < n - 2 && #[trigger] e[i] == EffectV::StoreRecord(held)
            &&& term_map matches Some(m) ==> e[0] == EffectV::StoreTermMap(m) && bare[0]
                == EffectV::StoreTermMap(m)
            &&& bare[bare.len() - 2] == EffectV::Plain(
                Plain::Archive(ArchiveCmd::AdoptFloor { pos }),
            )
            &&& a.record == Some(held) && a.config_version == config.version && !a.config_pending
            &&& a.maps.peers.contains(x) <==> cluster::lists(config.voters, x) && x != c.id
            &&& a.maps.learner_ids.contains(x) <==> cluster::lists(config.learners, x) && x != c.id
            &&& a.gate == c.gate && a.admin == c.admin && a.id == c.id
            &&& a.reads.round is None && a.reads.pending == c.reads.pending
            &&& installed(c, pos, None) == c
        }),
{
    cluster::law_peers_are_the_other_members(config, c.id, x, (x, (0, 0)));
    let e = install_effects(c, pos, term_map, Some(config));
    let k: int = if term_map is Some {
        1
    } else {
        0
    };
    assert(e[k] == EffectV::StoreRecord(
        RecordV { position: pos, config, prev_position: pos, prev: config },
    ));
}

/// Where an admin request is forwarded: to the leader that is known, at the
/// address that the adopted members give for it, and nowhere while none is
/// known.
pub proof fn law_requests_go_to_the_known_leader(c: ConsensusV, sm: SmView, id: NodeId)
    ensures
        c.gate.leader_hint == u64::MAX ==> leader_route(c) is None,
        c.gate.leader_hint == id ==> leader_route(c) == cluster::route_addr(c.maps.table, id),
        admin_context(c, sm).is_leader == sm.is_leader,
        admin_context(c, sm).leader_addr == leader_route(c),
        admin_context(c, sm).term == sm.term,
        admin_context(c, sm).version == c.config_version,
{
}

/// Reads are served exactly while the state machine can serve and this node
/// was not removed.
pub proof fn law_serving_ends_with_membership(c: ConsensusV, sm: SmView)
    ensures
        shown_serving(c, sm) <==> sm.can_serve && !c.gate.halt_removed,
{
}

/// A probe goes to every other voter, and to them alone, under the current
/// term and the round's nonce, in this node's name; a round is issued for as
/// many voters as there are.
pub proof fn law_probes_go_to_the_voters(
    c: ConsensusV,
    sm: SmView,
    nonce: u64,
    commit: u64,
    now_ns: u64,
)
    requires
        c.maps.peers.len() <= usize::MAX,
    ensures
        probe_effects(c, sm, None) == Seq::<EffectV>::empty(),
        probe_effects(c, sm, Some(nonce)) == seq![
            EffectV::FanOut {
                targets: c.maps.peers,
                term: sm.term,
                body: FanOutBody::ReadProbe { nonce, from: c.id },
            },
        ],
        round_context(c, sm, commit, now_ns).id == c.id,
        round_context(c, sm, commit, now_ns).peers == c.maps.peers.len(),
        round_context(c, sm, commit, now_ns).term == sm.term,
        round_context(c, sm, commit, now_ns).commit == commit,
        round_context(c, sm, commit, now_ns).now_ns == now_ns,
{
}

/// The nonce probed with is the one that the round in flight carries, so that
/// its acknowledgements count for it.
pub proof fn law_probe_names_the_round_in_flight(b: BarrierV, ctx: RoundContext, now_ns: u64)
    requires
        b.next_nonce < u64::MAX,
    ensures
        issued_nonce(b, ctx) matches Some(n) ==> b.round is None && reads::after_issue(
            b,
            ctx,
        ).round is Some && reads::after_issue(b, ctx).round->0.nonce == n,
        issued_nonce(b, ctx) is None ==> reads::after_issue(b, ctx).round == b.round,
        overdue_nonce(b, now_ns) matches Some(n) ==> b.round is Some && b.round->0.nonce == n
            && now_ns >= b.round->0.last_send_ns + 2_000_000,
        b.round is Some && now_ns >= b.round->0.last_send_ns + 2_000_000 ==> overdue_nonce(
            b,
            now_ns,
        ) is Some,
{
}

/// The band shows each peer in its own slot and empties the rest, once; what
/// a peer has reported stands in its slot, and nothing stands for one that has
/// not.
pub proof fn law_band_slots_are_the_peers(
    band: Seq<(NodeId, PeerRole)>,
    m: Map<NodeId, u64>,
    i: int,
)
    requires
        0 <= i < 8,
    ensures
        band_cells(band).len() == 8,
        band_cells(band)[i] == EffectV::Plain(
            Plain::PeerCell {
                slot: i as usize,
                occupant: if i < band.len() {
                    Some(band[i])
                } else {
                    None
                },
            },
        ),
        i < band.len() <= 8 && m.dom().contains(band[i].0) ==> durable_cells(band, m).contains(
            EffectV::Plain(Plain::PeerDurable { slot: i as usize, durable: m[band[i].0] }),
        ),
        band_effects(false, band, m) == band_cells(band) + band_effects(true, band, m),
        band_effects(true, band, m).last() == EffectV::Plain(Plain::ArchiveFirstBase),
{
    if i < band.len() <= 8 && m.dom().contains(band[i].0) {
        lemma_durable_cell(band, m, i);
    }
    assert(band_effects(false, band, m) =~= band_cells(band) + band_effects(true, band, m));
}

proof fn lemma_durable_cell(band: Seq<(NodeId, PeerRole)>, m: Map<NodeId, u64>, i: int)
    requires
        0 <= i < band.len() <= 8,
        m.dom().contains(band[i].0),
    ensures
        durable_cells(band, m).contains(
            EffectV::Plain(Plain::PeerDurable { slot: i as usize, durable: m[band[i].0] }),
        ),
    decreases band.len(),
{
    let want = EffectV::Plain(Plain::PeerDurable { slot: i as usize, durable: m[band[i].0] });
    let all = durable_cells(band, m);
    let head = durable_cells(band.drop_last(), m);
    if i < band.len() - 1 {
        lemma_durable_cell(band.drop_last(), m, i);
        assert(band.drop_last()[i] == band[i]);
        let k = choose|k: int| 0 <= k < head.len() && head[k] == want;
        assert(all[k] == want);
    } else {
        assert(all[all.len() - 1] == want);
    }
}

/// The list that reports are kept in says what was put there last.
pub proof fn law_newest_report_stands(s: Seq<(NodeId, u64)>, id: NodeId, durable: u64, other: NodeId)
    ensures
        reports(s.push((id, durable))).dom().contains(id),
        reports(s.push((id, durable)))[id] == durable,
        other != id ==> (reports(s.push((id, durable))).dom().contains(other) <==> reports(
            s,
        ).dom().contains(other)) && reports(s.push((id, durable)))[other] == reports(s)[other],
{
    assert(s.push((id, durable)).drop_last() =~= s);
}

/// What is fed and what is asked for says all of what it was made of.
pub proof fn law_votes_and_terms_read_as_written(
    from: NodeId,
    term: u32,
    granted: bool,
    last_term: u32,
    position: u64,
    epoch: u64,
    entries: TermMap,
    config: ClusterConfig,
    prev: ClusterConfig,
)
    ensures
        (SmEvent::Vote { from, term, granted })@ == (SmEventV::Vote { from, term, granted }),
        (SmEvent::RequestVote { from, new_term: term, last_term, last_durable: position })@ == (
        SmEventV::RequestVote { from, new_term: term, last_term, last_durable: position }),
        (SmEvent::Report { from, term, durable: position, durable_term: last_term })@ == (
        SmEventV::Report { from, term, durable: position, durable_term: last_term }),
        (SmEvent::CommitGossip { term, commit: position })@ == (SmEventV::CommitGossip {
            term,
            commit: position,
        }),
        (SmEvent::TermMapReceived { term, entries })@ == (SmEventV::TermMapReceived {
            term,
            entries: entries@,
        }),
        (SmEvent::LeaderSeen { term })@ == (SmEventV::LeaderSeen { term }),
        (Action::PersistAndSendVote { candidate: from, term, voted_for: last_term })@ == (
        ActionV::PersistAndSendVote { candidate: from, term, voted_for: last_term }),
        (Action::SendVoteRejection { candidate: from, term })@ == (ActionV::SendVoteRejection {
            candidate: from,
            term,
        }),
        (Action::StartElection { new_term: term, last_term, last_durable: position })@ == (
        ActionV::StartElection { new_term: term, last_term, last_durable: position }),
        (Action::BecomeLeader { term, base: position })@ == (ActionV::BecomeLeader {
            term,
            base: position,
        }),
        (Action::BecomeFollower { term, leader: Some(from) })@ == (ActionV::BecomeFollower {
            term,
            leader: Some(from),
        }),
        (Action::AdvanceCommit { commit: position })@ == (ActionV::AdvanceCommit {
            commit: position,
        }),
        (Action::GossipCommit { commit: position })@ == (ActionV::GossipCommit {
            commit: position,
        }),
        (Action::ShipTermMap { entries })@ == (ActionV::ShipTermMap { entries: entries@ }),
        (Action::PersistTermMap { new_map: entries })@ == (ActionV::PersistTermMap {
            new_map: entries@,
        }),
        (Action::Truncate { epoch, to: position, new_map: entries })@ == (ActionV::Truncate {
            epoch,
            to: position,
            new_map: entries@,
        }),
        (Action::ConfigAdopted { position, config, prev_position: epoch, prev })@ == (
        ActionV::ConfigAdopted { position, config: config@, prev_position: epoch, prev: prev@ }),
{
}

/// The published status shows this node's own roles, none of them once it was
/// removed, and a change of the serving flag is logged, once.
pub proof fn law_status_shows_the_roles(c: ConsensusV, sm: SmView)
    ensures
        ({
            let e = status_effects(c, sm);
            &&& e[0] matches EffectV::Plain(Plain::Status { term, leader, can_serve }) && {
                &&& term == sm.term
                &&& leader <==> c.gate.leader_flag && !c.gate.halt_removed
                &&& can_serve <==> sm.can_serve && !c.gate.halt_removed
                &&& can_serve == c.published_can_serve ==> e.len() == 1
                &&& can_serve != c.published_can_serve ==> e.len() == 2 && e[1] == EffectV::Plain(
                    Plain::Log(NodeEvent::ServingChanged { term, can_serve }),
                )
            }
        }),
{
}

/// No term observation is lost or reordered: what is fed and what is held are
/// together what was held and what came. During a cut nothing is fed, and
/// after it nothing is held back.
pub proof fn law_term_observations_survive_a_cut(
    held: Seq<(u32, u64)>,
    news: Seq<(u32, u64)>,
    more: Seq<(u32, u64)>,
    truncating: bool,
)
    ensures
        ({
            let (now, later) = terms_split(held, news, truncating);
            &&& now + later == held + news
            &&& truncating ==> now.len() == 0
            &&& !truncating ==> later.len() == 0
            &&& now + terms_split(later, more, false).0 == held + news + more
        }),
{
    let (now, later) = terms_split(held, news, truncating);
    assert(now + later =~= held + news);
    assert(now + terms_split(later, more, false).0 =~= held + news + more);
}

/// An inbound snapshot is taken up once and only forwards, and installed only
/// where it reaches further than this node's own log.
pub proof fn law_incoming_snapshots_only_move_forward(
    adopted: u64,
    pos: u64,
    durable: u64,
    durable_then: u64,
)
    ensures
        incoming_mark(adopted, pos) >= adopted,
        incoming_mark(adopted, pos) >= pos,
        incoming_mark(adopted, pos) == adopted || incoming_mark(adopted, pos) == pos,
        !incoming_installs(incoming_mark(adopted, pos), pos, durable_then),
        incoming_installs(adopted, pos, durable) ==> durable < pos,
        durable < pos && adopted < pos ==> incoming_installs(adopted, pos, durable),
{
}

/// A configuration frame is taken up only where the log is durable to its
/// end. Two configurations of one version that differ are told apart from a
/// repeat of the same one and from a step to another version.
pub proof fn law_configuration_frames_are_durable(
    position: u64,
    durable: u64,
    adopted: ConfigV,
    incoming: ConfigV,
)
    ensures
        observation(position, durable, adopted, incoming) is Implausible <==> durable < position,
        observation(position, position, adopted, adopted) == (ConfigObservation::Observed {
            divergent: false,
        }),
        incoming.version != adopted.version && position <= durable ==> observation(
            position,
            durable,
            adopted,
            incoming,
        ) == (ConfigObservation::Observed { divergent: false }),
        incoming.version == adopted.version && incoming != adopted && position <= durable
            ==> observation(position, durable, adopted, incoming) == (ConfigObservation::Observed {
            divergent: true,
        }),
{
}

/// Whether the durable counter is absorbed before an event is fed.
pub open spec fn net_refreshes(c: ConsensusV, ev: NetEvent) -> bool {
    ev matches NetEvent::RequestVote { from, .. } && cluster::route_id(c.maps.table, from) is Some
}

/// Whether a forwarded proposal has to be put to the cluster.
pub open spec fn net_proposes(c: ConsensusV, ev: NetEvent, sm: SmView) -> bool {
    ev matches NetEvent::ConfigProposal { from, proposal } && admin::proposal_is_fresh(
        c.admin,
        sm.is_leader,
        cluster::route_id(c.maps.table, from) is Some,
        proposal.nonce,
    )
}

/// A vote that is asked for is decided on the log as it is now: the durable
/// counter is absorbed first, exactly for a request that is fed.
pub proof fn law_votes_are_decided_on_a_fresh_log(
    c: ConsensusV,
    ev: NetEvent,
    sm: SmView,
    append: u64,
)
    ensures
        net_refreshes(c, ev) <==> ev is RequestVote && net_feed(c, ev, sm, append) is Some,
{
}

/// A forwarded proposal is put to the cluster exactly by a leader, for a
/// member, and not again for the nonce that it answered last. Nothing else is.
pub proof fn law_only_forwarded_proposals_are_put(
    c: ConsensusV,
    ev: NetEvent,
    sm: SmView,
    from: Addr,
    proposal: admin::ConfigProposal,
)
    ensures
        !(ev is ConfigProposal) ==> !net_proposes(c, ev, sm),
        net_proposes(c, NetEvent::ConfigProposal { from, proposal }, sm) <==> sm.is_leader
            && cluster::route_id(c.maps.table, from) is Some && !(c.admin.last_reply is Some
            && c.admin.last_reply->0.nonce == proposal.nonce),
{
}

/// A leader that adopts its own demotion is told of it, and nobody else is.
/// Every adoption is logged, with its position and version.
pub proof fn law_adoptions_are_logged(
    c: ConsensusV,
    position: u64,
    config: ConfigV,
    prev_position: u64,
    prev: ConfigV,
    sm: SmView,
)
    ensures
        ({
            let e = action_effects(
                c,
                ActionV::ConfigAdopted { position, config, prev_position, prev },
                sm,
            );
            let demoted = sm.is_leader && !cluster::lists(config.voters, c.id)
                && !config.tombstones.contains(c.id);
            let n = e.len() as int;
            &&& e[n - 1] == EffectV::Plain(
                Plain::Log(
                    NodeEvent::ConfigAdopted { position, version: config.version, prev_position },
                ),
            )
            &&& demoted ==> e[n - 2] == EffectV::Plain(Plain::Log(NodeEvent::SelfDemoted))
            &&& !demoted ==> e[n - 2] == EffectV::Plain(Plain::ConfigPending(true))
        }),
{
}

/// Reports of the peers that an adopted configuration shows on the band are
/// kept.
pub proof fn law_reports_of_members_are_kept(c: ConsensusV, config: ConfigV, i: int)
    requires
        0 <= i < cluster::peers_of(config, c.id).band.len(),
        c.reported.dom().contains(cluster::peers_of(config, c.id).band[i].0),
    ensures
        ({
            let id = cluster::peers_of(config, c.id).band[i].0;
            &&& rebuilt(c, config).reported.dom().contains(id)
            &&& rebuilt(c, config).reported[id] == c.reported[id]
        }),
{
}

/// What the agent holds is what it says it holds.
pub proof fn law_agent_says_what_it_holds(c: Consensus)
    ensures
        c@.id == c.id && c@.gate == c.gate && c@.crypto == c.crypto,
        c@.maps == c.maps@ && c@.maps.table == c.maps.table@ && c@.maps.peers == c.maps.peers@,
        c@.maps.learner_ids == c.maps.learner_ids@ && c@.maps.band == c.maps.band@,
        c@.band_published == c.band_published && c@.config_version == c.config_version,
        c@.config_pending == c.config_pending && c@.reads == c.reads@ && c@.admin == c.admin@,
        c.record is None <==> c@.record is None,
        c.record matches Some(r) ==> c@.record == Some(r@),
        c@.leader_map == c.leader_map@ && c@.held_terms == c.held_terms@,
        c@.reports_implausible == c.reports_implausible,
        c@.published_can_serve == c.published_can_serve,
        c@.adopted_incoming == c.adopted_incoming,
{
}

/// Runs of actions, and what may be missing, say what they hold.
pub proof fn law_actions_say_what_they_hold(
    acts: Seq<Action>,
    i: int,
    e: SmEvent,
    m: TermMap,
    c: ClusterConfig,
)
    requires
        0 <= i < acts.len(),
    ensures
        actions_view(acts).len() == acts.len(),
        actions_view(acts)[i] == acts[i]@,
        event_view(Some(e)) == Some(e@),
        event_view(None) is None,
        map_view(Some(m)) == Some(m@),
        map_view(None) is None,
        config_view(Some(c)) == Some(c@),
        config_view(None) is None,
{
}

/// The read barrier after a run of queries was taken up and the round they
/// need issued.
pub open spec fn queries_taken(
    c: ConsensusV,
    qs: Seq<reads::QueryV>,
    sm: SmView,
    commit: u64,
    now_ns: u64,
) -> BarrierV {
    reads::after_issue(
        reads::all_admitted(c.reads, qs, shown_serving(c, sm), c.maps.peers.len()),
        round_context(c, sm, commit, now_ns),
    )
}

/// The effects of taking up a run of queries.
pub open spec fn queries_effects(
    c: ConsensusV,
    qs: Seq<reads::QueryV>,
    sm: SmView,
    commit: u64,
    now_ns: u64,
) -> Seq<EffectV> {
    probe_effects(
        c,
        sm,
        issued_nonce(
            reads::all_admitted(c.reads, qs, shown_serving(c, sm), c.maps.peers.len()),
            round_context(c, sm, commit, now_ns),
        ),
    )
}

/// The read barrier after a walk.
pub open spec fn walk_ended(c: ConsensusV, sm: SmView, commit: u64, now_ns: u64) -> BarrierV {
    reads::after_issue(reads::resent(c.reads, now_ns), round_context(c, sm, commit, now_ns))
}

/// The effects of ending a walk.
pub open spec fn walk_effects(
    c: ConsensusV,
    sm: SmView,
    commit: u64,
    now_ns: u64,
) -> Seq<EffectV> {
    probe_effects(c, sm, overdue_nonce(c.reads, now_ns)) + probe_effects(
        c,
        sm,
        issued_nonce(c.reads, round_context(c, sm, commit, now_ns)),
    )
}

/// Every round that is issued is probed for, with every other voter and under
/// the round's own nonce, and so is one in flight that is overdue; it needs a
/// strict majority of the voters that the agent routes to.
pub proof fn law_every_round_is_probed_for(
    c: ConsensusV,
    qs: Seq<reads::QueryV>,
    sm: SmView,
    commit: u64,
    now_ns: u64,
)
    requires
        c.reads.next_nonce < u64::MAX,
        c.reads.next_round_seq < u64::MAX,
        c.maps.peers.len() < usize::MAX,
    ensures
        ({
            let a = queries_taken(c, qs, sm, commit, now_ns);
            let e = queries_effects(c, qs, sm, commit, now_ns);
            &&& c.reads.round is None && a.round is Some ==> {
                &&& e == seq![
                    EffectV::FanOut {
                        targets: c.maps.peers,
                        term: sm.term,
                        body: FanOutBody::ReadProbe { nonce: a.round->0.nonce, from: c.id },
                    },
                ]
                &&& 2 * a.round->0.quorum > c.maps.peers.len() + 1
                &&& a.round->0.ackers == seq![c.id]
                &&& a.round->0.term == sm.term
            }
            &&& c.reads.round is Some ==> a.round == c.reads.round && e.len() == 0
        }),
        ({
            let a = walk_ended(c, sm, commit, now_ns);
            let e = walk_effects(c, sm, commit, now_ns);
            &&& c.reads.round is None && a.round is Some ==> e.contains(
                EffectV::FanOut {
                    targets: c.maps.peers,
                    term: sm.term,
                    body: FanOutBody::ReadProbe { nonce: a.round->0.nonce, from: c.id },
                },
            ) && 2 * a.round->0.quorum > c.maps.peers.len() + 1
            &&& c.reads.round is Some && now_ns >= c.reads.round->0.last_send_ns + 2_000_000
                ==> e.contains(
                EffectV::FanOut {
                    targets: c.maps.peers,
                    term: sm.term,
                    body: FanOutBody::ReadProbe { nonce: c.reads.round->0.nonce, from: c.id },
                },
            )
        }),
{
    let serving = shown_serving(c, sm);
    let b = reads::all_admitted(c.reads, qs, serving, c.maps.peers.len());
    lemma_admission_keeps_the_round(c.reads, qs, serving, c.maps.peers.len());
    let ctx = round_context(c, sm, commit, now_ns);
    reads::law_round_asks_a_majority(b, ctx, 0);
    reads::law_round_asks_a_majority(c.reads, ctx, 0);
    let e = walk_effects(c, sm, commit, now_ns);
    if e.len() > 0 {
        assert(e.contains(e[0]));
    }
}

proof fn lemma_admission_keeps_the_round(
    b: BarrierV,
    qs: Seq<reads::QueryV>,
    serving: bool,
    peers: nat,
)
    ensures
        reads::all_admitted(b, qs, serving, peers).round == b.round,
        reads::all_admitted(b, qs, serving, peers).next_nonce == b.next_nonce,
        reads::all_admitted(b, qs, serving, peers).next_round_seq == b.next_round_seq,
    decreases qs.len(),
{
    if qs.len() > 0 {
        lemma_admission_keeps_the_round(b, qs.drop_last(), serving, peers);
    }
}

/// Whether ingress is appended rather than redirected.
pub open spec fn takes_ingress(c: ConsensusV, sm: SmView) -> bool {
    c.gate.leader_flag && sm.can_serve
}

/// Clients are served by a leader whose term is open and serving; a node that
/// follows, that only opens its term or that was removed redirects them.
pub proof fn law_only_an_open_leader_takes_ingress(
    c: ConsensusV,
    sm: SmView,
    term: u32,
    leader: Option<NodeId>,
)
    ensures
        takes_ingress(c, sm) <==> c.gate.leader_flag && sm.can_serve,
        !takes_ingress(acted(c, ActionV::BecomeFollower { term, leader }, sm), sm),
        !takes_ingress(acted(c, ActionV::HaltRemoved, sm), sm),
        !takes_ingress(acted(c, ActionV::StepDownRemoved, sm), sm),
{
}

/// The effects of mirroring the validated frontier.
pub open spec fn validated_effects(unattested: u64, term: u32, position: u64) -> Seq<EffectV> {
    seq![
        EffectV::Plain(Plain::ReportsUnattested(unattested)),
        EffectV::Plain(Plain::ValidatedTerm(term)),
        EffectV::Plain(Plain::ValidatedFrontier(position)),
    ]
}

/// The validated frontier and its term are mirrored as they are, the term
/// before the position.
pub proof fn law_validated_term_goes_first(
    unattested: u64,
    term: u32,
    position: u64,
    i: int,
    j: int,
)
    ensures
        ({
            let e = validated_effects(unattested, term, position);
            &&& e.contains(EffectV::Plain(Plain::ReportsUnattested(unattested)))
            &&& e.contains(EffectV::Plain(Plain::ValidatedTerm(term)))
            &&& e.contains(EffectV::Plain(Plain::ValidatedFrontier(position)))
            &&& 0 <= i < e.len() && 0 <= j < e.len() && (e[i] matches EffectV::Plain(
                Plain::ValidatedTerm(_),
            )) && (e[j] matches EffectV::Plain(Plain::ValidatedFrontier(_))) ==> i < j
            &&& e.len() == 3
        }),
{
    let e = validated_effects(unattested, term, position);
    assert(e[0] == EffectV::Plain(Plain::ReportsUnattested(unattested)));
    assert(e[1] == EffectV::Plain(Plain::ValidatedTerm(term)));
    assert(e[2] == EffectV::Plain(Plain::ValidatedFrontier(position)));
}

/// The agent after a request off the admin band was taken up.
pub open spec fn asked(
    c: ConsensusV,
    req: admin::AdminReq,
    verdict: Result<Option<Seq<char>>, u32>,
    sm: SmView,
) -> ConsensusV {
    ConsensusV {
        admin: AdminV {
            last_admin_seq: req.seq,
            ..admin::desk_after_request(c.admin, req, verdict, admin_context(c, sm))
        },
        ..c
    }
}

/// The effects of taking a request off the admin band up.
pub open spec fn asked_effects(
    c: ConsensusV,
    req: admin::AdminReq,
    verdict: Result<Option<Seq<char>>, u32>,
    sm: SmView,
) -> Seq<EffectV> {
    admin::request_effects(c.admin, req, verdict, admin_context(c, sm))
}

/// An authentic request on a node that does not lead goes, as it was asked, to
/// the leader that is known, at its address; where none is known, or where it
/// is not authentic, it is answered at once under the version in force. The
/// request is then the last one taken up, and only the admin desk has changed.
pub proof fn law_operator_requests_reach_the_leader(
    c: ConsensusV,
    req: admin::AdminReq,
    actor: Option<Seq<char>>,
    reason: u32,
    sm: SmView,
    leader: NodeId,
    to: Addr,
)
    requires
        !sm.is_leader,
    ensures
        c.gate.leader_hint == leader && cluster::route_addr(c.maps.table, leader) == Some(to)
            ==> asked_effects(c, req, Ok(actor), sm).last() == EffectV::Plain(
            Plain::Send {
                to,
                term: sm.term,
                body: Body::ConfigProposal {
                    nonce: req.nonce,
                    op: req.op,
                    id: req.id,
                    ip: req.ip,
                    port: req.port,
                },
            },
        ),
        c.gate.leader_hint == u64::MAX ==> asked_effects(c, req, Ok(actor), sm).len() == 1
            && admin::answers_locally(
            asked_effects(c, req, Ok(actor), sm)[0],
            actor,
            req,
            2,
            0,
            c.config_version,
        ),
        asked_effects(c, req, Err(reason), sm).len() == 1 && admin::answers_locally(
            asked_effects(c, req, Err(reason), sm)[0],
            Some("unverified"@),
            req,
            1,
            reason,
            c.config_version,
        ),
        asked(c, req, Ok(actor), sm).admin.last_admin_seq == req.seq,
        asked(c, req, Err(reason), sm).admin.last_admin_seq == req.seq,
        asked(c, req, Ok(actor), sm) == (ConsensusV {
            admin: asked(c, req, Ok(actor), sm).admin,
            ..c
        }),
{
}

} // verus!
