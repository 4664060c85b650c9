//! Starting a node: what is recovered, what is refused, and the agent's
//! first state.

use crate::node::admin::AdminDesk;
use crate::node::cluster;
use crate::node::cluster::{
    addr_for, cluster_to_wire, derive_peer_maps, sender_cluster_size, stored_to_cluster, Addr,
    ClusterConfig, ConfigRecord, ConfigV, Member, NodeId, PeerMaps, RecordV, WireConfig,
};
use crate::node::consensus;
use crate::node::consensus::{Consensus, ConsensusV};
use crate::node::crypto::CryptoState;
use crate::node::gate;
use crate::node::gate::TermGate;
use crate::node::reads;
use crate::node::reads::ReadBarrier;
use crate::node::recover;
use crate::node::recover::{
    boot_awaiting_reconcile, recover_config_record, rederive_term_map, same_map, ConfigRecovery,
    ReplayFrame, TermMap,
};
use crate::text;
use crate::text::push_decimal;
use vstd::prelude::*;
use vstd::string::StringExecFns;

verus! {

/// Default size of a journal segment.
pub const DEFAULT_JOURNAL_SEGMENT_BYTES: u64 = 67_108_864;

/// The least a journal block may hold.
pub const MIN_BLOCK_BYTES: u64 = 4096;

/// How long the state machine waits before it repeats its gossip.
pub const GOSSIP_FLOOR_NS: u64 = 100_000_000;

/// What the receiver's seed is mixed with.
pub const RECEIVER_SEED_MIX: u64 = 0x5DEE_CE66_1D0C_2A11;

/// The largest block to record: at most half a segment, so that a block fits
/// one, and never under [`MIN_BLOCK_BYTES`].
pub fn block_cap(default_cap: u64, segment_bytes: u64) -> (cap: u64)
    ensures
        cap == fitting_cap(default_cap, segment_bytes),
{
    let half: u64 = segment_bytes / 2;
    let cap: u64 = if default_cap <= half {
        default_cap
    } else {
        half
    };
    if cap < MIN_BLOCK_BYTES {
        MIN_BLOCK_BYTES
    } else {
        cap
    }
}

/// The seed of the receiver's own timers.
pub fn receiver_seed(seed: u64) -> (s: u64)
    ensures
        s == mixed_seed(seed),
{
    seed ^ RECEIVER_SEED_MIX
}

/// The name of the snapshot file at `pos`.
pub open spec fn snapshot_name(pos: u64) -> Seq<char> {
    "snap-"@ + text::digits(pos as nat) + ".ultsnap"@
}

/// The snapshot to offer a peer: the one at the durable floor, if there is a
/// floor.
pub fn snapshot_to_offer(floor: u64) -> (name: Option<String>)
    ensures
        crate::node::effects::text_view(name) == offered(floor),
{
    if floor == 0 {
        return None;
    }
    let mut s = "snap-".to_owned();
    push_decimal(&mut s, floor as u128);
    s.append(".ultsnap");
    Some(s)
}

/// What is stamped on the shared page at boot.
#[derive(Debug)]
pub struct CncMeta {
    pub node_id: NodeId,
    /// Fresh at every boot: an attachment to an earlier page is invalid.
    pub instance_id: u128,
    pub app_id: String,
    pub buffer_bytes: u64,
    pub max_payload: u32,
}

/// `rand::random::<u128>()`: a value drawn by the thread's generator. Nothing
/// is claimed of which value it is. It panics where the operating system
/// yields no seed for that generator, which no input decides.
#[verifier::external_body]
fn random_u128() -> (r: u128) {
    rand::random::<u128>()
}

/// The page's stamp with a given instance id.
pub fn cnc_meta(
    instance_id: u128,
    node_id: NodeId,
    app_id: &String,
    buffer_bytes: usize,
    max_payload: usize,
) -> (m: CncMeta)
    ensures
        m.instance_id == instance_id,
        stamps(m, node_id, app_id@, buffer_bytes, max_payload),
{
    CncMeta {
        node_id,
        instance_id,
        app_id: app_id.clone(),
        buffer_bytes: buffer_bytes as u64,
        max_payload: #[verifier::truncate] (max_payload as u32),
    }
}

/// The page's stamp for this boot, with an instance id drawn at random.
pub fn fresh_cnc_meta(
    node_id: NodeId,
    app_id: &String,
    buffer_bytes: usize,
    max_payload: usize,
) -> (m: CncMeta)
    ensures
        stamps(m, node_id, app_id@, buffer_bytes, max_payload),
{
    cnc_meta(random_u128(), node_id, app_id, buffer_bytes, max_payload)
}

/// Why a recovered node does not start: its own id was removed for good.
#[derive(Debug, Clone, Copy, PartialEq, Eq, Structural)]
pub struct Tombstoned {
    pub id: NodeId,
    pub version: u64,
}

impl Tombstoned {
    /// What the refusal says.
    pub open spec fn text(self) -> Seq<char> {
        "node id "@ + text::digits(self.id as nat)
            + " is tombstoned in the recovered cluster config (v"@ + text::digits(
            self.version as nat,
        )
            + "): this id was permanently removed and can never rejoin; decommission this instance dir, or wipe it and rejoin with a fresh id"@
    }

    /// What the refusal says.
    pub fn message(self) -> (s: String)
        ensures
            s@ == self.text(),
    {
        let mut s = "node id ".to_owned();
        push_decimal(&mut s, self.id as u128);
        s.append(" is tombstoned in the recovered cluster config (v");
        push_decimal(&mut s, self.version as u128);
        s.append(
            "): this id was permanently removed and can never rejoin; decommission this instance dir, or wipe it and rejoin with a fresh id",
        );
        s
    }
}

/// The refusal of a node whose key material is unusable.
pub open spec fn crypto_refusal_text(id: NodeId, cause: Seq<char>) -> Seq<char> {
    "node "@ + text::digits(id as nat)
        + " refuses to start: crypto is enabled but its key material is unusable ("@ + cause
        + "); a node configured to authenticate must never fall back to cleartext"@
}

/// The refusal of a node whose key material is unusable.
pub fn crypto_refusal(id: NodeId, cause: &str) -> (s: String)
    ensures
        s@ == crypto_refusal_text(id, cause@),
{
    let mut s = "node ".to_owned();
    push_decimal(&mut s, id as u128);
    s.append(" refuses to start: crypto is enabled but its key material is unusable (");
    s.append(cause);
    s.append("); a node configured to authenticate must never fall back to cleartext");
    s
}

/// The refusal of a node that cannot record admin requests.
pub open spec fn audit_refusal_text(id: NodeId, path: Seq<char>, cause: Seq<char>) -> Seq<char> {
    "node "@ + text::digits(id as nat) + " refuses to start: cannot open the admin audit log "@
        + path + " ("@ + cause + ")"@
}

/// The refusal of a node that cannot record admin requests.
pub fn audit_refusal(id: NodeId, path: &str, cause: &str) -> (s: String)
    ensures
        s@ == audit_refusal_text(id, path@, cause@),
{
    let mut s = "node ".to_owned();
    push_decimal(&mut s, id as u128);
    s.append(" refuses to start: cannot open the admin audit log ");
    s.append(path);
    s.append(" (");
    s.append(cause);
    s.append(")");
    s
}

/// What a node reads at boot.
#[derive(Debug)]
pub struct BootInputs {
    /// The configured voters and learners; used on a fresh instance only.
    pub members: Vec<Member>,
    pub learners: Vec<Member>,
    pub durable: u64,
    pub term_map: TermMap,
    /// What replay yields from the term scan's start on.
    pub term_frames: Vec<ReplayFrame>,
    pub record: Option<ConfigRecord>,
    /// What replay yields from the configuration scan's start on.
    pub config_frames: Vec<ReplayFrame>,
}

impl BootInputs {
    /// The complete term map.
    pub open spec fn full_map(self) -> Seq<(u32, u64)> {
        recover::extend_map(self.term_map@, recover::frames_view(self.term_frames@))
    }

    /// The recovered configuration record.
    pub open spec fn recovered(self) -> RecordV {
        recover::fold_config(
            recover::trusted_record(
                recover::stored_view(self.record),
                self.durable,
                recover::seed_record(self.members@, self.learners@),
            ),
            recover::frames_view(self.config_frames@),
        )
    }
}

/// Where each of `ids` is.
pub open spec fn routed_addrs(table: Seq<Member>, ids: Seq<NodeId>) -> Seq<Addr> {
    ids.map_values(|id: NodeId| cluster::route_addr(table, id)->0)
}

/// Where each of `ids` is.
pub fn addrs_routed(table: &Vec<Member>, ids: &Vec<NodeId>) -> (r: Vec<Addr>)
    requires
        consensus::routable(table@, ids@),
    ensures
        r@ == routed_addrs(table@, ids@),
{
    let mut r: Vec<Addr> = Vec::new();
    for i in 0..ids.len()
        invariant
            consensus::routable(table@, ids@),
            r@ == routed_addrs(table@, ids@).take(i as int),
    {
        match addr_for(table, ids[i]) {
            Some(a) => {
                r.push(a);
            },
            None => {
                assert(cluster::route_addr(table@, ids@[i as int]) is Some);
            },
        }
        assert(r@ =~= routed_addrs(table@, ids@).take(i as int + 1));
    }
    assert(r@ =~= routed_addrs(table@, ids@));
    r
}

/// What a boot recovers. It is stored before anything else is decided, also
/// where the node is then refused.
pub struct BootRecovery {
    pub term_map: TermMap,
    /// Whether the term map is to be stored before anything reads it.
    pub store_term_map: bool,
    pub recovery: ConfigRecovery,
    pub config: ClusterConfig,
    pub prev_config: ClusterConfig,
}

/// Work out what a boot recovers.
pub fn recover_boot(inputs: &BootInputs) -> (r: BootRecovery)
    ensures
        r.term_map@ == inputs.full_map(),
        r.store_term_map == map_is_news(*inputs),
        r.recovery.record@ == inputs.recovered(),
        recover::records_view(r.recovery.stores@) == recover::recovery_stores(
            recover::stored_view(inputs.record),
            inputs.durable,
            recover::seed_record(inputs.members@, inputs.learners@),
            recover::frames_view(inputs.config_frames@),
        ),
        r.config@ == inputs.recovered().config,
        r.prev_config@ == inputs.recovered().prev,
{
    let term_map = rederive_term_map(&inputs.term_map, &inputs.term_frames);
    let store_term_map = !same_map(&term_map, &inputs.term_map);
    let recovery = recover_config_record(
        &inputs.record,
        &inputs.config_frames,
        inputs.durable,
        &inputs.members,
        &inputs.learners,
    );
    let config = stored_to_cluster(&recovery.record.config);
    let prev_config = stored_to_cluster(&recovery.record.prev);
    BootRecovery { term_map, store_term_map, recovery, config, prev_config }
}

/// What a node starts from.
pub struct BootPlan {
    pub is_learner: bool,
    /// The configuration that a snapshot session ships.
    pub wire: WireConfig,
    pub maps: PeerMaps,
    /// Whom the sender streams to, voters first.
    pub sender_followers: Vec<Addr>,
    /// Those of them that flow control does not count.
    pub sender_learners: Vec<Addr>,
    pub sender_cluster: usize,
    pub awaiting_reconcile: bool,
}

/// Whether the node is refused.
pub open spec fn refusal(id: NodeId, config: ConfigV) -> Option<Tombstoned> {
    if config.tombstones.contains(id) {
        Some(Tombstoned { id, version: config.version })
    } else {
        None
    }
}

/// Whether `id` is listed both as a learner and as a voter: never a
/// configuration that the cluster adopts.
pub open spec fn listed_twice(id: NodeId, config: ConfigV) -> bool {
    cluster::lists(config.learners, id) && cluster::lists(config.voters, id)
}

/// Work out what node `id`, which last voted as `vote`, starts from.
pub fn plan_boot(id: NodeId, vote: Option<(u32, NodeId)>, rec: &BootRecovery) -> (r: Result<
    BootPlan,
    Tombstoned,
>)
    requires
        rec.config.voters.len() < usize::MAX,
        refusal(id, rec.config@) is None ==> !listed_twice(id, rec.config@),
    ensures
        match r {
            Err(e) => refusal(id, rec.config@) == Some(e),
            Ok(p) => {
                &&& refusal(id, rec.config@) is None
                &&& plans(
                    p,
                    id,
                    vote,
                    rec.config@,
                    rec.recovery.record.prev_position,
                    rec.term_map@,
                )
            },
        },
{
    if cluster::holds_id(&rec.config.tombstones, id) {
        return Err(Tombstoned { id, version: rec.config.version });
    }
    let wire = cluster_to_wire(&rec.config, rec.recovery.record.prev_position);
    let is_learner = rec.config.is_learner(id);
    let awaiting_reconcile = boot_awaiting_reconcile(vote, &rec.term_map);
    let maps = derive_peer_maps(&rec.config, id);
    proof {
        consensus::law_derived_routing_is_complete(rec.config@, id);
    }
    let (sender_followers, sender_learners, sender_cluster) = if is_learner {
        let f: Vec<Addr> = Vec::new();
        let l: Vec<Addr> = Vec::new();
        (f, l, 1usize)
    } else {
        let mut f = addrs_routed(&maps.table, &maps.peers);
        let mut more = addrs_routed(&maps.table, &maps.learner_ids);
        f.append(&mut more);
        let l = addrs_routed(&maps.table, &maps.learner_ids);
        (f, l, sender_cluster_size(&rec.config, id))
    };
    Ok(
        BootPlan {
            is_learner,
            wire,
            maps,
            sender_followers,
            sender_learners,
            sender_cluster,
            awaiting_reconcile,
        },
    )
}

/// Which slot of the band each peer's flow-control view is published in.
pub fn peer_slots(maps: &PeerMaps) -> (r: Vec<(Addr, usize)>)
    requires
        forall|i: int|
            0 <= i < maps.band@.len() ==> cluster::route_addr(
                maps.table@,
                (#[trigger] maps.band@[i]).0,
            ) is Some,
    ensures
        r@.len() == maps.band@.len(),
        forall|i: int|
            0 <= i < r@.len() ==> #[trigger] r@[i] == (
                cluster::route_addr(maps.table@, maps.band@[i].0)->0,
                i as usize,
            ),
{
    let mut r: Vec<(Addr, usize)> = Vec::new();
    for i in 0..maps.band.len()
        invariant
            forall|i: int|
                0 <= i < maps.band@.len() ==> cluster::route_addr(
                    maps.table@,
                    (#[trigger] maps.band@[i]).0,
                ) is Some,
            r@.len() == i,
            forall|j: int|
                0 <= j < r@.len() ==> #[trigger] r@[j] == (
                    cluster::route_addr(maps.table@, maps.band@[j].0)->0,
                    j as usize,
                ),
    {
        let addr = addr_for(&maps.table, maps.band[i].0);
        match addr {
            Some(a) => {
                r.push((a, i));
            },
            None => {
                assert(false);
            },
        }
    }
    r
}

/// The agent's first state.
pub open spec fn booted(
    id: NodeId,
    config: ConfigV,
    record: RecordV,
    term: u32,
    durable: u64,
    awaiting_reconcile: bool,
    crypto: CryptoState,
) -> ConsensusV {
    ConsensusV {
        id,
        gate: TermGate {
            gate_open: !awaiting_reconcile,
            adopted_term: term,
            awaiting_reconcile,
            pending_truncation: None,
            pending_leader_open: None,
            next_collapse_epoch: 0,
            leader_flag: false,
            can_serve_flag: false,
            appender: false,
            durable_seen: durable,
            truncations: 0,
            wipes: 0,
            halt_removed: false,
            leader_hint: gate::LEADER_UNKNOWN,
        },
        maps: cluster::peers_of(config, id),
        reported: Map::empty(),
        band_published: false,
        record: Some(record),
        config_version: config.version,
        config_pending: false,
        reads: reads::BarrierV {
            pending: Seq::empty(),
            round: None,
            next_round_seq: 1,
            next_nonce: 0,
        },
        admin: crate::node::admin::AdminV {
            last_admin_seq: 0,
            pending: None,
            last_reply: None,
            non_member: 0,
            dedup_resend: 0,
        },
        crypto,
        leader_map: Seq::empty(),
        reports_implausible: 0,
        published_can_serve: false,
        adopted_incoming: 0,
        held_terms: Seq::empty(),
    }
}

/// The agent's first state: a follower of the term that its state machine
/// recovered.
pub fn boot_consensus(
    id: NodeId,
    config: &ClusterConfig,
    record: ConfigRecord,
    term: u32,
    durable: u64,
    awaiting_reconcile: bool,
    crypto: CryptoState,
) -> (c: Consensus)
    ensures
        c@ == booted(id, config@, record@, term, durable, awaiting_reconcile, crypto),
        c@.wf(),
        c.gate.wf(),
{
    let ghost rv = record@;
    let c = Consensus {
        id,
        gate: TermGate::boot(term, durable, awaiting_reconcile),
        maps: derive_peer_maps(config, id),
        reported: Vec::new(),
        band_published: false,
        record: Some(record),
        config_version: config.version,
        config_pending: false,
        reads: ReadBarrier::new(),
        admin: AdminDesk::new(),
        crypto,
        leader_map: Vec::new(),
        reports_implausible: 0,
        published_can_serve: false,
        adopted_incoming: 0,
        held_terms: Vec::new(),
    };
    proof {
        consensus::law_derived_routing_is_complete(config@, id);
    }
    assert(c@ =~= booted(id, config@, rv, term, durable, awaiting_reconcile, crypto));
    c
}

/// A node that voted in a term its log knows nothing of boots with intake
/// closed, and one whose log reaches its vote boots with intake open.
pub proof fn law_unreconciled_vote_boots_closed(
    id: NodeId,
    vote: Option<(u32, NodeId)>,
    map: Seq<(u32, u64)>,
    durable: u64,
    config: ConfigV,
    record: RecordV,
    term: u32,
    crypto: CryptoState,
)
    ensures
        ({
            let awaiting = recover::vote_outruns_map(vote, map);
            let c = booted(id, config, record, term, durable, awaiting, crypto);
            c.gate.gate_open == !(vote matches Some(v) && v.0 > recover::newest_term(map))
        }),
{
}

/// A removed id never starts again, whatever else was recovered.
pub proof fn law_removed_id_never_boots(id: NodeId, config: ConfigV)
    requires
        config.tombstones.contains(id),
    ensures
        refusal(id, config) == Some(Tombstoned { id, version: config.version }),
{
}

/// What a boot recovers is backed by what is durable: where the replayed
/// configuration frames end within the durable frontier, the record does too.
pub proof fn law_recovered_boot_is_backed(inputs: BootInputs)
    requires
        forall|i: int|
            0 <= i < inputs.config_frames@.len() && (#[trigger] inputs.config_frames@[i]).config
                is Some ==> inputs.config_frames@[i].end <= inputs.durable,
    ensures
        inputs.recovered().position <= inputs.durable,
{
    let frames = recover::frames_view(inputs.config_frames@);
    assert forall|i: int|
        0 <= i < frames.len() && (#[trigger] frames[i]).config is Some implies frames[i].end
        <= inputs.durable by {
        assert(frames[i] == inputs.config_frames@[i]@);
    }
    let base = recover::trusted_record(
        recover::stored_view(inputs.record),
        inputs.durable,
        recover::seed_record(inputs.members@, inputs.learners@),
    );
    recover::law_trusted_record_is_backed(
        recover::stored_view(inputs.record),
        inputs.durable,
        inputs.members@,
        inputs.learners@,
    );
    recover::law_fold_stays_backed(base, frames, inputs.durable);
}

/// The largest block to record for a segment.
pub open spec fn fitting_cap(default_cap: u64, segment_bytes: u64) -> u64 {
    let fitting = if default_cap <= segment_bytes / 2 {
        default_cap
    } else {
        segment_bytes / 2
    };
    if fitting < MIN_BLOCK_BYTES {
        MIN_BLOCK_BYTES
    } else {
        fitting
    }
}

/// A block is never under 4096 bytes; beyond that two of them fit a segment
/// and none is over the default, which is taken where it fits.
pub proof fn law_blocks_fit_their_segment(default_cap: u64, segment_bytes: u64)
    ensures
        fitting_cap(default_cap, segment_bytes) >= 4096,
        fitting_cap(default_cap, segment_bytes) > 4096 ==> 2 * fitting_cap(
            default_cap,
            segment_bytes,
        ) <= segment_bytes && fitting_cap(default_cap, segment_bytes) <= default_cap,
        4096 <= default_cap && 2 * default_cap <= segment_bytes ==> fitting_cap(
            default_cap,
            segment_bytes,
        ) == default_cap,
        4096 <= segment_bytes / 2 <= default_cap ==> fitting_cap(default_cap, segment_bytes)
            == segment_bytes / 2,
{
}

/// The seed of the receiver's timers, derived from the node's.
pub open spec fn mixed_seed(seed: u64) -> u64 {
    seed ^ RECEIVER_SEED_MIX
}

/// The receiver's seed is never the node's own, and nodes with seeds of their
/// own have receivers with seeds of their own.
pub proof fn law_receiver_seeds_differ(a: u64, b: u64)
    ensures
        mixed_seed(a) != a,
        a != b ==> mixed_seed(a) != mixed_seed(b),
{
    assert(a ^ 0x5DEE_CE66_1D0C_2A11u64 != a) by (bit_vector);
    assert(a != b ==> a ^ 0x5DEE_CE66_1D0C_2A11u64 != b ^ 0x5DEE_CE66_1D0C_2A11u64) by (bit_vector);
}

/// A snapshot's file is named for its position.
pub proof fn law_snapshots_are_named_for_their_position(pos: u64, other: u64)
    ensures
        snapshot_name(pos) == "snap-"@ + text::digits(pos as nat) + ".ultsnap"@,
        snapshot_name(pos) == snapshot_name(other) ==> pos == other,
{
    let a = text::digits(pos as nat);
    let b = text::digits(other as nat);
    reveal_strlit("snap-");
    reveal_strlit(".ultsnap");
    let x = snapshot_name(pos);
    let y = snapshot_name(other);
    assert(x.subrange(5, x.len() - 8) =~= a);
    assert(y.subrange(5, y.len() - 8) =~= b);
    if x == y {
        text::law_decimals_are_told_apart(pos as nat, other as nat);
    }
}

/// Whether a page's stamp is that of a node.
pub open spec fn stamps(
    m: CncMeta,
    node_id: NodeId,
    app_id: Seq<char>,
    buffer_bytes: usize,
    max_payload: usize,
) -> bool {
    &&& m.node_id == node_id
    &&& m.app_id@ == app_id
    &&& m.buffer_bytes == buffer_bytes
    &&& m.max_payload == max_payload as u32
}

/// A stamp is that of one node and one application, with one buffer and one
/// payload limit.
pub proof fn law_stamp_is_of_one_node(
    m: CncMeta,
    id: NodeId,
    app: Seq<char>,
    buffer: usize,
    payload: usize,
    other: NodeId,
    other_app: Seq<char>,
    other_buffer: usize,
    other_payload: usize,
)
    requires
        stamps(m, id, app, buffer, payload),
        stamps(m, other, other_app, other_buffer, other_payload),
        payload <= u32::MAX,
        other_payload <= u32::MAX,
    ensures
        id == other,
        app == other_app,
        buffer == other_buffer,
        payload == other_payload,
{
}

/// A node is refused exactly where its own id was removed, under the version
/// that says so; nobody else's removal refuses it.
pub proof fn law_only_the_removed_are_refused(id: NodeId, config: ConfigV)
    ensures
        refusal(id, config) is Some <==> config.tombstones.contains(id),
        refusal(id, config) matches Some(t) ==> t.id == id && t.version == config.version,
        listed_twice(id, config) <==> cluster::lists(config.voters, id) && cluster::lists(
            config.learners,
            id,
        ),
{
}

/// Whom a node's sender streams to at boot, voters first.
pub open spec fn boot_followers(config: ConfigV, id: NodeId) -> Seq<Addr> {
    let maps = cluster::peers_of(config, id);
    if cluster::lists(config.learners, id) {
        Seq::empty()
    } else {
        routed_addrs(maps.table, maps.peers) + routed_addrs(maps.table, maps.learner_ids)
    }
}

/// Those of them that flow control does not count.
pub open spec fn boot_learners(config: ConfigV, id: NodeId) -> Seq<Addr> {
    let maps = cluster::peers_of(config, id);
    if cluster::lists(config.learners, id) {
        Seq::empty()
    } else {
        routed_addrs(maps.table, maps.learner_ids)
    }
}

/// The cluster size that a node's sender is built for at boot.
pub open spec fn boot_cluster(config: ConfigV, id: NodeId) -> nat {
    if cluster::lists(config.learners, id) {
        1
    } else {
        cluster::sender_size(config, id)
    }
}

/// Each id's address stands in its place.
pub proof fn law_addresses_stand_in_place(table: Seq<Member>, ids: Seq<NodeId>, i: int)
    requires
        consensus::routable(table, ids),
        0 <= i < ids.len(),
    ensures
        routed_addrs(table, ids).len() == ids.len(),
        cluster::route_addr(table, ids[i]) == Some(routed_addrs(table, ids)[i]),
{
}

/// A learner streams to nobody. Any other node streams to every other member
/// at the address that the members give for it, and counts all but the
/// learners.
pub proof fn law_voters_stream_to_every_member(config: ConfigV, id: NodeId, x: NodeId)
    ensures
        cluster::lists(config.learners, id) ==> boot_followers(config, id).len() == 0
            && boot_learners(config, id).len() == 0 && boot_cluster(config, id) == 1,
        !cluster::lists(config.learners, id) ==> {
            let maps = cluster::peers_of(config, id);
            let at = cluster::route_addr(config.voters + config.learners, x);
            &&& cluster::lists(config.voters, x) && x != id ==> at is Some && boot_followers(
                config,
                id,
            ).contains(at->0)
            &&& cluster::lists(config.learners, x) && x != id ==> at is Some && boot_followers(
                config,
                id,
            ).contains(at->0) && boot_learners(config, id).contains(at->0)
            &&& boot_followers(config, id).len() == maps.peers.len() + boot_learners(
                config,
                id,
            ).len()
            &&& boot_cluster(config, id) == (if cluster::lists(config.voters, id) {
                config.voters.len()
            } else {
                config.voters.len() + 1
            })
        },
{
    if !cluster::lists(config.learners, id) {
        let maps = cluster::peers_of(config, id);
        consensus::law_derived_routing_is_complete(config, id);
        cluster::law_peers_are_the_other_members(config, id, x, (x, (0, 0)));
        let v = routed_addrs(maps.table, maps.peers);
        let l = routed_addrs(maps.table, maps.learner_ids);
        if maps.peers.contains(x) {
            let k = choose|k: int| 0 <= k < maps.peers.len() && maps.peers[k] == x;
            assert((v + l)[k] == cluster::route_addr(maps.table, maps.peers[k])->0);
        }
        if maps.learner_ids.contains(x) {
            let k = choose|k: int| 0 <= k < maps.learner_ids.len() && maps.learner_ids[k] == x;
            assert(l[k] == cluster::route_addr(maps.table, maps.learner_ids[k])->0);
            assert((v + l)[v.len() + k] == l[k]);
        }
    }
}

/// A node boots as a follower that knows no leader: it neither leads, serves
/// nor appends, nothing is in flight, and intake is open exactly where it does
/// not wait for a reconcile. It runs under the recovered term, record and
/// members, and knows as durable what its archive recovered.
pub proof fn law_nodes_boot_as_followers(
    id: NodeId,
    config: ConfigV,
    record: RecordV,
    term: u32,
    durable: u64,
    awaiting: bool,
    crypto: CryptoState,
    x: NodeId,
)
    ensures
        ({
            let c = booted(id, config, record, term, durable, awaiting, crypto);
            &&& c.id == id
            &&& c.gate.gate_open == !awaiting && c.gate.awaiting_reconcile == awaiting
            &&& c.gate.adopted_term == term && c.gate.durable_seen == durable
            &&& !c.gate.leader_flag && !c.gate.can_serve_flag && !c.gate.appender
            &&& !c.gate.halt_removed && c.gate.leader_hint == u64::MAX
            &&& c.gate.pending_truncation is None && c.gate.pending_leader_open is None
            &&& c.gate.truncations == 0 && c.gate.wipes == 0
            &&& c.record == Some(record) && c.config_version == config.version && !c.config_pending
            &&& c.maps.peers.contains(x) <==> cluster::lists(config.voters, x) && x != id
            &&& c.maps.learner_ids.contains(x) <==> cluster::lists(config.learners, x) && x != id
            &&& c.maps.table == config.voters + config.learners
            &&& c.reported.dom().is_empty() && !c.band_published
            &&& c.reads.pending.len() == 0 && c.reads.round is None
            &&& c.admin.pending is None && c.admin.last_reply is None
            &&& c.leader_map.len() == 0 && c.held_terms.len() == 0 && c.adopted_incoming == 0
            &&& !c.published_can_serve && c.crypto == crypto
        }),
{
    cluster::law_peers_are_the_other_members(config, id, x, (x, (0, 0)));
}

/// What a boot works from is what it was given: the stored map completed by
/// the replayed terms, and the stored record, or the configured members,
/// moved forward by the replayed configurations.
pub proof fn law_boot_recovers_from_what_is_stored(inputs: BootInputs)
    ensures
        inputs.term_map@.is_prefix_of(inputs.full_map()),
        inputs.term_frames@.len() == 0 ==> inputs.full_map() == inputs.term_map@,
        inputs.config_frames@.len() == 0 ==> {
            &&& inputs.record is None ==> inputs.recovered().config.voters == inputs.members@
                && inputs.recovered().config.learners == inputs.learners@
                && inputs.recovered().config.version == 0 && inputs.recovered().position == 0
            &&& inputs.record matches Some(r) ==> (r.position <= inputs.durable
                ==> inputs.recovered() == r@)
        },
{
    recover::law_extended_map_covers_frames(
        inputs.term_map@,
        recover::frames_view(inputs.term_frames@),
    );
}

/// Whether a plan is that of node `id` for a recovered configuration.
pub open spec fn plans(
    p: BootPlan,
    id: NodeId,
    vote: Option<(u32, NodeId)>,
    config: ConfigV,
    prev_position: u64,
    map: Seq<(u32, u64)>,
) -> bool {
    &&& p.is_learner == cluster::lists(config.learners, id)
    &&& p.wire@ == config
    &&& p.wire.prev_position == prev_position
    &&& p.maps@ == cluster::peers_of(config, id)
    &&& p.sender_followers@ == boot_followers(config, id)
    &&& p.sender_learners@ == boot_learners(config, id)
    &&& p.sender_cluster == boot_cluster(config, id)
    &&& p.awaiting_reconcile == recover::vote_outruns_map(vote, map)
}

/// A plan is for the recovered configuration: it ships that, knows whether
/// this node learns or votes, and has it wait for a reconcile exactly where it
/// voted beyond its log.
pub proof fn law_plan_is_for_what_was_recovered(
    p: BootPlan,
    id: NodeId,
    vote: Option<(u32, NodeId)>,
    config: ConfigV,
    prev_position: u64,
    map: Seq<(u32, u64)>,
    x: NodeId,
)
    requires
        plans(p, id, vote, config, prev_position, map),
    ensures
        p.is_learner <==> cluster::lists(config.learners, id),
        p.wire@ == config && p.wire.prev_position == prev_position,
        p.maps@.peers.contains(x) <==> cluster::lists(config.voters, x) && x != id,
        p.maps@.learner_ids.contains(x) <==> cluster::lists(config.learners, x) && x != id,
        p.maps@.table == config.voters + config.learners,
        p.is_learner ==> p.sender_followers@.len() == 0 && p.sender_cluster == 1,
        p.awaiting_reconcile <==> vote is Some && (vote->0).0 > (if map.len() == 0 {
            0
        } else {
            map.last().0
        }),
{
    cluster::law_peers_are_the_other_members(config, id, x, (x, (0, 0)));
}

/// Whether the term map has to be stored: what was recovered is not what is
/// on disk.
pub open spec fn map_is_news(inputs: BootInputs) -> bool {
    inputs.full_map() != inputs.term_map@
}

/// A term map is stored exactly where recovery added to it.
pub proof fn law_completed_map_is_stored(inputs: BootInputs)
    ensures
        map_is_news(inputs) <==> inputs.full_map().len() > inputs.term_map@.len(),
{
    recover::law_extended_map_covers_frames(
        inputs.term_map@,
        recover::frames_view(inputs.term_frames@),
    );
    if inputs.full_map().len() <= inputs.term_map@.len() {
        assert(inputs.full_map() =~= inputs.term_map@);
    }
}

/// Refusals to start tell who refuses, and what for.
pub proof fn law_start_refusals_tell_the_cause(
    id: NodeId,
    version: u64,
    path: Seq<char>,
    cause: Seq<char>,
)
    ensures
        crate::audit::tells(crypto_refusal_text(id, cause), "node "@ + text::digits(id as nat)),
        crate::audit::tells(crypto_refusal_text(id, cause), cause),
        crate::audit::tells(audit_refusal_text(id, path, cause), "node "@ + text::digits(id as nat)),
        crate::audit::tells(audit_refusal_text(id, path, cause), path + " ("@ + cause + ")"@),
        crate::audit::tells((Tombstoned { id, version }).text(), "node id "@ + text::digits(id as nat)),
        crate::audit::tells((Tombstoned { id, version }).text(), text::digits(version as nat)),
{
    let e = Seq::<char>::empty();
    let n = "node "@ + text::digits(id as nat);
    let a = crypto_refusal_text(id, cause);
    let x = " refuses to start: crypto is enabled but its key material is unusable ("@;
    let y = "); a node configured to authenticate must never fall back to cleartext"@;
    crate::audit::lemma_told(a, e, n, x + cause + y);
    crate::audit::lemma_told(a, n + x, cause, y);
    let b = audit_refusal_text(id, path, cause);
    let z = " refuses to start: cannot open the admin audit log "@;
    let p = path + " ("@ + cause + ")"@;
    crate::audit::lemma_told(b, e, n, z + p);
    crate::audit::lemma_told(b, n + z, p, e);
    let t = (Tombstoned { id, version }).text();
    let i = "node id "@ + text::digits(id as nat);
    let m = " is tombstoned in the recovered cluster config (v"@;
    let v = text::digits(version as nat);
    let w =
        "): this id was permanently removed and can never rejoin; decommission this instance dir, or wipe it and rejoin with a fresh id"@;
    crate::audit::lemma_told(t, e, i, m + v + w);
    crate::audit::lemma_told(t, i + m, v, w);
}

/// The name of the snapshot to offer a peer, if there is one.
pub open spec fn offered(floor: u64) -> Option<Seq<char>> {
    if floor == 0 {
        None
    } else {
        Some(snapshot_name(floor))
    }
}

/// A peer is offered the snapshot at the durable floor, and none where there
/// is no floor.
pub proof fn law_snapshot_at_the_floor_is_offered(floor: u64)
    ensures
        offered(floor) is None <==> floor == 0,
        offered(floor) matches Some(n) ==> n == "snap-"@ + text::digits(floor as nat)
            + ".ultsnap"@,
{
}

} // verus!
