//! Cluster membership: the configuration the consensus agent works on, the
//! forms it is stored and shipped in, and its recovery at boot.

use vstd::prelude::*;

verus! {

/// A node's identity within the cluster.
pub type NodeId = u32;

/// An IPv4 endpoint: the address as a big-endian integer, and the port.
pub type Addr = (u32, u16);

/// A member: who, and where.
pub type Member = (NodeId, Addr);

/// What a cluster configuration says, whichever form carries it.
#[verifier::ext_equal]
pub struct ConfigV {
    pub version: u64,
    pub voters: Seq<Member>,
    pub learners: Seq<Member>,
    pub tombstones: Seq<NodeId>,
}

/// The configuration in the form the consensus agent works on.
#[derive(Debug, PartialEq, Eq)]
pub struct ClusterConfig {
    pub version: u64,
    pub voters: Vec<Member>,
    pub learners: Vec<Member>,
    pub tombstones: Vec<NodeId>,
}

impl View for ClusterConfig {
    type V = ConfigV;

    open spec fn view(&self) -> ConfigV {
        ConfigV {
            version: self.version,
            voters: self.voters@,
            learners: self.learners@,
            tombstones: self.tombstones@,
        }
    }
}

/// A member as the durable record spells it.
#[derive(Debug, Clone, Copy, PartialEq, Eq)]
pub struct StoredMember {
    pub id: NodeId,
    pub ip: u32,
    pub port: u16,
}

/// The member a stored entry names.
pub open spec fn stored_as_member(m: StoredMember) -> Member {
    (m.id, (m.ip, m.port))
}

/// The configuration in the form the durable record holds.
#[derive(Debug, PartialEq, Eq)]
pub struct StoredConfig {
    pub version: u64,
    pub voters: Vec<StoredMember>,
    pub learners: Vec<StoredMember>,
    pub tombstones: Vec<NodeId>,
}

impl View for StoredConfig {
    type V = ConfigV;

    open spec fn view(&self) -> ConfigV {
        ConfigV {
            version: self.version,
            voters: self.voters@.map_values(|m: StoredMember| stored_as_member(m)),
            learners: self.learners@.map_values(|m: StoredMember| stored_as_member(m)),
            tombstones: self.tombstones@,
        }
    }
}

/// A member as a configuration frame spells it.
#[derive(Debug, Clone, Copy, PartialEq, Eq)]
pub struct WireMember {
    pub id: NodeId,
    pub ip: u32,
    pub port: u16,
}

/// The member a wire entry names.
pub open spec fn wire_as_member(m: WireMember) -> Member {
    (m.id, (m.ip, m.port))
}

/// The payload of a configuration frame, decoded.
#[derive(Debug, PartialEq, Eq)]
pub struct WireConfig {
    pub version: u64,
    /// The position of the configuration this one supersedes; an audit trail,
    /// never an input to adoption.
    pub prev_position: u64,
    pub voters: Vec<WireMember>,
    pub learners: Vec<WireMember>,
    pub tombstones: Vec<NodeId>,
}

impl View for WireConfig {
    type V = ConfigV;

    open spec fn view(&self) -> ConfigV {
        ConfigV {
            version: self.version,
            voters: self.voters@.map_values(|m: WireMember| wire_as_member(m)),
            learners: self.learners@.map_values(|m: WireMember| wire_as_member(m)),
            tombstones: self.tombstones@,
        }
    }
}

/// What a durable configuration record says.
#[verifier::ext_equal]
pub struct RecordV {
    pub position: u64,
    pub config: ConfigV,
    pub prev_position: u64,
    pub prev: ConfigV,
}

/// The durable configuration record: the adopted configuration, the position
/// its frame ends at, and the one level of history below it.
#[derive(Debug, PartialEq, Eq)]
pub struct ConfigRecord {
    pub position: u64,
    pub config: StoredConfig,
    pub prev_position: u64,
    pub prev: StoredConfig,
}

impl View for ConfigRecord {
    type V = RecordV;

    open spec fn view(&self) -> RecordV {
        RecordV {
            position: self.position,
            config: self.config@,
            prev_position: self.prev_position,
            prev: self.prev@,
        }
    }
}

/// A member list copied entry by entry.
pub fn copy_members(v: &Vec<Member>) -> (r: Vec<Member>)
    ensures
        r@ == v@,
{
    let mut r: Vec<Member> = Vec::new();
    for i in 0..v.len()
        invariant
            r@ == v@.take(i as int),
    {
        r.push(v[i]);
        assert(r@ =~= v@.take(i as int + 1));
    }
    assert(v@.take(v@.len() as int) =~= v@);
    r
}

/// An id list copied entry by entry.
pub fn copy_ids(v: &Vec<NodeId>) -> (r: Vec<NodeId>)
    ensures
        r@ == v@,
{
    let mut r: Vec<NodeId> = Vec::new();
    for i in 0..v.len()
        invariant
            r@ == v@.take(i as int),
    {
        r.push(v[i]);
        assert(r@ =~= v@.take(i as int + 1));
    }
    assert(v@.take(v@.len() as int) =~= v@);
    r
}

/// Whether two member lists agree entry for entry.
pub fn same_members(a: &Vec<Member>, b: &Vec<Member>) -> (r: bool)
    ensures
        r == (a@ == b@),
{
    if a.len() != b.len() {
        return false;
    }
    for i in 0..a.len()
        invariant
            a.len() == b.len(),
            forall|j: int| 0 <= j < i ==> a@[j] == b@[j],
    {
        let x: Member = a[i];
        let y: Member = b[i];
        if x.0 != y.0 || (x.1).0 != (y.1).0 || (x.1).1 != (y.1).1 {
            assert(a@[i as int] != b@[i as int]);
            return false;
        }
    }
    assert(a@ =~= b@);
    true
}

/// Whether two id lists agree entry for entry.
pub fn same_ids(a: &Vec<NodeId>, b: &Vec<NodeId>) -> (r: bool)
    ensures
        r == (a@ == b@),
{
    if a.len() != b.len() {
        return false;
    }
    for i in 0..a.len()
        invariant
            a.len() == b.len(),
            forall|j: int| 0 <= j < i ==> a@[j] == b@[j],
    {
        if a[i] != b[i] {
            return false;
        }
    }
    assert(a@ =~= b@);
    true
}

/// Whether `ids` holds `id`.
pub fn holds_id(ids: &Vec<NodeId>, id: NodeId) -> (r: bool)
    ensures
        r == ids@.contains(id),
{
    for i in 0..ids.len()
        invariant
            forall|j: int| 0 <= j < i ==> ids@[j] != id,
    {
        if ids[i] == id {
            assert(ids@[i as int] == id);
            return true;
        }
    }
    false
}

/// The ids of a member list, in order.
pub open spec fn member_ids(s: Seq<Member>) -> Seq<NodeId> {
    s.map_values(|m: Member| m.0)
}

/// Whether a member list names `id`.
pub open spec fn lists(s: Seq<Member>, id: NodeId) -> bool {
    exists|i: int| 0 <= i < s.len() && (#[trigger] s[i]).0 == id
}

/// Whether a member list names `id`.
pub fn lists_id(v: &Vec<Member>, id: NodeId) -> (r: bool)
    ensures
        r == lists(v@, id),
{
    for i in 0..v.len()
        invariant
            forall|j: int| 0 <= j < i ==> (#[trigger] v@[j]).0 != id,
    {
        if v[i].0 == id {
            assert(v@[i as int].0 == id);
            return true;
        }
    }
    false
}

impl Clone for ClusterConfig {
    fn clone(&self) -> (r: Self)
        ensures
            r@ == self@,
    {
        ClusterConfig {
            version: self.version,
            voters: copy_members(&self.voters),
            learners: copy_members(&self.learners),
            tombstones: copy_ids(&self.tombstones),
        }
    }
}

impl ClusterConfig {
    /// The configuration a fresh cluster starts from: version 0, nobody
    /// removed.
    pub fn genesis(voters: Vec<Member>, learners: Vec<Member>) -> (c: ClusterConfig)
        ensures
            c@ == genesis_config(voters@, learners@),
    {
        let c = ClusterConfig { version: 0, voters, learners, tombstones: Vec::new() };
        assert(c@ =~= genesis_config(voters@, learners@));
        c
    }

    /// Whether `id` votes.
    pub fn is_voter(&self, id: NodeId) -> (r: bool)
        ensures
            r == lists(self@.voters, id),
    {
        lists_id(&self.voters, id)
    }

    /// Whether `id` is replicated to without being counted.
    pub fn is_learner(&self, id: NodeId) -> (r: bool)
        ensures
            r == lists(self@.learners, id),
    {
        lists_id(&self.learners, id)
    }
}

/// The configuration of a fresh cluster over `voters` and `learners`.
pub open spec fn genesis_config(voters: Seq<Member>, learners: Seq<Member>) -> ConfigV {
    ConfigV { version: 0, voters, learners, tombstones: Seq::<NodeId>::empty() }
}

/// Whether two configurations say the same.
pub fn same_config(a: &ClusterConfig, b: &ClusterConfig) -> (r: bool)
    ensures
        r == (a@ == b@),
{
    let r = a.version == b.version && same_members(&a.voters, &b.voters) && same_members(
        &a.learners,
        &b.learners,
    ) && same_ids(&a.tombstones, &b.tombstones);
    assert(r ==> a@ =~= b@);
    r
}

/// Two configurations minted at one version with different content: never a
/// benign re-observation.
pub fn config_content_diverges(current: &ClusterConfig, incoming: &ClusterConfig) -> (r: bool)
    ensures
        r == (incoming@.version == current@.version && incoming@ != current@),
{
    incoming.version == current.version && !same_config(current, incoming)
}

/// The stored form of a member list.
fn members_to_stored(v: &Vec<Member>) -> (r: Vec<StoredMember>)
    ensures
        r@.map_values(|m: StoredMember| stored_as_member(m)) == v@,
{
    let mut r: Vec<StoredMember> = Vec::new();
    for i in 0..v.len()
        invariant
            r@.len() == i,
            forall|j: int| 0 <= j < i ==> stored_as_member(#[trigger] r@[j]) == v@[j],
    {
        let m: Member = v[i];
        r.push(StoredMember { id: m.0, ip: (m.1).0, port: (m.1).1 });
    }
    assert(r@.map_values(|m: StoredMember| stored_as_member(m)) =~= v@);
    r
}

/// The member list of a stored form.
fn members_from_stored(v: &Vec<StoredMember>) -> (r: Vec<Member>)
    ensures
        r@ == v@.map_values(|m: StoredMember| stored_as_member(m)),
{
    let mut r: Vec<Member> = Vec::new();
    for i in 0..v.len()
        invariant
            r@.len() == i,
            forall|j: int| 0 <= j < i ==> #[trigger] r@[j] == stored_as_member(v@[j]),
    {
        r.push((v[i].id, (v[i].ip, v[i].port)));
    }
    assert(r@ =~= v@.map_values(|m: StoredMember| stored_as_member(m)));
    r
}

/// The wire form of a member list.
fn members_to_wire(v: &Vec<Member>) -> (r: Vec<WireMember>)
    ensures
        r@.map_values(|m: WireMember| wire_as_member(m)) == v@,
{
    let mut r: Vec<WireMember> = Vec::new();
    for i in 0..v.len()
        invariant
            r@.len() == i,
            forall|j: int| 0 <= j < i ==> wire_as_member(#[trigger] r@[j]) == v@[j],
    {
        let m: Member = v[i];
        r.push(WireMember { id: m.0, ip: (m.1).0, port: (m.1).1 });
    }
    assert(r@.map_values(|m: WireMember| wire_as_member(m)) =~= v@);
    r
}

/// The member list of a wire form.
fn members_from_wire(v: &Vec<WireMember>) -> (r: Vec<Member>)
    ensures
        r@ == v@.map_values(|m: WireMember| wire_as_member(m)),
{
    let mut r: Vec<Member> = Vec::new();
    for i in 0..v.len()
        invariant
            r@.len() == i,
            forall|j: int| 0 <= j < i ==> #[trigger] r@[j] == wire_as_member(v@[j]),
    {
        r.push((v[i].id, (v[i].ip, v[i].port)));
    }
    assert(r@ =~= v@.map_values(|m: WireMember| wire_as_member(m)));
    r
}

/// The stored form of a configuration.
pub fn cluster_to_stored(c: &ClusterConfig) -> (r: StoredConfig)
    ensures
        r@ == c@,
{
    let r = StoredConfig {
        version: c.version,
        voters: members_to_stored(&c.voters),
        learners: members_to_stored(&c.learners),
        tombstones: copy_ids(&c.tombstones),
    };
    assert(r@ =~= c@);
    r
}

/// The configuration a stored form holds.
pub fn stored_to_cluster(s: &StoredConfig) -> (r: ClusterConfig)
    ensures
        r@ == s@,
{
    let r = ClusterConfig {
        version: s.version,
        voters: members_from_stored(&s.voters),
        learners: members_from_stored(&s.learners),
        tombstones: copy_ids(&s.tombstones),
    };
    assert(r@ =~= s@);
    r
}

/// The payload to append for `c`, which supersedes the configuration at
/// `prev_position`.
pub fn cluster_to_wire(c: &ClusterConfig, prev_position: u64) -> (r: WireConfig)
    ensures
        r@ == c@,
        r.prev_position == prev_position,
{
    let r = WireConfig {
        version: c.version,
        prev_position,
        voters: members_to_wire(&c.voters),
        learners: members_to_wire(&c.learners),
        tombstones: copy_ids(&c.tombstones),
    };
    assert(r@ =~= c@);
    r
}

/// The configuration a decoded payload carries.
pub fn wire_to_cluster_config(w: &WireConfig) -> (r: ClusterConfig)
    ensures
        r@ == w@,
{
    let r = ClusterConfig {
        version: w.version,
        voters: members_from_wire(&w.voters),
        learners: members_from_wire(&w.learners),
        tombstones: copy_ids(&w.tombstones),
    };
    assert(r@ =~= w@);
    r
}

impl Clone for StoredConfig {
    fn clone(&self) -> (r: Self)
        ensures
            r@ == self@,
    {
        let c = stored_to_cluster(self);
        cluster_to_stored(&c)
    }
}

impl Clone for WireConfig {
    fn clone(&self) -> (r: Self)
        ensures
            r@ == self@,
            r.prev_position == self.prev_position,
    {
        let c = wire_to_cluster_config(self);
        cluster_to_wire(&c, self.prev_position)
    }
}

impl Clone for ConfigRecord {
    fn clone(&self) -> (r: Self)
        ensures
            r@ == self@,
    {
        let r = ConfigRecord {
            position: self.position,
            config: self.config.clone(),
            prev_position: self.prev_position,
            prev: self.prev.clone(),
        };
        assert(r@ =~= self@);
        r
    }
}

/// One membership change, as an operator asks for it.
#[derive(Debug, Clone, Copy, PartialEq, Eq)]
pub enum ConfigOp {
    AddLearner { id: NodeId, addr: Addr },
    PromoteLearner { id: NodeId },
    DemoteVoter { id: NodeId },
    RemoveLearner { id: NodeId },
    RemoveVoter { id: NodeId },
}

/// The change a wire op code names; codes other than 1 to 5 name none.
pub open spec fn config_op_of(op: u32, id: NodeId, ip: u32, port: u16) -> Option<ConfigOp> {
    if op == 1 {
        Some(ConfigOp::AddLearner { id, addr: (ip, port) })
    } else if op == 2 {
        Some(ConfigOp::PromoteLearner { id })
    } else if op == 3 {
        Some(ConfigOp::DemoteVoter { id })
    } else if op == 4 {
        Some(ConfigOp::RemoveLearner { id })
    } else if op == 5 {
        Some(ConfigOp::RemoveVoter { id })
    } else {
        None
    }
}

/// Decode the op fields of an admin request or of a forwarded proposal.
pub fn wire_to_config_op(op: u32, id: NodeId, ip: u32, port: u16) -> (r: Option<ConfigOp>)
    ensures
        r == config_op_of(op, id, ip, port),
{
    match op {
        1 => Some(ConfigOp::AddLearner { id, addr: (ip, port) }),
        2 => Some(ConfigOp::PromoteLearner { id }),
        3 => Some(ConfigOp::DemoteVoter { id }),
        4 => Some(ConfigOp::RemoveLearner { id }),
        5 => Some(ConfigOp::RemoveVoter { id }),
        _ => None,
    }
}

/// The voting cluster size of `id`'s own sender: `id` always occupies a
/// ranking slot, counted among the voters or beside them.
pub open spec fn sender_size(c: ConfigV, id: NodeId) -> nat {
    if lists(c.voters, id) {
        c.voters.len()
    } else {
        c.voters.len() + 1
    }
}

/// The cluster size to build `id`'s sender for.
pub fn sender_cluster_size(config: &ClusterConfig, id: NodeId) -> (n: usize)
    requires
        config.voters.len() < usize::MAX,
    ensures
        n == sender_size(config@, id),
{
    let n: usize = config.voters.len();
    if config.is_voter(id) {
        n
    } else {
        n + 1
    }
}

/// How a peer takes part.
#[derive(Debug, Clone, Copy, PartialEq, Eq, Structural)]
pub enum PeerRole {
    Voter,
    Learner,
}

/// Slots of the per-peer observability band on the shared page.
pub const CNC_MAX_PEER_SLOTS: usize = 8;

/// The members of `s` other than `id`, in order.
pub open spec fn others(s: Seq<Member>, id: NodeId) -> Seq<Member>
    decreases s.len(),
{
    if s.len() == 0 {
        Seq::empty()
    } else if s.last().0 == id {
        others(s.drop_last(), id)
    } else {
        others(s.drop_last(), id).push(s.last())
    }
}

/// The members of `v` other than `id`, in order.
pub fn other_members(v: &Vec<Member>, id: NodeId) -> (r: Vec<Member>)
    ensures
        r@ == others(v@, id),
{
    let mut r: Vec<Member> = Vec::new();
    for i in 0..v.len()
        invariant
            r@ == others(v@.take(i as int), id),
    {
        assert(v@.take(i as int + 1).drop_last() =~= v@.take(i as int));
        if v[i].0 != id {
            r.push(v[i]);
        }
    }
    assert(v@.take(v@.len() as int) =~= v@);
    r
}

/// The ids of a member list, in order.
pub fn ids_of(v: &Vec<Member>) -> (r: Vec<NodeId>)
    ensures
        r@ == member_ids(v@),
{
    let mut r: Vec<NodeId> = Vec::new();
    for i in 0..v.len()
        invariant
            r@.len() == i,
            forall|j: int| 0 <= j < i ==> #[trigger] r@[j] == v@[j].0,
    {
        r.push(v[i].0);
    }
    assert(r@ =~= member_ids(v@));
    r
}

/// The addresses of a member list, in order.
pub open spec fn member_addrs(s: Seq<Member>) -> Seq<Addr> {
    s.map_values(|m: Member| m.1)
}

/// The addresses of a member list, in order.
pub fn addrs_of(v: &Vec<Member>) -> (r: Vec<Addr>)
    ensures
        r@ == member_addrs(v@),
{
    let mut r: Vec<Addr> = Vec::new();
    for i in 0..v.len()
        invariant
            r@.len() == i,
            forall|j: int| 0 <= j < i ==> #[trigger] r@[j] == v@[j].1,
    {
        r.push(v[i].1);
    }
    assert(r@ =~= member_addrs(v@));
    r
}

/// Where a routing table places `id`: the newest entry for it, if any.
pub open spec fn route_addr(table: Seq<Member>, id: NodeId) -> Option<Addr>
    decreases table.len(),
{
    if table.len() == 0 {
        None
    } else if table.last().0 == id {
        Some(table.last().1)
    } else {
        route_addr(table.drop_last(), id)
    }
}

/// Whom a routing table places at `addr`: the newest entry for it, if any.
pub open spec fn route_id(table: Seq<Member>, addr: Addr) -> Option<NodeId>
    decreases table.len(),
{
    if table.len() == 0 {
        None
    } else if table.last().1 == addr {
        Some(table.last().0)
    } else {
        route_id(table.drop_last(), addr)
    }
}

/// Look `id`'s address up in a routing table.
pub fn addr_for(table: &Vec<Member>, id: NodeId) -> (r: Option<Addr>)
    ensures
        r == route_addr(table@, id),
{
    let mut n: usize = table.len();
    assert(table@.take(n as int) =~= table@);
    while n > 0
        invariant
            n <= table.len(),
            route_addr(table@, id) == route_addr(table@.take(n as int), id),
        decreases n,
    {
        n = n - 1;
        assert(table@.take(n as int + 1).drop_last() =~= table@.take(n as int));
        if table[n].0 == id {
            return Some(table[n].1);
        }
    }
    None
}

/// Look up who is at `addr` in a routing table.
pub fn id_for(table: &Vec<Member>, addr: Addr) -> (r: Option<NodeId>)
    ensures
        r == route_id(table@, addr),
{
    let mut n: usize = table.len();
    assert(table@.take(n as int) =~= table@);
    while n > 0
        invariant
            n <= table.len(),
            route_id(table@, addr) == route_id(table@.take(n as int), addr),
        decreases n,
    {
        n = n - 1;
        assert(table@.take(n as int + 1).drop_last() =~= table@.take(n as int));
        let a: Addr = table[n].1;
        if a.0 == addr.0 && a.1 == addr.1 {
            return Some(table[n].0);
        }
    }
    None
}

/// The observability band over voting peers and learners: voters first, then
/// learners, cut at the slot count.
pub open spec fn band_of(peers: Seq<NodeId>, learners: Seq<NodeId>) -> Seq<(NodeId, PeerRole)> {
    let all = peers.map_values(|i: NodeId| (i, PeerRole::Voter)) + learners.map_values(
        |i: NodeId| (i, PeerRole::Learner),
    );
    if all.len() <= CNC_MAX_PEER_SLOTS {
        all
    } else {
        all.take(CNC_MAX_PEER_SLOTS as int)
    }
}

/// What the agent derives from an adopted configuration in order to route.
#[verifier::ext_equal]
pub struct PeersV {
    /// Every member with its address; a later entry replaces an earlier one.
    pub table: Seq<Member>,
    /// Voting members other than this node.
    pub peers: Seq<NodeId>,
    /// Learners other than this node.
    pub learner_ids: Seq<NodeId>,
    /// The per-peer observability band, in slot order.
    pub band: Seq<(NodeId, PeerRole)>,
}

/// The routing derived from an adopted configuration.
#[derive(Debug, PartialEq, Eq)]
pub struct PeerMaps {
    pub table: Vec<Member>,
    pub peers: Vec<NodeId>,
    pub learner_ids: Vec<NodeId>,
    pub band: Vec<(NodeId, PeerRole)>,
}

impl View for PeerMaps {
    type V = PeersV;

    open spec fn view(&self) -> PeersV {
        PeersV {
            table: self.table@,
            peers: self.peers@,
            learner_ids: self.learner_ids@,
            band: self.band@,
        }
    }
}

/// The routing of `c` as node `id` sees it.
pub open spec fn peers_of(c: ConfigV, id: NodeId) -> PeersV {
    let peers = member_ids(others(c.voters, id));
    let learner_ids = member_ids(others(c.learners, id));
    PeersV {
        table: c.voters + c.learners,
        peers,
        learner_ids,
        band: band_of(peers, learner_ids),
    }
}

/// Two member lists one after the other.
pub fn join_members(a: &Vec<Member>, b: &Vec<Member>) -> (r: Vec<Member>)
    ensures
        r@ == a@ + b@,
{
    let mut r = copy_members(a);
    for i in 0..b.len()
        invariant
            r@ == a@ + b@.take(i as int),
    {
        r.push(b[i]);
        assert(r@ =~= a@ + b@.take(i as int + 1));
    }
    assert(b@.take(b@.len() as int) =~= b@);
    r
}

/// The observability band over `peers` and `learner_ids`.
fn build_band(peers: &Vec<NodeId>, learner_ids: &Vec<NodeId>) -> (band: Vec<(NodeId, PeerRole)>)
    ensures
        band@ == band_of(peers@, learner_ids@),
{
    let ghost all = peers@.map_values(|i: NodeId| (i, PeerRole::Voter)) + learner_ids@.map_values(
        |i: NodeId| (i, PeerRole::Learner),
    );
    let mut band: Vec<(NodeId, PeerRole)> = Vec::new();
    let mut i: usize = 0;
    while i < peers.len() && i < CNC_MAX_PEER_SLOTS
        invariant
            i <= peers.len(),
            i <= CNC_MAX_PEER_SLOTS,
            all == peers@.map_values(|i: NodeId| (i, PeerRole::Voter)) + learner_ids@.map_values(
                |i: NodeId| (i, PeerRole::Learner),
            ),
            band@ == all.take(i as int),
        decreases peers.len() - i,
    {
        band.push((peers[i], PeerRole::Voter));
        i = i + 1;
        assert(band@ =~= all.take(i as int));
    }
    let mut j: usize = 0;
    while j < learner_ids.len() && band.len() < CNC_MAX_PEER_SLOTS
        invariant
            j <= learner_ids.len(),
            band@.len() <= CNC_MAX_PEER_SLOTS,
            all == peers@.map_values(|i: NodeId| (i, PeerRole::Voter)) + learner_ids@.map_values(
                |i: NodeId| (i, PeerRole::Learner),
            ),
            j > 0 ==> band@.len() == peers@.len() + j,
            j == 0 ==> (band@.len() == peers@.len() || band@.len() == CNC_MAX_PEER_SLOTS),
            band@.len() <= all.len(),
            band@ == all.take(band@.len() as int),
        decreases learner_ids.len() - j,
    {
        let ghost before = band@;
        band.push((learner_ids[j], PeerRole::Learner));
        assert(before.len() == peers@.len() + j);
        j = j + 1;
        assert(band@ =~= all.take(band@.len() as int));
    }
    assert(all.take(all.len() as int) =~= all);
    band
}

/// Derive the routing of `config` for node `id`.
pub fn derive_peer_maps(config: &ClusterConfig, id: NodeId) -> (m: PeerMaps)
    ensures
        m@ == peers_of(config@, id),
{
    let voters = other_members(&config.voters, id);
    let learners = other_members(&config.learners, id);
    let peers = ids_of(&voters);
    let learner_ids = ids_of(&learners);
    let band = build_band(&peers, &learner_ids);
    let m = PeerMaps { table: join_members(&config.voters, &config.learners), peers, learner_ids, band };
    assert(m@ =~= peers_of(config@, id));
    m
}

/// Neither form of a member loses anything of it: who, at which address, at
/// which port.
pub proof fn law_member_forms_are_faithful(s: StoredMember, w: WireMember)
    ensures
        stored_as_member(s).0 == s.id,
        (stored_as_member(s).1).0 == s.ip,
        (stored_as_member(s).1).1 == s.port,
        wire_as_member(w).0 == w.id,
        (wire_as_member(w).1).0 == w.ip,
        (wire_as_member(w).1).1 == w.port,
{
}

/// The three forms of a configuration say the same where their fields agree:
/// the version, every member in its place, and every tombstone.
pub proof fn law_config_forms_are_faithful(c: ClusterConfig, s: StoredConfig, w: WireConfig, i: int)
    ensures
        c@.version == c.version,
        s@.version == s.version,
        w@.version == w.version,
        c@.tombstones == c.tombstones@,
        s@.tombstones == s.tombstones@,
        w@.tombstones == w.tombstones@,
        c@.voters == c.voters@,
        c@.learners == c.learners@,
        s@.voters.len() == s.voters@.len(),
        s@.learners.len() == s.learners@.len(),
        w@.voters.len() == w.voters@.len(),
        w@.learners.len() == w.learners@.len(),
        0 <= i < s.voters@.len() ==> s@.voters[i] == (
            s.voters@[i].id,
            (s.voters@[i].ip, s.voters@[i].port),
        ),
        0 <= i < s.learners@.len() ==> s@.learners[i] == (
            s.learners@[i].id,
            (s.learners@[i].ip, s.learners@[i].port),
        ),
        0 <= i < w.voters@.len() ==> w@.voters[i] == (
            w.voters@[i].id,
            (w.voters@[i].ip, w.voters@[i].port),
        ),
        0 <= i < w.learners@.len() ==> w@.learners[i] == (
            w.learners@[i].id,
            (w.learners@[i].ip, w.learners@[i].port),
        ),
{
}

/// A record says where its frame ends, what it adopts, and the one level of
/// history below it.
pub proof fn law_record_form_is_faithful(r: ConfigRecord)
    ensures
        r@.position == r.position,
        r@.prev_position == r.prev_position,
        r@.config == r.config@,
        r@.prev == r.prev@,
{
}

/// A fresh cluster has the members it was given, at version 0, and nobody
/// removed.
pub proof fn law_genesis_is_its_members(voters: Seq<Member>, learners: Seq<Member>, id: NodeId)
    ensures
        genesis_config(voters, learners).version == 0,
        genesis_config(voters, learners).voters == voters,
        genesis_config(voters, learners).learners == learners,
        !genesis_config(voters, learners).tombstones.contains(id),
{
}

/// Every code names a change of its own, to the member that it is sent with;
/// only adding a learner carries an address, and codes beyond the five name
/// nothing.
pub proof fn law_op_codes_are_told_apart(
    op: u32,
    other: u32,
    id: NodeId,
    ip: u32,
    port: u16,
)
    ensures
        config_op_of(op, id, ip, port) is Some <==> 1 <= op <= 5,
        op != other && config_op_of(op, id, ip, port) is Some ==> config_op_of(op, id, ip, port)
            != config_op_of(other, id, ip, port),
        op == 1 <==> config_op_of(op, id, ip, port) == Some(
            ConfigOp::AddLearner { id, addr: (ip, port) },
        ),
        op == 2 <==> config_op_of(op, id, ip, port) == Some(ConfigOp::PromoteLearner { id }),
        op == 3 <==> config_op_of(op, id, ip, port) == Some(ConfigOp::DemoteVoter { id }),
        op == 4 <==> config_op_of(op, id, ip, port) == Some(ConfigOp::RemoveLearner { id }),
        op == 5 <==> config_op_of(op, id, ip, port) == Some(ConfigOp::RemoveVoter { id }),
{
}

/// The members other than `id` are the members, in their order, without
/// `id`'s own entries.
pub proof fn law_others_are_all_but_one(s: Seq<Member>, id: NodeId, m: Member)
    ensures
        others(s, id) == s.filter(|x: Member| x.0 != id),
        others(s, id).contains(m) <==> s.contains(m) && m.0 != id,
        !lists(s, id) ==> others(s, id) == s,
    decreases s.len(),
{
    reveal(Seq::filter);
    if s.len() > 0 {
        law_others_are_all_but_one(s.drop_last(), id, m);
        let head = others(s.drop_last(), id);
        assert(s =~= s.drop_last().push(s.last()));
        if s.contains(m) && m != s.last() {
            let k = choose|k: int| 0 <= k < s.len() && s[k] == m;
            assert(s.drop_last()[k] == m);
        }
        if s.drop_last().contains(m) {
            let k = choose|k: int| 0 <= k < s.drop_last().len() && s.drop_last()[k] == m;
            assert(s[k] == m);
        }
        assert(s[s.len() - 1] == s.last());
        assert(s.contains(s.last()));
        if s.last().0 != id {
            let t = others(s, id);
            assert(t == head.push(s.last()));
            if t.contains(m) && m != s.last() {
                let k = choose|k: int| 0 <= k < t.len() && t[k] == m;
                assert(head[k] == m);
            }
            if head.contains(m) {
                let k = choose|k: int| 0 <= k < head.len() && head[k] == m;
                assert(t[k] == m);
            }
            assert(t[t.len() - 1] == s.last());
        }
        if !lists(s, id) {
            assert(s[s.len() - 1].0 != id);
            assert forall|k: int| 0 <= k < s.drop_last().len() implies (
            #[trigger] s.drop_last()[k]).0 != id by {
                assert(s[k].0 != id);
            }
            assert(!lists(s.drop_last(), id));
            assert(others(s, id) =~= s);
        }
    } else {
        assert(others(s, id) =~= s);
        assert(s.filter(|x: Member| x.0 != id) =~= s);
    }
}

/// A route is an entry of the table, and there is one for exactly those that
/// the table lists.
pub proof fn law_routes_are_entries(table: Seq<Member>, id: NodeId, addr: Addr)
    ensures
        route_addr(table, id) matches Some(a) ==> table.contains((id, a)),
        route_id(table, addr) matches Some(i) ==> table.contains((i, addr)),
        route_addr(table, id) is Some <==> lists(table, id),
        route_id(table, addr) is Some <==> exists|k: int|
            0 <= k < table.len() && (#[trigger] table[k]).1 == addr,
    decreases table.len(),
{
    if table.len() > 0 {
        let head = table.drop_last();
        law_routes_are_entries(head, id, addr);
        assert(table[table.len() - 1] == table.last());
        assert forall|k: int| 0 <= k < head.len() implies table[k] == #[trigger] head[k] by {}
        if route_addr(head, id) is Some {
            let k = choose|k: int| 0 <= k < head.len() && head[k] == (id, route_addr(head, id)->0);
            assert(table[k] == (id, route_addr(head, id)->0));
        }
        if route_id(head, addr) is Some {
            let k = choose|k: int| 0 <= k < head.len() && head[k] == (route_id(head, addr)->0, addr);
            assert(table[k] == (route_id(head, addr)->0, addr));
        }
        if lists(table, id) && table.last().0 != id {
            let k = choose|k: int| 0 <= k < table.len() && (#[trigger] table[k]).0 == id;
            assert(head[k].0 == id);
        }
        if (exists|k: int| 0 <= k < table.len() && (#[trigger] table[k]).1 == addr)
            && table.last().1 != addr {
            let k = choose|k: int| 0 <= k < table.len() && (#[trigger] table[k]).1 == addr;
            assert(head[k].1 == addr);
        }
    }
}

/// A later entry replaces an earlier one for the same member or the same
/// address, and leaves every other route alone.
pub proof fn law_newest_route_wins(table: Seq<Member>, m: Member, id: NodeId, addr: Addr)
    ensures
        route_addr(table.push(m), m.0) == Some(m.1),
        route_id(table.push(m), m.1) == Some(m.0),
        id != m.0 ==> route_addr(table.push(m), id) == route_addr(table, id),
        addr != m.1 ==> route_id(table.push(m), addr) == route_id(table, addr),
{
    assert(table.push(m).drop_last() =~= table);
}

/// Where each member is listed once, its route is its own address, and where
/// each address is, whoever sends from it is known for who it is.
pub proof fn law_members_are_reached_where_they_are(table: Seq<Member>, k: int)
    requires
        0 <= k < table.len(),
    ensures
        (forall|i: int, j: int|
            0 <= i < j < table.len() ==> (#[trigger] table[i]).0 != (#[trigger] table[j]).0)
            ==> route_addr(table, table[k].0) == Some(table[k].1),
        (forall|i: int, j: int|
            0 <= i < j < table.len() ==> (#[trigger] table[i]).1 != (#[trigger] table[j]).1)
            ==> route_id(table, table[k].1) == Some(table[k].0),
    decreases table.len(),
{
    if k < table.len() - 1 {
        let head = table.drop_last();
        law_members_are_reached_where_they_are(head, k);
        assert(forall|i: int| 0 <= i < head.len() ==> head[i] == table[i]);
        assert(table[table.len() - 1] == table.last());
    }
}

/// What a node derives from a configuration in order to route: every member
/// with its address; as peers the voters other than itself, as learners the
/// learners other than itself.
pub proof fn law_peers_are_the_other_members(c: ConfigV, id: NodeId, x: NodeId, m: Member)
    ensures
        peers_of(c, id).peers.contains(x) <==> lists(c.voters, x) && x != id,
        peers_of(c, id).learner_ids.contains(x) <==> lists(c.learners, x) && x != id,
        peers_of(c, id).table.contains(m) <==> c.voters.contains(m) || c.learners.contains(m),
        !lists(c.voters, id) ==> peers_of(c, id).peers.len() == c.voters.len(),
{
    let p = peers_of(c, id);
    lemma_ids_of_others(c.voters, id, x);
    lemma_ids_of_others(c.learners, id, x);
    law_others_are_all_but_one(c.voters, id, m);
    if c.voters.contains(m) {
        let k = choose|k: int| 0 <= k < c.voters.len() && c.voters[k] == m;
        assert(p.table[k] == m);
    }
    if c.learners.contains(m) {
        let k = choose|k: int| 0 <= k < c.learners.len() && c.learners[k] == m;
        assert(p.table[c.voters.len() + k] == m);
    }
    if p.table.contains(m) {
        let k = choose|k: int| 0 <= k < p.table.len() && p.table[k] == m;
        if k < c.voters.len() {
            assert(c.voters[k] == m);
        } else {
            assert(c.learners[k - c.voters.len()] == m);
        }
    }
}

proof fn lemma_ids_of_others(s: Seq<Member>, id: NodeId, x: NodeId)
    ensures
        member_ids(others(s, id)).contains(x) <==> lists(s, x) && x != id,
{
    let o = others(s, id);
    let ids = member_ids(o);
    if ids.contains(x) {
        let k = choose|k: int| 0 <= k < ids.len() && ids[k] == x;
        law_others_are_all_but_one(s, id, o[k]);
        assert(o.contains(o[k]));
        let j = choose|j: int| 0 <= j < s.len() && s[j] == o[k];
        assert(s[j].0 == x);
    }
    if lists(s, x) && x != id {
        let j = choose|j: int| 0 <= j < s.len() && (#[trigger] s[j]).0 == x;
        law_others_are_all_but_one(s, id, s[j]);
        assert(s.contains(s[j]));
        let k = choose|k: int| 0 <= k < o.len() && o[k] == s[j];
        assert(ids[k] == x);
    }
}

/// The ids and the addresses of a list stand in its order.
pub proof fn law_lists_keep_their_order(s: Seq<Member>, i: int)
    requires
        0 <= i < s.len(),
    ensures
        member_ids(s).len() == s.len(),
        member_addrs(s).len() == s.len(),
        member_ids(s)[i] == s[i].0,
        member_addrs(s)[i] == s[i].1,
{
}

/// The band shows every voting peer as a voter and then every learner as a
/// learner, as far as its slots reach.
pub proof fn law_band_shows_peers_then_learners(
    peers: Seq<NodeId>,
    learners: Seq<NodeId>,
    i: int,
)
    ensures
        ({
            let band = band_of(peers, learners);
            &&& band.len() == (if peers.len() + learners.len() <= 8 {
                peers.len() + learners.len()
            } else {
                8
            })
            &&& 0 <= i < band.len() && i < peers.len() ==> band[i] == (peers[i], PeerRole::Voter)
            &&& peers.len() <= i < band.len() ==> band[i] == (
                learners[i - peers.len()],
                PeerRole::Learner,
            )
        }),
{
}

/// A sender ranks itself beside its voting peers: with each voter listed
/// once, the size it is built for is theirs and one more.
pub proof fn law_sender_counts_itself_once(c: ConfigV, id: NodeId)
    requires
        forall|i: int, j: int|
            0 <= i < j < c.voters.len() ==> (#[trigger] c.voters[i]).0 != (#[trigger] c.voters[j]).0,
    ensures
        sender_size(c, id) == peers_of(c, id).peers.len() + 1,
{
    lemma_others_len(c.voters, id);
}

proof fn lemma_others_len(s: Seq<Member>, id: NodeId)
    requires
        forall|i: int, j: int|
            0 <= i < j < s.len() ==> (#[trigger] s[i]).0 != (#[trigger] s[j]).0,
    ensures
        others(s, id).len() + (if lists(s, id) {
            1int
        } else {
            0
        }) == s.len(),
    decreases s.len(),
{
    if s.len() > 0 {
        let head = s.drop_last();
        assert(forall|i: int| 0 <= i < head.len() ==> head[i] == s[i]);
        assert(s[s.len() - 1] == s.last());
        lemma_others_len(head, id);
        if lists(head, id) {
            let k = choose|k: int| 0 <= k < head.len() && (#[trigger] head[k]).0 == id;
            assert(s[k].0 == id);
        }
        if lists(s, id) && s.last().0 != id {
            let k = choose|k: int| 0 <= k < s.len() && (#[trigger] s[k]).0 == id;
            assert(head[k].0 == id);
        }
    }
}

} // verus!
