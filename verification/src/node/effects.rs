//! What the consensus agent's decisions ask for, in the order they must be
//! carried out.

use crate::audit::AuditOrigin;
use crate::node::cluster::{
    Addr, ConfigRecord, ConfigV, Member, NodeId, PeerRole, RecordV, WireConfig,
};
use crate::node::recover::TermMap;
use vstd::prelude::*;

verus! {

/// A command to the archive agent.
#[derive(Debug, Clone, Copy, PartialEq, Eq)]
pub enum ArchiveCmd {
    /// Drop the divergent tail at and above `to`; acknowledge `(epoch, to)`.
    Truncate { epoch: u64, to: u64 },
    /// Drop the unreplicated tail at and above `to` before a leader opens its
    /// term; acknowledged on a slot of its own.
    Collapse { epoch: u64, to: u64 },
    /// Drop whole journal blocks below the block that covers `below`. Best
    /// effort, not acknowledged.
    Purge { below: u64 },
    /// Advance the archive's frontier to `pos` without bytes: the state below
    /// came from an installed snapshot.
    AdoptFloor { pos: u64 },
}

/// The body of a consensus datagram.
#[derive(Debug, Clone, Copy, PartialEq, Eq)]
pub enum Body {
    Vote { term: u32, granted: bool },
    RequestVote { new_term: u32, last_term: u32, last_durable: u64 },
    ReadProbeAck { nonce: u64, from: NodeId },
    ConfigProposal { nonce: u64, op: u32, id: NodeId, ip: u32, port: u16 },
    ConfigReply { nonce: u64, status: u32, reason: u32, version: u64 },
}

/// A datagram that goes out to many, sealed once.
#[derive(Debug, Clone, Copy, PartialEq, Eq)]
pub enum FanOutBody {
    CommitPosition { commit: u64 },
    ReadProbe { nonce: u64, from: NodeId },
}

/// A transition worth a log record.
#[derive(Debug, Clone, Copy, PartialEq, Eq)]
pub enum NodeEvent {
    BecameLeader { term: u32, base: u64 },
    BecameFollower { term: u32, leader: Option<NodeId> },
    LogTruncated { epoch: u64, to: u64 },
    LogWiped,
    /// A leader adopted its own demotion from the log; it will step down once
    /// that commits.
    SelfDemoted,
    ConfigAdopted { position: u64, version: u64, prev_position: u64 },
    HaltRemoved { term: u32 },
    StepdownRemoved { term: u32 },
    SnapshotInstalled { pos: u64 },
    ServingChanged { term: u32, can_serve: bool },
    ConfigProposalNonMember { from: Addr },
    /// A newer admin request took the place of one still being forwarded.
    ForwardSuperseded,
    /// A configuration frame above the durable frontier: a recorder fault,
    /// not adopted.
    ImplausibleConfig { position: u64, durable: u64 },
    /// Two configurations of one version with different content.
    DivergentConfig { position: u64, version: u64 },
}

/// An effect made of numbers alone.
#[derive(Debug, Clone, Copy, PartialEq, Eq)]
pub enum Plain {
    /// Store the vote durably before anything after this.
    StoreVote { term: u32, voted_for: NodeId },
    StoreOutputProgress(u64),
    StoreSnapshotFloor(u64),
    /// The term that the data plane filters by.
    TermHandle(u32),
    LeaderFlag(bool),
    CanServeFlag(bool),
    /// Open or close the intake of replicated data.
    Gate(bool),
    /// The last known leader, `u64::MAX` for unknown.
    LeaderHint(u64),
    Commit(u64),
    ConfigVersion(u64),
    ConfigPending(bool),
    OutputProgress(u64),
    SnapshotFloor(u64),
    IncomingSnapshot(u64),
    PeerCell { slot: usize, occupant: Option<(NodeId, PeerRole)> },
    PeerDurable { slot: usize, durable: u64 },
    /// Mirror the archive's first retained position.
    ArchiveFirstBase,
    Status { term: u32, leader: bool, can_serve: bool },
    ReportsUnattested(u64),
    /// The term that covers the byte below the validated frontier.
    ValidatedTerm(u32),
    /// How far this node's own reports may attest.
    ValidatedFrontier(u64),
    Archive(ArchiveCmd),
    DropAppender,
    /// Answer a read with a retry.
    Retry { client_id: u32, local_seq: u32 },
    /// Let the key schedule know that this node leads.
    CryptoBecameLeader,
    Send { to: Addr, term: u32, body: Body },
    Log(NodeEvent),
}

/// The request that an admin answer is about.
#[derive(Debug, Clone, Copy, PartialEq, Eq)]
pub struct AuditedReq {
    pub op: u32,
    pub id: NodeId,
    pub ip: u32,
    pub port: u16,
    pub seq: u64,
    pub nonce: u64,
}

/// Where an admin answer goes once it is on record.
#[derive(Debug, Clone, Copy, PartialEq, Eq)]
pub enum AnswerTo {
    /// This node's own response line, for request `seq`.
    ResponseLine { seq: u64 },
    /// The peer that forwarded the request, sent under `term`.
    Peer { addr: Addr, term: u32 },
}

/// What an admin answer says.
#[verifier::ext_equal]
pub struct AnswerV {
    pub actor: Option<Seq<char>>,
    pub origin: AuditOrigin,
    pub req: AuditedReq,
    pub to: AnswerTo,
    pub status: u32,
    pub reason: u32,
    pub version: u64,
}

/// An answer to an admin request: recorded first, then published.
#[derive(Debug)]
pub struct AdminAnswer {
    /// The verified key name, or `None` where nothing was authenticated.
    pub actor: Option<String>,
    pub origin: AuditOrigin,
    pub req: AuditedReq,
    pub to: AnswerTo,
    pub status: u32,
    pub reason: u32,
    pub version: u64,
}

/// What an optional string says.
pub open spec fn text_view(s: Option<String>) -> Option<Seq<char>> {
    match s {
        Some(s) => Some(s@),
        None => None,
    }
}

impl View for AdminAnswer {
    type V = AnswerV;

    open spec fn view(&self) -> AnswerV {
        AnswerV {
            actor: text_view(self.actor),
            origin: self.origin,
            req: self.req,
            to: self.to,
            status: self.status,
            reason: self.reason,
            version: self.version,
        }
    }
}

/// What an effect says.
#[verifier::ext_equal]
pub enum EffectV {
    Plain(Plain),
    StoreTermMap(Seq<(u32, u64)>),
    StoreRecord(RecordV),
    SetPeers { followers: Seq<Addr>, learners: Seq<Addr>, cluster_size: nat },
    ConfigBytes { config: ConfigV, prev_position: u64 },
    PeerIds(Seq<Member>),
    TermMapTo { to: Addr, term: u32, entries: Seq<(u32, u64)> },
    FanOut { targets: Seq<NodeId>, term: u32, body: FanOutBody },
    Answer(AnswerV),
    FailStop(Seq<char>),
}

/// One thing to carry out.
#[derive(Debug)]
pub enum Effect {
    Plain(Plain),
    /// Store the term map durably before anything after this.
    StoreTermMap(TermMap),
    /// Store the configuration record durably before anything after this.
    StoreRecord(ConfigRecord),
    /// Rebuild the sender's peers.
    SetPeers { followers: Vec<Addr>, learners: Vec<Addr>, cluster_size: usize },
    /// The configuration that a snapshot session ships from here on.
    ConfigBytes(WireConfig),
    /// Republish who is at which address to the receive path.
    PeerIds(Vec<Member>),
    TermMapTo { to: Addr, term: u32, entries: TermMap },
    FanOut { targets: Vec<NodeId>, term: u32, body: FanOutBody },
    Answer(AdminAnswer),
    /// Stop the agent with this reason.
    FailStop(String),
}

impl View for Effect {
    type V = EffectV;

    open spec fn view(&self) -> EffectV {
        match self {
            Effect::Plain(p) => EffectV::Plain(*p),
            Effect::StoreTermMap(m) => EffectV::StoreTermMap(m@),
            Effect::StoreRecord(r) => EffectV::StoreRecord(r@),
            Effect::SetPeers { followers, learners, cluster_size } => EffectV::SetPeers {
                followers: followers@,
                learners: learners@,
                cluster_size: *cluster_size as nat,
            },
            Effect::ConfigBytes(w) => EffectV::ConfigBytes {
                config: w@,
                prev_position: w.prev_position,
            },
            Effect::PeerIds(t) => EffectV::PeerIds(t@),
            Effect::TermMapTo { to, term, entries } => EffectV::TermMapTo {
                to: *to,
                term: *term,
                entries: entries@,
            },
            Effect::FanOut { targets, term, body } => EffectV::FanOut {
                targets: targets@,
                term: *term,
                body: *body,
            },
            Effect::Answer(a) => EffectV::Answer(a@),
            Effect::FailStop(s) => EffectV::FailStop(s@),
        }
    }
}

/// The effects of one decision, in order.
#[derive(Debug)]
pub struct Effects {
    pub list: Vec<Effect>,
}

impl View for Effects {
    type V = Seq<EffectV>;

    open spec fn view(&self) -> Seq<EffectV> {
        self.list@.map_values(|e: Effect| e@)
    }
}

impl Effects {
    /// No effect.
    pub fn new() -> (e: Effects)
        ensures
            e@ == Seq::<EffectV>::empty(),
    {
        let e = Effects { list: Vec::new() };
        assert(e@ =~= Seq::<EffectV>::empty());
        e
    }

    /// Add one effect at the end.
    pub fn put(&mut self, e: Effect)
        ensures
            final(self)@ == old(self)@.push(e@),
    {
        let ghost before = self@;
        self.list.push(e);
        assert(self@ =~= before.push(e@));
    }

    /// Add one plain effect at the end.
    pub fn plain(&mut self, p: Plain)
        ensures
            final(self)@ == old(self)@.push(EffectV::Plain(p)),
    {
        self.put(Effect::Plain(p));
    }
}

/// An effect says all of what it holds.
pub proof fn law_effects_say_what_they_hold(
    p: Plain,
    map: TermMap,
    rec: ConfigRecord,
    followers: Vec<Addr>,
    learners: Vec<Addr>,
    size: usize,
    wire: WireConfig,
    table: Vec<Member>,
    to: Addr,
    term: u32,
    targets: Vec<NodeId>,
    body: FanOutBody,
    answer: AdminAnswer,
    reason: String,
)
    ensures
        Effect::Plain(p)@ == EffectV::Plain(p),
        Effect::StoreTermMap(map)@ == EffectV::StoreTermMap(map@),
        Effect::StoreRecord(rec)@ == EffectV::StoreRecord(rec@),
        (Effect::SetPeers { followers, learners, cluster_size: size })@ == (EffectV::SetPeers {
            followers: followers@,
            learners: learners@,
            cluster_size: size as nat,
        }),
        Effect::ConfigBytes(wire)@ == (EffectV::ConfigBytes {
            config: wire@,
            prev_position: wire.prev_position,
        }),
        Effect::PeerIds(table)@ == EffectV::PeerIds(table@),
        (Effect::TermMapTo { to, term, entries: map })@ == (EffectV::TermMapTo {
            to,
            term,
            entries: map@,
        }),
        (Effect::FanOut { targets, term, body })@ == (EffectV::FanOut {
            targets: targets@,
            term,
            body,
        }),
        Effect::Answer(answer)@ == EffectV::Answer(answer@),
        Effect::FailStop(reason)@ == EffectV::FailStop(reason@),
{
}

/// An answer says who asked, what was asked, where it goes and what it is.
pub proof fn law_answers_say_what_they_hold(a: AdminAnswer, name: String)
    ensures
        a@.origin == a.origin && a@.req == a.req && a@.to == a.to,
        a@.status == a.status && a@.reason == a.reason && a@.version == a.version,
        a.actor is None <==> a@.actor is None,
        a.actor == Some(name) ==> a@.actor == Some(name@),
        text_view(Some(name)) == Some(name@),
        text_view(None) is None,
{
}

/// A run of effects says each of them, in order.
pub proof fn law_effects_stand_in_order(e: Effects, i: int)
    requires
        0 <= i < e.list@.len(),
    ensures
        e@.len() == e.list@.len(),
        e@[i] == e.list@[i]@,
{
}

} // verus!
