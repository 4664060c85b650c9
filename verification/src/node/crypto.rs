//! The crypto plane's decisions: when the handshake and the group key are
//! looked after, what may leave this node, and what is counted when it may
//! not.

use crate::node::cluster;
use crate::node::cluster::{Addr, Member, NodeId, addr_for, id_for};
use crate::node::gate;
use crate::node::gate::bump;
use crate::node::markers;
use vstd::prelude::*;

verus! {

/// Handshake datagrams drained per duty cycle.
pub const CRYPTO_HS_DRAIN_PER_CYCLE: usize = 64;

/// Spacing between two maintenance passes.
pub const CRYPTO_MAINTENANCE_NS: u64 = 20_000_000;

/// Spacing between two deliveries of a group key that is not acknowledged.
pub const CRYPTO_HS_KEY_REDELIVER_NS: u64 = 200_000_000;

/// Spacing between two printed diagnostics. The counters are always exact.
pub const CRYPTO_LOG_INTERVAL_NS: u64 = 1_000_000_000;

/// Actions carried out per run of handshake actions.
pub const HANDSHAKE_BUDGET: usize = 4 * CRYPTO_HS_DRAIN_PER_CYCLE + 64;

/// The crypto plane as the consensus agent keeps it.
#[derive(Debug, Clone, Copy, PartialEq, Eq)]
pub struct CryptoState {
    pub enabled: bool,
    pub last_maint_ns: Option<u64>,
    pub maint_ns: u64,
    pub last_redeliver_ns: Option<u64>,
    /// The newest configuration version seen committed.
    pub committed_version: Option<u64>,
    /// The peer set changed: links have to be asked for.
    pub peers_dirty: bool,
    /// The newest group-key epoch this node minted, 0 for none.
    pub epoch: u32,
    pub hs_key_seal_failures: u64,
    /// An address and a node id that could not be matched up.
    pub unresolved_peer: u64,
    pub handshake_failures: u64,
    /// Consensus datagrams dropped because they could not be sealed.
    pub seal_failures: u64,
    pub last_log_ns: u64,
}

/// Whether `interval` has passed since `last`, or nothing happened yet.
pub open spec fn interval_passed(last: Option<u64>, now: u64, interval: u64) -> bool {
    match last {
        Some(t) => markers::less(now, t) >= interval,
        None => true,
    }
}

/// Whether `interval` has passed since `last`.
fn has_passed(last: Option<u64>, now: u64, interval: u64) -> (r: bool)
    ensures
        r == interval_passed(last, now, interval),
{
    match last {
        Some(t) => now.saturating_sub(t) >= interval,
        None => true,
    }
}

/// What a handshake asks of the node.
#[derive(Debug)]
pub enum HandshakeAction {
    Send { to: NodeId, kind: u8, body: Vec<u8> },
    Established { peer: NodeId },
    Failed { peer: NodeId },
}

/// What becomes of a handshake action.
#[derive(Debug)]
pub enum HandshakeStep {
    /// Send the body to `addr`, sealed for `to` unless the kind travels in
    /// the clear.
    Send { addr: Addr, to: NodeId, kind: u8, body: Vec<u8> },
    /// Deliver the group key to this peer again.
    Redeliver { peer: NodeId },
    /// Re-read the allowlist; a diagnostic is due iff `log`.
    Refused { peer: NodeId, log: bool },
    /// Nothing is left to do for it.
    Nothing,
}

/// What leaves the node for one consensus datagram.
#[derive(Debug, Clone, Copy, PartialEq, Eq)]
pub enum SendPlan {
    Clear,
    /// Sealed under this peer's session, or not at all.
    Sealed { peer: NodeId },
    /// Dropped: the destination is no known peer.
    Dropped,
}

/// The outcome of draining one handshake datagram.
#[derive(Debug, Clone, Copy, PartialEq, Eq)]
pub enum HandshakeRoute {
    /// An opened group-key message from this peer.
    GroupKey { peer: NodeId },
    /// A handshake message that claims to be from this peer.
    Handshake { peer: NodeId },
    /// The source is no known peer.
    Stranger,
}

impl CryptoState {
    /// The crypto plane at boot: everything is still to be done.
    pub fn boot(enabled: bool, maint_ns: u64) -> (c: CryptoState)
        ensures
            c == (CryptoState {
                enabled,
                last_maint_ns: None,
                maint_ns,
                last_redeliver_ns: None,
                committed_version: None,
                peers_dirty: true,
                epoch: 0,
                hs_key_seal_failures: 0,
                unresolved_peer: 0,
                handshake_failures: 0,
                seal_failures: 0,
                last_log_ns: 0,
            }),
    {
        CryptoState {
            enabled,
            last_maint_ns: None,
            maint_ns,
            last_redeliver_ns: None,
            committed_version: None,
            peers_dirty: true,
            epoch: 0,
            hs_key_seal_failures: 0,
            unresolved_peer: 0,
            handshake_failures: 0,
            seal_failures: 0,
            last_log_ns: 0,
        }
    }

    /// Route one handshake datagram. A source that is no known peer is
    /// counted, and never fed on under a guessed id.
    pub fn route_handshake(&mut self, table: &Vec<Member>, from: Addr, group_key: bool) -> (r:
        HandshakeRoute)
        ensures
            r == handshake_source(table@, from, group_key),
            *final(self) == (if r is Stranger {
                CryptoState {
                    unresolved_peer: gate::bumped(old(self).unresolved_peer),
                    ..*old(self)
                }
            } else {
                *old(self)
            }),
    {
        match id_for(table, from) {
            Some(peer) => {
                if group_key {
                    HandshakeRoute::GroupKey { peer }
                } else {
                    HandshakeRoute::Handshake { peer }
                }
            },
            None => {
                self.unresolved_peer = bump(self.unresolved_peer);
                HandshakeRoute::Stranger
            },
        }
    }

    /// Whether an adopted configuration is committed and was not seen
    /// committed before.
    pub open spec fn commit_is_news(self, config_pending: bool, version: u64) -> bool {
        !config_pending && self.committed_version != Some(version)
    }

    /// The plane after the adopted configuration was observed.
    pub open spec fn after_commit(self, config_pending: bool, version: u64) -> CryptoState {
        if self.commit_is_news(config_pending, version) {
            CryptoState { committed_version: Some(version), ..self }
        } else {
            self
        }
    }

    /// Observe the adopted configuration. Once per committed version, the
    /// number of removed ids to hand to the key schedule.
    pub fn observe_committed_config(
        &mut self,
        config_pending: bool,
        version: u64,
        tombstones: usize,
    ) -> (r: Option<usize>)
        ensures
            r == (if old(self).commit_is_news(config_pending, version) {
                Some(tombstones)
            } else {
                None
            }),
            *final(self) == old(self).after_commit(config_pending, version),
    {
        if config_pending {
            return None;
        }
        match self.committed_version {
            Some(v) => {
                if v == version {
                    return None;
                }
            },
            None => {},
        }
        self.committed_version = Some(version);
        Some(tombstones)
    }

    /// Whether a maintenance pass is due.
    pub open spec fn maintenance_due(self, now: u64) -> bool {
        interval_passed(self.last_maint_ns, now, self.maint_ns)
    }

    /// The plane after the chance to start a maintenance pass.
    pub open spec fn after_begin(self, now: u64) -> CryptoState {
        if self.maintenance_due(now) {
            CryptoState { last_maint_ns: Some(now), peers_dirty: false, ..self }
        } else {
            self
        }
    }

    /// Start a maintenance pass if one is due. `Some(ask)`: run it, and ask
    /// for links to every peer first iff `ask`.
    pub fn begin_maintenance(&mut self, now: u64) -> (r: Option<bool>)
        ensures
            r == (if old(self).maintenance_due(now) {
                Some(old(self).peers_dirty)
            } else {
                None
            }),
            *final(self) == old(self).after_begin(now),
    {
        if !has_passed(self.last_maint_ns, now, self.maint_ns) {
            return None;
        }
        self.last_maint_ns = Some(now);
        let ask = self.peers_dirty;
        self.peers_dirty = false;
        Some(ask)
    }

    /// Whether a group key that is not acknowledged is delivered again.
    pub open spec fn redelivery_due(self, is_leader: bool, minted: Option<u16>, now: u64) -> bool {
        is_leader && minted is None && interval_passed(
            self.last_redeliver_ns,
            now,
            CRYPTO_HS_KEY_REDELIVER_NS,
        )
    }

    /// The plane after a maintenance pass.
    pub open spec fn after_end(self, is_leader: bool, minted: Option<u16>, now: u64) -> CryptoState {
        if is_leader && minted is Some {
            CryptoState { epoch: minted->0 as u32, last_redeliver_ns: Some(now), ..self }
        } else if self.redelivery_due(is_leader, minted, now) {
            CryptoState { last_redeliver_ns: Some(now), ..self }
        } else {
            self
        }
    }

    /// End a maintenance pass, given the epoch that was minted because a
    /// rotation was due. Only a leader mints or delivers. `true`: deliver the
    /// newest group key again to every current peer that still lacks it.
    pub fn end_maintenance(&mut self, is_leader: bool, minted: Option<u16>, now: u64) -> (redeliver:
        bool)
        ensures
            redeliver == old(self).redelivery_due(is_leader, minted, now),
            *final(self) == old(self).after_end(is_leader, minted, now),
    {
        if !is_leader {
            return false;
        }
        match minted {
            Some(epoch) => {
                self.epoch = epoch as u32;
                self.last_redeliver_ns = Some(now);
                false
            },
            None => {
                if !has_passed(self.last_redeliver_ns, now, CRYPTO_HS_KEY_REDELIVER_NS) {
                    return false;
                }
                self.last_redeliver_ns = Some(now);
                true
            },
        }
    }

    /// Whether a diagnostic may be printed now.
    pub open spec fn may_log(self, now: u64) -> bool {
        now - self.last_log_ns >= CRYPTO_LOG_INTERVAL_NS || self.last_log_ns == 0
    }

    /// The plane after a diagnostic was asked for.
    pub open spec fn logged(self, now: u64) -> CryptoState {
        if self.may_log(now) {
            CryptoState { last_log_ns: now, ..self }
        } else {
            self
        }
    }

    /// Ask whether a diagnostic may be printed now, and note it if so.
    pub fn log_due(&mut self, now: u64) -> (r: bool)
        ensures
            r == old(self).may_log(now),
            *final(self) == old(self).logged(now),
    {
        if now.saturating_sub(self.last_log_ns) < CRYPTO_LOG_INTERVAL_NS && self.last_log_ns != 0 {
            return false;
        }
        self.last_log_ns = now;
        true
    }

    /// Decide on one handshake action.
    pub fn handshake_step(
        &mut self,
        act: HandshakeAction,
        is_leader: bool,
        table: &Vec<Member>,
        now: u64,
    ) -> (step: HandshakeStep)
        ensures
            step == handshake_outcome(act, is_leader, table@, old(self).may_log(now)),
            match act {
                HandshakeAction::Send { to, kind, body } => match cluster::route_addr(table@, to) {
                    Some(addr) => *final(self) == *old(self),
                    None => *final(self) == (CryptoState {
                        unresolved_peer: gate::bumped(old(self).unresolved_peer),
                        ..*old(self)
                    }),
                },
                HandshakeAction::Established { peer } => *final(self) == *old(self),
                HandshakeAction::Failed { peer } => *final(self) == (CryptoState {
                    handshake_failures: gate::bumped(old(self).handshake_failures),
                    ..*old(self)
                }).logged(now),
            },
    {
        match act {
            HandshakeAction::Send { to, kind, body } => match addr_for(table, to) {
                Some(addr) => HandshakeStep::Send { addr, to, kind, body },
                None => {
                    self.unresolved_peer = bump(self.unresolved_peer);
                    HandshakeStep::Nothing
                },
            },
            HandshakeAction::Established { peer } => {
                if is_leader {
                    HandshakeStep::Redeliver { peer }
                } else {
                    HandshakeStep::Nothing
                }
            },
            HandshakeAction::Failed { peer } => {
                self.handshake_failures = bump(self.handshake_failures);
                let log = self.log_due(now);
                HandshakeStep::Refused { peer, log }
            },
        }
    }

    /// Whether a handshake-plane datagram goes out, given whether its kind
    /// travels in the clear and whether sealing it worked. One that should be
    /// sealed and is not is dropped and counted. The second part: whether a
    /// diagnostic is due.
    pub fn handshake_datagram(&mut self, unsealed_kind: bool, sealed: bool, now: u64) -> (r: (
        bool,
        bool,
    ))
        ensures
            r.0 == goes_out(unsealed_kind, sealed),
            r.1 == (!r.0 && old(self).may_log(now)),
            *final(self) == (if r.0 {
                *old(self)
            } else {
                (CryptoState {
                    hs_key_seal_failures: gate::bumped(old(self).hs_key_seal_failures),
                    ..*old(self)
                }).logged(now)
            }),
    {
        if unsealed_kind || sealed {
            return (true, false);
        }
        self.hs_key_seal_failures = bump(self.hs_key_seal_failures);
        let log = self.log_due(now);
        (false, log)
    }

    /// What a consensus datagram to `to` needs before it may leave.
    pub fn plan_send(&mut self, table: &Vec<Member>, to: Addr) -> (p: SendPlan)
        ensures
            p == send_plan(old(self).enabled, table@, to),
            *final(self) == (if p == SendPlan::Dropped {
                CryptoState {
                    unresolved_peer: gate::bumped(old(self).unresolved_peer),
                    seal_failures: gate::bumped(old(self).seal_failures),
                    ..*old(self)
                }
            } else {
                *old(self)
            }),
            old(self).enabled ==> p != SendPlan::Clear,
    {
        if !self.enabled {
            return SendPlan::Clear;
        }
        match id_for(table, to) {
            Some(peer) => SendPlan::Sealed { peer },
            None => {
                self.unresolved_peer = bump(self.unresolved_peer);
                self.seal_failures = bump(self.seal_failures);
                SendPlan::Dropped
            },
        }
    }

    /// A consensus datagram could not be sealed: it is dropped and counted.
    /// `true`: a diagnostic is due.
    pub fn seal_failed(&mut self, now: u64) -> (log: bool)
        ensures
            log == old(self).may_log(now),
            *final(self) == (CryptoState {
                seal_failures: gate::bumped(old(self).seal_failures),
                ..*old(self)
            }).logged(now),
    {
        self.seal_failures = bump(self.seal_failures);
        self.log_due(now)
    }

    /// Where a fan-out goes: the addresses of the targets that have one, in
    /// order. Every other target is counted.
    pub fn fan_out_addrs(&mut self, table: &Vec<Member>, targets: &Vec<NodeId>) -> (addrs: Vec<
        Addr,
    >)
        ensures
            addrs@ == routed(table@, targets@),
            *final(self) == (CryptoState {
                unresolved_peer: bumped_by(
                    old(self).unresolved_peer,
                    (targets@.len() - addrs@.len()) as nat,
                ),
                ..*old(self)
            }),
    {
        let mut addrs: Vec<Addr> = Vec::new();
        for i in 0..targets.len()
            invariant
                addrs@ == routed(table@, targets@.take(i as int)),
                addrs@.len() <= i,
                *self == (CryptoState {
                    unresolved_peer: bumped_by(
                        old(self).unresolved_peer,
                        (i - addrs@.len()) as nat,
                    ),
                    ..*old(self)
                }),
        {
            assert(targets@.take(i as int + 1).drop_last() =~= targets@.take(i as int));
            match addr_for(table, targets[i]) {
                Some(a) => {
                    addrs.push(a);
                },
                None => {
                    self.unresolved_peer = bump(self.unresolved_peer);
                },
            }
        }
        assert(targets@.take(targets@.len() as int) =~= targets@);
        addrs
    }
}

/// The count after `k` more.
pub open spec fn bumped_by(n: u64, k: nat) -> u64
    decreases k,
{
    if k == 0 {
        n
    } else {
        gate::bumped(bumped_by(n, (k - 1) as nat))
    }
}

/// The addresses of the targets that have one, in order.
pub open spec fn routed(table: Seq<Member>, targets: Seq<NodeId>) -> Seq<Addr>
    decreases targets.len(),
{
    if targets.len() == 0 {
        Seq::empty()
    } else {
        let head = routed(table, targets.drop_last());
        match cluster::route_addr(table, targets.last()) {
            Some(a) => head.push(a),
            None => head,
        }
    }
}

/// The handshake actions still to be carried out in one run, oldest first,
/// and how many more this run may carry out.
#[derive(Debug)]
pub struct HandshakeQueue {
    pub queue: Vec<HandshakeAction>,
    pub budget: usize,
}

impl HandshakeQueue {
    /// A run over `actions`.
    pub fn new(actions: Vec<HandshakeAction>) -> (q: HandshakeQueue)
        ensures
            q.queue == actions,
            q.budget == HANDSHAKE_BUDGET,
    {
        HandshakeQueue { queue: actions, budget: HANDSHAKE_BUDGET }
    }

    /// The next action to carry out: the oldest one, while the budget lasts.
    /// An action that the budget no longer covers stays in the queue.
    pub fn next(&mut self) -> (act: Option<HandshakeAction>)
        ensures
            ({
                let more = old(self).budget > 0 && old(self).queue@.len() > 0;
                &&& act == (if more {
                    Some(old(self).queue@[0])
                } else {
                    None
                })
                &&& final(self).queue@ == (if more {
                    old(self).queue@.drop_first()
                } else {
                    old(self).queue@
                })
                &&& final(self).budget == old(self).budget - (if more {
                    1int
                } else {
                    0
                })
            }),
    {
        if self.budget == 0 || self.queue.len() == 0 {
            return None;
        }
        self.budget = self.budget - 1;
        let act = self.queue.remove(0);
        assert(self.queue@ =~= old(self).queue@.drop_first());
        Some(act)
    }

    /// Add what an action led to, behind what is already waiting.
    pub fn extend(&mut self, more: Vec<HandshakeAction>)
        ensures
            final(self).queue@ == old(self).queue@ + more@,
            final(self).budget == old(self).budget,
    {
        let mut tail = more;
        self.queue.append(&mut tail);
    }
}

/// The newest minted group-key epoch, if this node ever minted one.
pub fn crypto_epoch(epoch: u32) -> (r: Option<u16>)
    ensures
        r == epoch_shown(epoch),
{
    if epoch == 0 {
        None
    } else {
        Some(epoch as u16)
    }
}

/// Two maintenance passes are at least their spacing apart.
pub proof fn law_maintenance_is_spaced(c: CryptoState, first: u64, later: u64)
    requires
        c.maintenance_due(first),
        first <= later,
        c.after_begin(first).maintenance_due(later),
    ensures
        later - first >= c.maint_ns,
{
}

/// A delivery of the group key, by a mint or again, is not repeated before
/// its spacing has passed; and a node that does not lead never delivers.
pub proof fn law_redelivery_is_spaced(
    c: CryptoState,
    is_leader: bool,
    minted: Option<u16>,
    first: u64,
    later: u64,
)
    requires
        (is_leader && minted is Some) || c.redelivery_due(is_leader, minted, first),
        first <= later,
        c.after_end(is_leader, minted, first).redelivery_due(true, None, later),
    ensures
        later - first >= CRYPTO_HS_KEY_REDELIVER_NS,
        !c.redelivery_due(false, minted, first),
{
}

/// Every committed configuration is handed to the key schedule, whatever it
/// changes, and each version in a row once; one that may still be reverted
/// never is.
pub proof fn law_each_commit_is_observed_once(c: CryptoState, version: u64, other: u64)
    requires
        version != other,
    ensures
        !c.commit_is_news(true, version),
        !c.after_commit(false, version).commit_is_news(false, version),
        c.after_commit(false, version).commit_is_news(false, other),
{
}

/// Printed diagnostics are at least their spacing apart, past the first
/// instant of the clock.
pub proof fn law_diagnostics_are_spaced(c: CryptoState, first: u64, later: u64)
    requires
        0 < first <= later,
        c.may_log(first),
        c.logged(first).may_log(later),
    ensures
        later - first >= CRYPTO_LOG_INTERVAL_NS,
{
}

/// Whom a handshake datagram is from.
pub open spec fn handshake_source(table: Seq<Member>, from: Addr, group_key: bool) ->
    HandshakeRoute {
    match cluster::route_id(table, from) {
        Some(peer) => if group_key {
            HandshakeRoute::GroupKey { peer }
        } else {
            HandshakeRoute::Handshake { peer }
        },
        None => HandshakeRoute::Stranger,
    }
}

/// What a consensus datagram to `to` needs before it may leave.
pub open spec fn send_plan(enabled: bool, table: Seq<Member>, to: Addr) -> SendPlan {
    if !enabled {
        SendPlan::Clear
    } else {
        match cluster::route_id(table, to) {
            Some(peer) => SendPlan::Sealed { peer },
            None => SendPlan::Dropped,
        }
    }
}

/// What becomes of a handshake action.
pub open spec fn handshake_outcome(
    act: HandshakeAction,
    is_leader: bool,
    table: Seq<Member>,
    may_log: bool,
) -> HandshakeStep {
    match act {
        HandshakeAction::Send { to, kind, body } => match cluster::route_addr(table, to) {
            Some(addr) => HandshakeStep::Send { addr, to, kind, body },
            None => HandshakeStep::Nothing,
        },
        HandshakeAction::Established { peer } => if is_leader {
            HandshakeStep::Redeliver { peer }
        } else {
            HandshakeStep::Nothing
        },
        HandshakeAction::Failed { peer } => HandshakeStep::Refused { peer, log: may_log },
    }
}

/// Whether a handshake-plane datagram goes out.
pub open spec fn goes_out(unsealed_kind: bool, sealed: bool) -> bool {
    unsealed_kind || sealed
}

/// The newest minted epoch as it is shown.
pub open spec fn epoch_shown(epoch: u32) -> Option<u16> {
    if epoch == 0 {
        None
    } else {
        Some(epoch as u16)
    }
}

/// An interval has passed exactly where nothing happened yet or that much
/// time has gone by since.
pub proof fn law_intervals_are_measured_from_the_last(t: u64, now: u64, interval: u64)
    ensures
        interval_passed(None, now, interval),
        interval > 0 ==> (interval_passed(Some(t), now, interval) <==> now >= t + interval),
        now >= t + interval ==> interval_passed(Some(t), now, interval),
{
}

/// With encryption nothing of the consensus plane leaves in the clear: it is
/// sealed for the member at the address it goes to, and where there is none it
/// does not leave. Without encryption it leaves as it is.
pub proof fn law_encrypted_node_sends_nothing_clear(table: Seq<Member>, to: Addr)
    ensures
        send_plan(false, table, to) == SendPlan::Clear,
        send_plan(true, table, to) != SendPlan::Clear,
        send_plan(true, table, to) matches SendPlan::Sealed { peer } ==> table.contains((peer, to)),
        send_plan(true, table, to) == SendPlan::Dropped <==> forall|k: int|
            0 <= k < table.len() ==> (#[trigger] table[k]).1 != to,
{
    cluster::law_routes_are_entries(table, 0, to);
}

/// A handshake datagram is taken for that of the member at the address it came
/// from, and of nobody where no member is there; a group key stays a group
/// key.
pub proof fn law_handshakes_are_from_members(table: Seq<Member>, from: Addr)
    ensures
        handshake_source(table, from, true) matches HandshakeRoute::GroupKey { peer }
            ==> table.contains((peer, from)),
        handshake_source(table, from, false) matches HandshakeRoute::Handshake { peer }
            ==> table.contains((peer, from)),
        !(handshake_source(table, from, true) is Handshake),
        !(handshake_source(table, from, false) is GroupKey),
        handshake_source(table, from, true) is Stranger <==> forall|k: int|
            0 <= k < table.len() ==> (#[trigger] table[k]).1 != from,
        handshake_source(table, from, false) is Stranger <==> handshake_source(
            table,
            from,
            true,
        ) is Stranger,
{
    cluster::law_routes_are_entries(table, 0, from);
}

/// What a handshake asks to send goes to the peer it is for, as it is; a link
/// that is up gets the group key from a leader and from nobody else; a failed
/// one is reported for the peer it failed with.
pub proof fn law_handshake_actions_are_for_their_peer(
    to: NodeId,
    kind: u8,
    body: Vec<u8>,
    is_leader: bool,
    table: Seq<Member>,
    may_log: bool,
)
    ensures
        handshake_outcome(
            HandshakeAction::Send { to, kind, body },
            is_leader,
            table,
            may_log,
        ) == (match cluster::route_addr(table, to) {
            Some(addr) => HandshakeStep::Send { addr, to, kind, body },
            None => HandshakeStep::Nothing,
        }),
        handshake_outcome(HandshakeAction::Established { peer: to }, true, table, may_log) == (
        HandshakeStep::Redeliver { peer: to }),
        handshake_outcome(HandshakeAction::Established { peer: to }, false, table, may_log)
            == HandshakeStep::Nothing,
        handshake_outcome(HandshakeAction::Failed { peer: to }, is_leader, table, may_log) == (
        HandshakeStep::Refused { peer: to, log: may_log }),
{
}

/// What has to be sealed goes out sealed or not at all.
pub proof fn law_unsealed_datagrams_stay_in(unsealed_kind: bool, sealed: bool)
    ensures
        goes_out(unsealed_kind, sealed) <==> sealed || unsealed_kind,
        !goes_out(false, false),
{
}

/// Epoch 0 says that none was minted; any other is shown as it is.
pub proof fn law_minted_epoch_is_shown(epoch: u16)
    ensures
        epoch_shown(0) is None,
        epoch > 0 ==> epoch_shown(epoch as u32) == Some(epoch),
{
}

/// A committed configuration is news exactly where it is committed and is not
/// the one last seen; it then is the one last seen, and nothing else changes.
pub proof fn law_committed_version_is_remembered(c: CryptoState, pending: bool, version: u64)
    ensures
        c.commit_is_news(pending, version) <==> !pending && c.committed_version != Some(version),
        ({
            let a = c.after_commit(pending, version);
            &&& !pending ==> a.committed_version == Some(version)
            &&& pending ==> a == c
            &&& a == (CryptoState { committed_version: a.committed_version, ..c })
        }),
{
}

/// A maintenance pass starts exactly where its spacing has passed; links that
/// have to be asked for are then asked for once.
pub proof fn law_maintenance_starts_when_due(c: CryptoState, now: u64)
    ensures
        c.last_maint_ns is None ==> c.maintenance_due(now),
        c.last_maint_ns matches Some(t) ==> now >= t + c.maint_ns ==> c.maintenance_due(now),
        c.maintenance_due(now) ==> c.after_begin(now) == (CryptoState {
            last_maint_ns: Some(now),
            peers_dirty: false,
            ..c
        }),
        !c.maintenance_due(now) ==> c.after_begin(now) == c,
{
}

/// Only a leader mints or delivers: a minted epoch is the one it then goes by,
/// and one not acknowledged is delivered again a fifth of a second after the
/// last delivery.
pub proof fn law_only_a_leader_delivers_keys(
    c: CryptoState,
    minted: Option<u16>,
    epoch: u16,
    now: u64,
)
    ensures
        c.after_end(false, minted, now) == c,
        !c.redelivery_due(false, minted, now),
        c.after_end(true, Some(epoch), now) == (CryptoState {
            epoch: epoch as u32,
            last_redeliver_ns: Some(now),
            ..c
        }),
        !c.redelivery_due(true, Some(epoch), now),
        c.redelivery_due(true, None, now) <==> c.last_redeliver_ns is None || now
            >= c.last_redeliver_ns->0 + 200_000_000,
        c.redelivery_due(true, None, now) ==> c.after_end(true, None, now) == (CryptoState {
            last_redeliver_ns: Some(now),
            ..c
        }),
        !c.redelivery_due(true, None, now) ==> c.after_end(true, None, now) == c,
{
}

/// A diagnostic is printed at first and then a second after the last one.
pub proof fn law_diagnostics_are_due_after_a_second(c: CryptoState, now: u64)
    ensures
        c.may_log(now) <==> c.last_log_ns == 0 || now >= c.last_log_ns + 1_000_000_000,
        c.may_log(now) ==> c.logged(now) == (CryptoState { last_log_ns: now, ..c }),
        !c.may_log(now) ==> c.logged(now) == c,
{
}

/// A fan-out goes to every target that has an address, in order, and to no
/// other; where all have one, none is left out.
pub proof fn law_fan_out_reaches_every_routed_target(
    table: Seq<Member>,
    targets: Seq<NodeId>,
    x: NodeId,
)
    ensures
        routed(table, Seq::empty()).len() == 0,
        routed(table, targets.push(x)) == (match cluster::route_addr(table, x) {
            Some(a) => routed(table, targets).push(a),
            None => routed(table, targets),
        }),
        routed(table, targets).len() <= targets.len(),
        (forall|i: int|
            0 <= i < targets.len() ==> cluster::route_addr(table, #[trigger] targets[i]) is Some)
            ==> routed(table, targets).len() == targets.len(),
    decreases targets.len(),
{
    assert(targets.push(x).drop_last() =~= targets);
    if targets.len() > 0 {
        let head = targets.drop_last();
        law_fan_out_reaches_every_routed_target(table, head, x);
        if forall|i: int|
            0 <= i < targets.len() ==> cluster::route_addr(table, #[trigger] targets[i]) is Some {
            assert forall|i: int| 0 <= i < head.len() implies cluster::route_addr(
                table,
                #[trigger] head[i],
            ) is Some by {
                assert(head[i] == targets[i]);
            }
            assert(cluster::route_addr(table, targets[targets.len() - 1]) is Some);
        }
    }
}

/// A counter that is moved several times moves by as many.
pub proof fn law_repeated_counts_add_up(n: u64, k: nat)
    requires
        n + k <= u64::MAX,
    ensures
        bumped_by(n, k) == n + k,
    decreases k,
{
    if k > 0 {
        law_repeated_counts_add_up(n, (k - 1) as nat);
    }
}

} // verus!
