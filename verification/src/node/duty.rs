//! The consensus agent's duty cycle: which step comes next.
//!
//! The order is binding. The agent's loop carries out one step after the
//! other and reports whether the step found work.

use vstd::prelude::*;

verus! {

/// How many network events one cycle takes in.
pub const NET_DRAIN_PER_CYCLE: usize = 4096;

/// One step of a cycle.
#[derive(Debug, Clone, Copy, PartialEq, Eq, Structural)]
pub enum Step {
    /// Absorb the durable counter before anything reads the log as a
    /// credential.
    RefreshDurable,
    DrainNet,
    ObserveTerms,
    PublishValidated,
    ObserveConfigs,
    TakeTruncation,
    TakeCollapse,
    /// Absorb what became durable since the first step.
    RefreshDurableAgain,
    DrainIngress,
    DrainIngressRing,
    DrainQueries,
    AdvanceReads,
    Tick,
    PublishCanServe,
    PublishStatus,
    OutputProgress,
    SnapshotFloor,
    IncomingSnapshot,
    PublishPeerBand,
    Admin,
    ClearConfigPending,
    RouteHandshakes,
    ObserveCommittedConfig,
    CryptoMaintenance,
}

/// The steps of a full cycle, in order.
pub open spec fn order() -> Seq<Step> {
    seq![
        Step::RefreshDurable,
        Step::DrainNet,
        Step::ObserveTerms,
        Step::PublishValidated,
        Step::ObserveConfigs,
        Step::TakeTruncation,
        Step::TakeCollapse,
        Step::RefreshDurableAgain,
        Step::DrainIngress,
        Step::DrainIngressRing,
        Step::DrainQueries,
        Step::AdvanceReads,
        Step::Tick,
        Step::PublishCanServe,
        Step::PublishStatus,
        Step::OutputProgress,
        Step::SnapshotFloor,
        Step::IncomingSnapshot,
        Step::PublishPeerBand,
        Step::Admin,
        Step::ClearConfigPending,
        Step::RouteHandshakes,
        Step::ObserveCommittedConfig,
        Step::CryptoMaintenance,
    ]
}

/// The step of a full cycle at `i`.
pub fn step_at(i: usize) -> (s: Option<Step>)
    ensures
        s == (if i < order().len() {
            Some(order()[i as int])
        } else {
            None
        }),
{
    match i {
        0 => Some(Step::RefreshDurable),
        1 => Some(Step::DrainNet),
        2 => Some(Step::ObserveTerms),
        3 => Some(Step::PublishValidated),
        4 => Some(Step::ObserveConfigs),
        5 => Some(Step::TakeTruncation),
        6 => Some(Step::TakeCollapse),
        7 => Some(Step::RefreshDurableAgain),
        8 => Some(Step::DrainIngress),
        9 => Some(Step::DrainIngressRing),
        10 => Some(Step::DrainQueries),
        11 => Some(Step::AdvanceReads),
        12 => Some(Step::Tick),
        13 => Some(Step::PublishCanServe),
        14 => Some(Step::PublishStatus),
        15 => Some(Step::OutputProgress),
        16 => Some(Step::SnapshotFloor),
        17 => Some(Step::IncomingSnapshot),
        18 => Some(Step::PublishPeerBand),
        19 => Some(Step::Admin),
        20 => Some(Step::ClearConfigPending),
        21 => Some(Step::RouteHandshakes),
        22 => Some(Step::ObserveCommittedConfig),
        23 => Some(Step::CryptoMaintenance),
        _ => None,
    }
}

/// Whether a step's report counts as work. The steps that only publish, and
/// the tick, run every cycle and never count.
pub open spec fn counts(s: Step) -> bool {
    !(s is PublishValidated || s is Tick || s is PublishCanServe || s is PublishStatus
        || s is PublishPeerBand)
}

/// Whether a step runs at all. Embedded ingress is drained by a serving
/// leader only, and the key exchange steps need wire crypto.
pub open spec fn runs(s: Step, serving: bool, crypto: bool) -> bool {
    &&& s is DrainIngress ==> serving
    &&& (s is RouteHandshakes || s is ObserveCommittedConfig || s is CryptoMaintenance) ==> crypto
}

/// A cycle in progress.
#[derive(Debug, Clone, Copy)]
pub struct DutyCycle {
    /// Index of the next step.
    pub at: usize,
    /// Whether any step so far found work.
    pub did: bool,
}

impl DutyCycle {
    /// Start a cycle. A removed node's cycle has no step.
    pub fn begin(halted: bool) -> (c: DutyCycle)
        ensures
            !c.did,
            c.at == first_at(halted),
    {
        DutyCycle {
            at: if halted {
                24
            } else {
                0
            },
            did: false,
        }
    }

    /// The next step that runs, skipping those that do not; `None` at the
    /// end of the cycle. `serving` is read when embedded ingress comes up.
    pub fn next(&mut self, serving: bool, crypto: bool) -> (s: Option<Step>)
        ensures
            final(self).did == old(self).did,
            old(self).at <= final(self).at,
            match s {
                Some(s) => {
                    &&& final(self).at < order().len()
                    &&& s == order()[final(self).at as int]
                    &&& runs(s, serving, crypto)
                    &&& forall|i: int|
                        old(self).at <= i < final(self).at ==> !runs(
                            #[trigger] order()[i],
                            serving,
                            crypto,
                        )
                },
                None => {
                    &&& final(self).at >= order().len()
                    &&& forall|i: int|
                        old(self).at <= i < order().len() ==> !runs(
                            #[trigger] order()[i],
                            serving,
                            crypto,
                        )
                },
            },
    {
        loop
            invariant
                self.did == old(self).did,
                old(self).at <= self.at,
                old(self).at < order().len() ==> self.at <= order().len(),
                forall|i: int|
                    old(self).at <= i < self.at && i < order().len() ==> !runs(
                        #[trigger] order()[i],
                        serving,
                        crypto,
                    ),
            decreases order().len() - self.at,
        {
            let step = match step_at(self.at) {
                Some(s) => s,
                None => {
                    return None;
                },
            };
            let skipped = match step {
                Step::DrainIngress => !serving,
                Step::RouteHandshakes => !crypto,
                Step::ObserveCommittedConfig => !crypto,
                Step::CryptoMaintenance => !crypto,
                _ => false,
            };
            if !skipped {
                return Some(step);
            }
            self.at = self.at + 1;
        }
    }

    /// The step that [`DutyCycle::next`] gave has been carried out.
    pub fn report(&mut self, worked: bool)
        requires
            old(self).at < order().len(),
        ensures
            final(self).at == old(self).at + 1,
            final(self).did == found_work(old(self).did, worked, order()[old(self).at as int]),
    {
        let step = step_at(self.at);
        let counted = match step {
            Some(Step::PublishValidated) => false,
            Some(Step::Tick) => false,
            Some(Step::PublishCanServe) => false,
            Some(Step::PublishStatus) => false,
            Some(Step::PublishPeerBand) => false,
            _ => true,
        };
        self.did = self.did || (worked && counted);
        self.at = self.at + 1;
    }
}

/// A cycle absorbs the durable counter before it takes any network event and
/// before the tick, which may start a candidacy on it.
pub proof fn law_log_is_read_fresh(i: int, j: int)
    requires
        0 <= i < order().len(),
        0 <= j < order().len(),
        order()[i] is RefreshDurable,
        order()[j] is DrainNet || order()[j] is Tick,
    ensures
        i < j,
{
}

/// The collapse and the truncation acknowledgements are taken before the
/// durable counter is read again, and the key exchange comes last: it sees
/// what this cycle committed, and observes it before it considers rotating.
pub proof fn law_acks_precede_the_counter_and_crypto_is_last(i: int, j: int)
    requires
        0 <= i < order().len(),
        0 <= j < order().len(),
    ensures
        (order()[i] is TakeTruncation || order()[i] is TakeCollapse) && order()[j]
            is RefreshDurableAgain ==> i < j,
        order()[i] is ObserveCommittedConfig && order()[j] is CryptoMaintenance ==> i < j,
        order()[i] is ObserveCommittedConfig && (order()[j] is ObserveConfigs || order()[j]
            is RefreshDurableAgain || order()[j] is DrainNet) ==> j < i,
{
}

/// A removed node's cycle does nothing and finds no work.
pub proof fn law_removed_node_is_idle(at: int, serving: bool, crypto: bool)
    requires
        at == order().len(),
    ensures
        forall|i: int|
            at <= i < order().len() ==> !runs(#[trigger] order()[i], serving, crypto),
{
}

/// Every step has its turn in a full cycle, and only one.
pub proof fn law_every_step_has_its_turn(s: Step)
    ensures
        order().len() == 24,
        order().contains(s),
        order().no_duplicates(),
{
    let o = order();
    assert(o[0] is RefreshDurable && o[1] is DrainNet && o[2] is ObserveTerms);
    assert(o[3] is PublishValidated && o[4] is ObserveConfigs && o[5] is TakeTruncation);
    assert(o[6] is TakeCollapse && o[7] is RefreshDurableAgain && o[8] is DrainIngress);
    assert(o[9] is DrainIngressRing && o[10] is DrainQueries && o[11] is AdvanceReads);
    assert(o[12] is Tick && o[13] is PublishCanServe && o[14] is PublishStatus);
    assert(o[15] is OutputProgress && o[16] is SnapshotFloor && o[17] is IncomingSnapshot);
    assert(o[18] is PublishPeerBand && o[19] is Admin && o[20] is ClearConfigPending);
    assert(o[21] is RouteHandshakes && o[22] is ObserveCommittedConfig);
    assert(o[23] is CryptoMaintenance);
    assert(exists|i: int| 0 <= i < o.len() && o[i] == s);
}

/// What a cycle's steps rely on: the network is heard before the archive's
/// observations are, terms are known before what is validated is published
/// and before configurations are looked at, clients are served after both
/// acknowledgements and the counter, reads are looked at before the tick, the
/// flags are published after it and before the status, and requests of the
/// operator come after the markers.
pub proof fn law_steps_follow_what_they_need(i: int, j: int)
    requires
        0 <= i < order().len(),
        0 <= j < order().len(),
    ensures
        order()[i] is RefreshDurable ==> i == 0,
        order()[i] is CryptoMaintenance ==> i == order().len() - 1,
        order()[i] is DrainNet && order()[j] is ObserveTerms ==> i < j,
        order()[i] is ObserveTerms && order()[j] is PublishValidated ==> i < j,
        order()[i] is PublishValidated && order()[j] is ObserveConfigs ==> i < j,
        order()[i] is ObserveConfigs && order()[j] is TakeTruncation ==> i < j,
        order()[i] is TakeTruncation && order()[j] is TakeCollapse ==> i < j,
        order()[i] is TakeCollapse && order()[j] is RefreshDurableAgain ==> i < j,
        order()[i] is RefreshDurableAgain && order()[j] is DrainIngress ==> i < j,
        order()[i] is DrainIngress && order()[j] is DrainIngressRing ==> i < j,
        order()[i] is DrainIngressRing && order()[j] is DrainQueries ==> i < j,
        order()[i] is DrainQueries && order()[j] is AdvanceReads ==> i < j,
        order()[i] is AdvanceReads && order()[j] is Tick ==> i < j,
        order()[i] is Tick && order()[j] is PublishCanServe ==> i < j,
        order()[i] is PublishCanServe && order()[j] is PublishStatus ==> i < j,
        order()[i] is PublishStatus && order()[j] is OutputProgress ==> i < j,
        order()[i] is OutputProgress && order()[j] is SnapshotFloor ==> i < j,
        order()[i] is SnapshotFloor && order()[j] is IncomingSnapshot ==> i < j,
        order()[i] is IncomingSnapshot && order()[j] is PublishPeerBand ==> i < j,
        order()[i] is PublishPeerBand && order()[j] is Admin ==> i < j,
        order()[i] is Admin && order()[j] is ClearConfigPending ==> i < j,
        order()[i] is ClearConfigPending && order()[j] is RouteHandshakes ==> i < j,
        order()[i] is RouteHandshakes && order()[j] is ObserveCommittedConfig ==> i < j,
{
}

/// A step is left out only where it has no business: embedded ingress on a
/// node that does not serve, the key exchange without encryption. Every other
/// step runs in every cycle, and none but those that merely publish, and the
/// tick, is left out of what counts as work.
pub proof fn law_steps_run_unless_idle(s: Step, serving: bool, crypto: bool)
    ensures
        runs(s, true, true),
        !runs(s, serving, crypto) <==> (s is DrainIngress && !serving) || ((s is RouteHandshakes
            || s is ObserveCommittedConfig || s is CryptoMaintenance) && !crypto),
        !counts(s) <==> s is PublishValidated || s is Tick || s is PublishCanServe
            || s is PublishStatus || s is PublishPeerBand,
{
}

/// Where a cycle starts.
pub open spec fn first_at(halted: bool) -> nat {
    if halted {
        order().len()
    } else {
        0
    }
}

/// Whether a cycle has found work, once a step has reported.
pub open spec fn found_work(did: bool, worked: bool, s: Step) -> bool {
    did || (worked && counts(s))
}

/// A cycle starts at the first step, and that of a removed node is over
/// before it starts. Work that was found stays found, and is found by a step
/// that counts and reports it.
pub proof fn law_cycles_start_at_the_top(did: bool, worked: bool, s: Step)
    ensures
        first_at(false) == 0,
        first_at(true) == 24,
        found_work(true, worked, s),
        found_work(false, worked, s) <==> worked && counts(s),
{
}

} // verus!
