//! What the archive agent decides: how it carries out a command, where it
//! acknowledges it, and which observations it still owes.

use crate::node::effects::ArchiveCmd;
use vstd::prelude::*;

verus! {

/// A single slot for an acknowledgement. One cut of a kind is in flight at a
/// time, so that one slot cannot lose an acknowledgement. A slot is shared,
/// never copied: whoever posts and whoever takes use the same one.
#[derive(Debug, PartialEq, Eq)]
pub struct TruncationSlot {
    /// The `(epoch, to)` of the latest completed cut, until it is taken.
    pub ack: Option<(u64, u64)>,
}

impl Default for TruncationSlot {
    fn default() -> (s: TruncationSlot)
        ensures
            s.ack is None,
    {
        TruncationSlot { ack: None }
    }
}

impl TruncationSlot {
    /// An empty slot.
    pub fn new() -> (s: TruncationSlot)
        ensures
            s.ack is None,
    {
        TruncationSlot { ack: None }
    }

    /// Acknowledge a cut.
    pub fn post(&mut self, epoch: u64, to: u64)
        ensures
            final(self).ack == Some((epoch, to)),
    {
        self.ack = Some((epoch, to));
    }

    /// Take the acknowledgement, if there is one, and leave the slot empty.
    pub fn take(&mut self) -> (ack: Option<(u64, u64)>)
        ensures
            ack == old(self).ack,
            final(self).ack is None,
    {
        let ack = self.ack;
        self.ack = None;
        ack
    }
}

/// Which slot a cut is acknowledged on.
#[derive(Debug, Clone, Copy, PartialEq, Eq, Structural)]
pub enum AckSlot {
    Truncation,
    Collapse,
}

/// How a command is carried out.
#[derive(Debug, Clone, Copy, PartialEq, Eq, Structural)]
pub enum ArchiveStep {
    /// Cut the journal at `to`, prime the counters there, announce the prime,
    /// publish the first retained position, then acknowledge `(epoch, to)`.
    /// A failure stops the agent.
    Cut { to: u64, epoch: u64, slot: AckSlot },
    /// Drop blocks below; publish the first retained position. A failure is
    /// logged and dropped.
    Purge { below: u64 },
    /// Adopt the floor, prime the counters there, announce the prime, publish
    /// it as the first retained position. A failure is logged and dropped.
    AdoptFloor { pos: u64 },
}

/// How a command is carried out, with the archive's frontier at `recovered`.
pub open spec fn carried_out(cmd: ArchiveCmd, recovered: u64) -> ArchiveStep {
    match cmd {
        ArchiveCmd::Truncate { epoch, to } => ArchiveStep::Cut {
            to,
            epoch,
            slot: AckSlot::Truncation,
        },
        ArchiveCmd::Collapse { epoch, to } => ArchiveStep::Cut {
            to: if to <= recovered {
                to
            } else {
                recovered
            },
            epoch,
            slot: AckSlot::Collapse,
        },
        ArchiveCmd::Purge { below } => ArchiveStep::Purge { below },
        ArchiveCmd::AdoptFloor { pos } => ArchiveStep::AdoptFloor { pos },
    }
}

/// How a command is carried out. A collapse never cuts above what the
/// archive holds: the acknowledgement names the position really cut to.
pub fn plan_command(cmd: ArchiveCmd, recovered: u64) -> (s: ArchiveStep)
    ensures
        s == carried_out(cmd, recovered),
{
    match cmd {
        ArchiveCmd::Truncate { epoch, to } => ArchiveStep::Cut {
            to,
            epoch,
            slot: AckSlot::Truncation,
        },
        ArchiveCmd::Collapse { epoch, to } => ArchiveStep::Cut {
            to: if to <= recovered {
                to
            } else {
                recovered
            },
            epoch,
            slot: AckSlot::Collapse,
        },
        ArchiveCmd::Purge { below } => ArchiveStep::Purge { below },
        ArchiveCmd::AdoptFloor { pos } => ArchiveStep::AdoptFloor { pos },
    }
}

/// How the handover of term observations ended.
#[derive(Debug, Clone, Copy, PartialEq, Eq, Structural)]
pub enum Handover {
    /// All were accepted.
    All,
    /// The channel was full at the one with this index.
    FullAt(usize),
    /// The receiver is gone: the node is shutting down.
    Disconnected,
}

/// What is still owed after a handover, in order.
pub open spec fn still_owed(observed: Seq<(u32, u64)>, h: Handover) -> Seq<(u32, u64)> {
    match h {
        Handover::FullAt(i) => if i < observed.len() {
            observed.skip(i as int)
        } else {
            Seq::empty()
        },
        _ => Seq::empty(),
    }
}

/// What to keep for the next cycle. The observed frontier is published only
/// where nothing is owed: whoever sees it has the observations below it.
pub fn settle_observations(observed: &Vec<(u32, u64)>, h: Handover) -> (r: (
    Vec<(u32, u64)>,
    bool,
))
    ensures
        r.0@ == still_owed(observed@, h),
        r.1 == (still_owed(observed@, h).len() == 0),
{
    let mut owed: Vec<(u32, u64)> = Vec::new();
    match h {
        Handover::FullAt(at) => {
            let mut i: usize = at;
            while i < observed.len()
                invariant
                    at <= i,
                    at < observed.len() ==> i <= observed.len(),
                    at >= observed.len() ==> owed@.len() == 0,
                    at < observed.len() ==> owed@ == observed@.subrange(at as int, i as int),
                decreases observed.len() - i,
            {
                owed.push(observed[i]);
                i = i + 1;
                assert(owed@ =~= observed@.subrange(at as int, i as int));
            }
            assert(owed@ =~= still_owed(observed@, h));
        },
        _ => {
            assert(owed@ =~= still_owed(observed@, h));
        },
    }
    let none = owed.len() == 0;
    (owed, none)
}

/// While the receiver lives no term observation is lost: what was accepted
/// and what is kept are, in order, what was observed. The frontier is
/// published only once everything has been handed over.
pub proof fn law_observations_are_lossless(observed: Seq<(u32, u64)>, at: usize)
    requires
        at < observed.len(),
    ensures
        observed.take(at as int) + still_owed(observed, Handover::FullAt(at)) == observed,
        still_owed(observed, Handover::FullAt(at)).len() > 0,
        still_owed(observed, Handover::All).len() == 0,
{
    assert(observed.take(at as int) + observed.skip(at as int) =~= observed);
}

/// No cut of a leader opening its term lands above the archive's frontier,
/// and the two kinds of cut never share a slot.
pub proof fn law_cuts_are_acknowledged_apart(epoch: u64, to: u64, recovered: u64)
    ensures
        carried_out(ArchiveCmd::Collapse { epoch, to }, recovered) matches ArchiveStep::Cut {
            to: cut,
            slot,
            ..
        } && cut <= recovered && cut <= to && slot is Collapse,
        carried_out(ArchiveCmd::Truncate { epoch, to }, recovered) matches ArchiveStep::Cut {
            to: cut,
            slot,
            ..
        } && cut == to && slot is Truncation,
{
}

/// A command is carried out as it was given: a cut at its position (a
/// collapse where the archive ends, if that is lower) and acknowledged under
/// its epoch, a purge below its position, a floor at its position.
pub proof fn law_commands_are_carried_out_as_given(epoch: u64, pos: u64, recovered: u64)
    ensures
        carried_out(ArchiveCmd::Truncate { epoch, to: pos }, recovered) == (ArchiveStep::Cut {
            to: pos,
            epoch,
            slot: AckSlot::Truncation,
        }),
        pos <= recovered ==> carried_out(ArchiveCmd::Collapse { epoch, to: pos }, recovered) == (
        ArchiveStep::Cut { to: pos, epoch, slot: AckSlot::Collapse }),
        recovered < pos ==> carried_out(ArchiveCmd::Collapse { epoch, to: pos }, recovered) == (
        ArchiveStep::Cut { to: recovered, epoch, slot: AckSlot::Collapse }),
        carried_out(ArchiveCmd::Purge { below: pos }, recovered) == (ArchiveStep::Purge {
            below: pos,
        }),
        carried_out(ArchiveCmd::AdoptFloor { pos }, recovered) == (ArchiveStep::AdoptFloor { pos }),
{
}

/// Nothing is owed to a receiver that is gone, and nothing past the end.
pub proof fn law_nothing_is_owed_to_nobody(observed: Seq<(u32, u64)>, at: usize)
    ensures
        still_owed(observed, Handover::Disconnected).len() == 0,
        at >= observed.len() ==> still_owed(observed, Handover::FullAt(at)).len() == 0,
{
}

} // verus!
