//! The intake gate and the life of a leadership: when replicated data is
//! taken in, and the two brackets (a reconcile truncation, a leader open)
//! during which it is not.

use crate::node::cluster::NodeId;
use vstd::prelude::*;

verus! {

/// A leader open that waits for the archive to collapse its tail to `base`.
#[derive(Debug, Clone, Copy, PartialEq, Eq)]
pub struct PendingLeaderOpen {
    pub epoch: u64,
    pub term: u32,
    pub base: u64,
}

/// Nobody is known to lead.
pub const LEADER_UNKNOWN: u64 = 0xFFFF_FFFF_FFFF_FFFF;

/// The count after one more, wrapping as a shared counter does.
pub open spec fn bumped(n: u64) -> u64 {
    if n == u64::MAX {
        0
    } else {
        (n + 1) as u64
    }
}

/// The count after one more.
pub fn bump(n: u64) -> (r: u64)
    ensures
        r == bumped(n),
{
    if n == u64::MAX {
        0
    } else {
        n + 1
    }
}

/// The agent's own view of its role, its intake and what is in flight.
#[derive(Debug, Clone, Copy, PartialEq, Eq)]
pub struct TermGate {
    /// Replicated data is taken in.
    pub gate_open: bool,
    /// The term that the data plane runs under.
    pub adopted_term: u32,
    /// The adopted term has not been reconciled yet.
    pub awaiting_reconcile: bool,
    /// The epoch of the truncation in flight, from its command to its
    /// acknowledgement.
    pub pending_truncation: Option<u64>,
    /// The leader open in flight, from its collapse to its acknowledgement.
    pub pending_leader_open: Option<PendingLeaderOpen>,
    pub next_collapse_epoch: u64,
    pub leader_flag: bool,
    pub can_serve_flag: bool,
    /// An appender is installed.
    pub appender: bool,
    /// The durable position last handed to the election state machine.
    pub durable_seen: u64,
    pub truncations: u64,
    pub wipes: u64,
    /// This node was removed; it never works again.
    pub halt_removed: bool,
    pub leader_hint: u64,
}

impl TermGate {
    /// Intake is open only where nothing is in flight and the adopted term is
    /// reconciled; a term that waits for its reconcile is nobody's open.
    pub open spec fn wf(self) -> bool {
        &&& self.gate_open ==> !self.awaiting_reconcile && self.pending_truncation is None
            && self.pending_leader_open is None
        &&& self.awaiting_reconcile ==> self.pending_leader_open is None
    }

    /// Elected in `term`: intake closes until the archive has collapsed the
    /// tail to `base`.
    pub open spec fn leader_opening(self, term: u32, base: u64) -> TermGate {
        TermGate {
            gate_open: false,
            pending_leader_open: Some(
                PendingLeaderOpen { epoch: self.next_collapse_epoch, term, base },
            ),
            next_collapse_epoch: (self.next_collapse_epoch + 1) as u64,
            adopted_term: term,
            awaiting_reconcile: false,
            ..self
        }
    }

    /// A follower of `term`: no appender, no open in flight, and intake closed
    /// on a strictly new term until that is reconciled.
    pub open spec fn following(self, term: u32) -> TermGate {
        let base = TermGate {
            leader_flag: false,
            appender: false,
            pending_leader_open: None,
            adopted_term: term,
            ..self
        };
        if term > self.adopted_term {
            TermGate {
                gate_open: false,
                awaiting_reconcile: true,
                leader_hint: LEADER_UNKNOWN,
                ..base
            }
        } else {
            base
        }
    }

    /// A truncation of `epoch` is commanded.
    pub open spec fn truncating(self, epoch: u64) -> TermGate {
        TermGate {
            gate_open: false,
            pending_truncation: Some(epoch),
            awaiting_reconcile: false,
            ..self
        }
    }

    /// Whether a processed term map of `map_term` completes the reconcile of
    /// the adopted term: it was not stale, asked for no truncation, none is in
    /// flight, and the state machine's term is the one the data plane runs
    /// under.
    pub open spec fn reconciles(
        self,
        map_term: Option<u32>,
        term_before: u32,
        term_after: u32,
        truncates: bool,
    ) -> bool {
        &&& map_term is Some
        &&& self.awaiting_reconcile
        &&& !truncates
        &&& self.pending_truncation is None
        &&& map_term->0 >= term_before
        &&& term_after == self.adopted_term
    }

    /// Reconciled: intake opens.
    pub open spec fn reconciled(self) -> TermGate {
        TermGate { awaiting_reconcile: false, gate_open: true, ..self }
    }

    /// The archive acknowledged collapse `epoch` at `to`. A mismatch leaves
    /// everything but the durable mark alone.
    pub open spec fn collapsed(self, epoch: u64, to: u64) -> TermGate {
        match self.pending_leader_open {
            Some(open) => if open.epoch == epoch {
                TermGate { durable_seen: to, pending_leader_open: None, appender: true, ..self }
            } else {
                TermGate { durable_seen: to, ..self }
            },
            None => TermGate { durable_seen: to, ..self },
        }
    }

    /// The leader open is complete: intake opens and this node says it leads.
    pub open spec fn leader_opened(self, id: NodeId) -> TermGate {
        TermGate { gate_open: true, leader_flag: true, leader_hint: id as u64, ..self }
    }

    /// The archive acknowledged truncation `epoch` and its consequences were
    /// fed; `term` is the state machine's term now.
    pub open spec fn truncated(self, term: u32) -> TermGate {
        let base = TermGate {
            pending_truncation: None,
            truncations: bumped(self.truncations),
            ..self
        };
        if !self.awaiting_reconcile && term == self.adopted_term && self.pending_leader_open is None {
            TermGate { gate_open: true, ..base }
        } else {
            base
        }
    }

    /// Removed: never leader, never serving again.
    pub open spec fn halted(self) -> TermGate {
        TermGate { halt_removed: true, leader_flag: false, can_serve_flag: false, ..self }
    }

    /// The durable position to hand to the election state machine: the
    /// archive's, clamped to what its term observations describe, where that
    /// is news and no leader open is in flight.
    pub open spec fn durable_news(self, raw: u64, observed: u64) -> Option<u64> {
        let d = if raw < observed {
            raw
        } else {
            observed
        };
        if self.pending_leader_open is None && d > self.durable_seen {
            Some(d)
        } else {
            None
        }
    }

    /// What a node that has just recovered starts with.
    pub fn boot(term: u32, durable: u64, awaiting_reconcile: bool) -> (g: TermGate)
        ensures
            g == (TermGate {
                gate_open: !awaiting_reconcile,
                adopted_term: term,
                awaiting_reconcile,
                pending_truncation: None,
                pending_leader_open: None,
                next_collapse_epoch: 0,
                leader_flag: false,
                can_serve_flag: false,
                appender: false,
                durable_seen: durable,
                truncations: 0,
                wipes: 0,
                halt_removed: false,
                leader_hint: LEADER_UNKNOWN,
            }),
            g.wf(),
    {
        TermGate {
            gate_open: !awaiting_reconcile,
            adopted_term: term,
            awaiting_reconcile,
            pending_truncation: None,
            pending_leader_open: None,
            next_collapse_epoch: 0,
            leader_flag: false,
            can_serve_flag: false,
            appender: false,
            durable_seen: durable,
            truncations: 0,
            wipes: 0,
            halt_removed: false,
            leader_hint: LEADER_UNKNOWN,
        }
    }

    /// Start a leader open; the epoch of its collapse.
    pub fn open_leader(&mut self, term: u32, base: u64) -> (epoch: u64)
        requires
            old(self).next_collapse_epoch < u64::MAX,
        ensures
            *final(self) == old(self).leader_opening(term, base),
            epoch == old(self).next_collapse_epoch,
    {
        self.gate_open = false;
        let epoch: u64 = self.next_collapse_epoch;
        self.next_collapse_epoch = epoch + 1;
        self.pending_leader_open = Some(PendingLeaderOpen { epoch, term, base });
        self.adopted_term = term;
        self.awaiting_reconcile = false;
        epoch
    }

    /// Step down, or adopt `term` as a follower. `true` iff the term is new.
    pub fn follow(&mut self, term: u32) -> (new_term: bool)
        ensures
            *final(self) == old(self).following(term),
            new_term == (term > old(self).adopted_term),
    {
        self.leader_flag = false;
        self.appender = false;
        self.pending_leader_open = None;
        let new_term = term > self.adopted_term;
        if new_term {
            self.gate_open = false;
            self.awaiting_reconcile = true;
            self.leader_hint = LEADER_UNKNOWN;
        }
        self.adopted_term = term;
        new_term
    }

    /// Command a truncation.
    pub fn truncate(&mut self, epoch: u64)
        ensures
            *final(self) == old(self).truncating(epoch),
    {
        self.gate_open = false;
        self.pending_truncation = Some(epoch);
        self.awaiting_reconcile = false;
    }

    /// After an event was fed: reopen intake if it completed the reconcile of
    /// the adopted term. `true` iff intake was opened.
    pub fn reopen_if_reconciled(
        &mut self,
        map_term: Option<u32>,
        term_before: u32,
        term_after: u32,
        truncates: bool,
    ) -> (opened: bool)
        ensures
            opened == old(self).reconciles(map_term, term_before, term_after, truncates),
            *final(self) == (if opened {
                old(self).reconciled()
            } else {
                *old(self)
            }),
    {
        let current = match map_term {
            Some(t) => t >= term_before,
            None => false,
        };
        if current && self.awaiting_reconcile && !truncates && self.pending_truncation.is_none()
            && term_after == self.adopted_term {
            self.awaiting_reconcile = false;
            self.gate_open = true;
            true
        } else {
            false
        }
    }

    /// A collapse was acknowledged. The term to open, if this is the open in
    /// flight.
    pub fn on_collapsed(&mut self, epoch: u64, to: u64) -> (term: Option<u32>)
        ensures
            *final(self) == old(self).collapsed(epoch, to),
            term == old(self).opens(epoch),
    {
        self.durable_seen = to;
        match self.pending_leader_open {
            Some(open) => {
                if open.epoch == epoch {
                    self.pending_leader_open = None;
                    self.appender = true;
                    Some(open.term)
                } else {
                    None
                }
            },
            None => None,
        }
    }

    /// The opened term's first frame is appended and fed: complete the open.
    pub fn finish_leader_open(&mut self, id: NodeId)
        ensures
            *final(self) == old(self).leader_opened(id),
    {
        self.gate_open = true;
        self.leader_flag = true;
        self.leader_hint = id as u64;
    }

    /// A truncation was acknowledged. `true` iff it is the one in flight.
    pub fn on_truncated(&mut self, epoch: u64, to: u64) -> (matching: bool)
        ensures
            *final(self) == old(self).cut_at(to),
            matching == old(self).awaits_cut(epoch),
    {
        self.durable_seen = to;
        match self.pending_truncation {
            Some(e) => e == epoch,
            None => false,
        }
    }

    /// The acknowledged truncation's consequences were fed: close its bracket.
    /// `true` iff intake was opened.
    pub fn finish_truncation(&mut self, term: u32) -> (opened: bool)
        ensures
            *final(self) == old(self).truncated(term),
            opened == (!old(self).awaiting_reconcile && term == old(self).adopted_term && old(
                self,
            ).pending_leader_open is None),
    {
        self.pending_truncation = None;
        self.truncations = bump(self.truncations);
        if !self.awaiting_reconcile && term == self.adopted_term
            && self.pending_leader_open.is_none() {
            self.gate_open = true;
            true
        } else {
            false
        }
    }

    /// Poll the archive's durable counter. The position to feed, if any.
    pub fn refresh_durable(&mut self, raw: u64, observed: u64) -> (d: Option<u64>)
        ensures
            d == old(self).durable_news(raw, observed),
            *final(self) == old(self).told(d),
    {
        if self.pending_leader_open.is_some() {
            return None;
        }
        let d: u64 = if raw < observed {
            raw
        } else {
            observed
        };
        if d <= self.durable_seen {
            return None;
        }
        self.durable_seen = d;
        Some(d)
    }

    /// Halt: this node was removed.
    pub fn halt(&mut self)
        ensures
            *final(self) == old(self).halted(),
    {
        self.halt_removed = true;
        self.leader_flag = false;
        self.can_serve_flag = false;
    }
}

/// Every transition keeps this state well formed. Completing a leader open does
/// so where no truncation is in flight.
pub proof fn law_gate_stays_well_formed(
    g: TermGate,
    term: u32,
    base: u64,
    epoch: u64,
    to: u64,
    id: NodeId,
    map_term: Option<u32>,
    term_before: u32,
)
    requires
        g.wf(),
    ensures
        g.leader_opening(term, base).wf(),
        g.following(term).wf(),
        g.truncating(epoch).wf(),
        g.reconciles(map_term, term_before, term, false) ==> g.reconciled().wf(),
        g.collapsed(epoch, to).wf(),
        (g.pending_leader_open is Some && g.pending_leader_open->0.epoch == epoch
            && g.pending_truncation is None) ==> g.collapsed(epoch, to).leader_opened(id).wf(),
        g.truncated(term).wf(),
        g.halted().wf(),
{
}

/// While a truncation is in flight no term map opens intake: a duplicate of
/// the map that caused it leaves intake closed until the acknowledgement.
pub proof fn law_no_reopen_mid_truncation(
    g: TermGate,
    map_term: Option<u32>,
    term_before: u32,
    term_after: u32,
    truncates: bool,
)
    requires
        g.wf(),
        g.pending_truncation is Some,
    ensures
        !g.gate_open,
        !g.reconciles(map_term, term_before, term_after, truncates),
{
}

/// An acknowledgement that lands after a newer term was adopted does not open
/// intake: that term's own reconcile has to complete first.
pub proof fn law_newer_term_keeps_intake_closed(g: TermGate, epoch: u64, term: u32, sm_term: u32)
    requires
        g.wf(),
        term > g.adopted_term,
    ensures
        ({
            let adopted = g.truncating(epoch).following(term);
            &&& !adopted.gate_open
            &&& !adopted.truncated(sm_term).gate_open
            &&& adopted.truncated(sm_term).pending_truncation is None
            &&& adopted.truncated(sm_term).awaiting_reconcile
        }),
{
}

/// A collapse acknowledged after this node stepped down revives no
/// leadership.
pub proof fn law_stale_collapse_revives_nothing(g: TermGate, base: u64, won: u32, term: u32, to: u64)
    ensures
        ({
            let down = g.leader_opening(won, base).following(term);
            let late = down.collapsed(g.next_collapse_epoch, to);
            &&& late == (TermGate { durable_seen: to, ..down })
            &&& !late.leader_flag
            &&& !late.appender
        }),
{
}

/// Between the start of a leader open and its acknowledgement no durable
/// position is handed on: the archive's frontier may still lie above the cut.
pub proof fn law_leader_open_suppresses_durable(g: TermGate, term: u32, base: u64, raw: u64, obs: u64)
    ensures
        g.leader_opening(term, base).durable_news(raw, obs) is None,
{
}

/// A durable position that is handed on is one that the archive has, that
/// its term observations describe, and that is news.
pub proof fn law_durable_news_is_sound(g: TermGate, raw: u64, observed: u64)
    ensures
        g.durable_news(raw, observed) matches Some(d) ==> d <= raw && d <= observed && d
            > g.durable_seen,
{
}

/// Nobody's id is the mark for an unknown leader.
pub proof fn law_unknown_leader_is_nobody(id: NodeId)
    ensures
        LEADER_UNKNOWN == u64::MAX,
        id as u64 != LEADER_UNKNOWN,
{
}

/// A counter moves up by one, and starts over only where it is full.
pub proof fn law_counters_move_by_one(n: u64)
    ensures
        n < u64::MAX ==> bumped(n) == n + 1,
        n == u64::MAX ==> bumped(n) == 0,
{
}

/// A follower neither leads nor appends, and no open of its own is in flight.
/// Intake closes exactly on a strictly newer term, which then waits for its
/// reconcile under a leader that is not known yet; a repeat of the same term
/// opens and closes nothing. A truncation in flight stays in flight.
pub proof fn law_following_steps_down(g: TermGate, term: u32)
    ensures
        ({
            let f = g.following(term);
            &&& !f.leader_flag && !f.appender && f.pending_leader_open is None
            &&& f.adopted_term == term
            &&& term > g.adopted_term ==> !f.gate_open && f.awaiting_reconcile && f.leader_hint
                == u64::MAX
            &&& term <= g.adopted_term ==> f.gate_open == g.gate_open && f.awaiting_reconcile
                == g.awaiting_reconcile && f.leader_hint == g.leader_hint
            &&& f.pending_truncation == g.pending_truncation
            &&& f.next_collapse_epoch == g.next_collapse_epoch
            &&& f.can_serve_flag == g.can_serve_flag
            &&& f.durable_seen == g.durable_seen
            &&& f.truncations == g.truncations && f.wipes == g.wipes
            &&& f.halt_removed == g.halt_removed
        }),
{
}

/// A leader that opens its term takes nothing in and does not say that it
/// leads until the archive has acknowledged the collapse, under an epoch that
/// no open before used and none after will.
pub proof fn law_opening_waits_for_its_collapse(
    g: TermGate,
    term: u32,
    base: u64,
    later: u32,
    later_base: u64,
)
    requires
        g.next_collapse_epoch < u64::MAX,
    ensures
        ({
            let o = g.leader_opening(term, base);
            &&& !o.gate_open && !o.awaiting_reconcile
            &&& o.adopted_term == term
            &&& o.pending_leader_open is Some
            &&& o.pending_leader_open->0.term == term && o.pending_leader_open->0.base == base
            &&& o.pending_leader_open->0.epoch == g.next_collapse_epoch
            &&& o.pending_leader_open->0.epoch < o.next_collapse_epoch
            &&& o.leader_opening(later, later_base).pending_leader_open->0.epoch
                != o.pending_leader_open->0.epoch
            &&& o.leader_flag == g.leader_flag && o.appender == g.appender
            &&& o.leader_hint == g.leader_hint && o.can_serve_flag == g.can_serve_flag
            &&& o.pending_truncation == g.pending_truncation
            &&& o.durable_seen == g.durable_seen && o.halt_removed == g.halt_removed
            &&& o.truncations == g.truncations && o.wipes == g.wipes
        }),
{
}

/// The acknowledgement of the collapse in flight installs the appender and
/// ends the wait; any other moves the durable mark alone. Either way the
/// durable mark is where the archive cut, and intake stays as it was.
pub proof fn law_collapse_completes_its_own_open(g: TermGate, epoch: u64, to: u64)
    ensures
        ({
            let c = g.collapsed(epoch, to);
            let own = g.pending_leader_open is Some && g.pending_leader_open->0.epoch == epoch;
            &&& c.durable_seen == to
            &&& own ==> c.appender && c.pending_leader_open is None
            &&& !own ==> c.appender == g.appender && c.pending_leader_open == g.pending_leader_open
            &&& c.gate_open == g.gate_open && c.leader_flag == g.leader_flag
            &&& c.adopted_term == g.adopted_term && c.awaiting_reconcile == g.awaiting_reconcile
            &&& c.pending_truncation == g.pending_truncation
            &&& c.next_collapse_epoch == g.next_collapse_epoch
            &&& c.leader_hint == g.leader_hint && c.can_serve_flag == g.can_serve_flag
            &&& c.halt_removed == g.halt_removed
            &&& c.truncations == g.truncations && c.wipes == g.wipes
        }),
{
}

/// Once its open is complete a leader takes data in, says that it leads, and
/// names itself.
pub proof fn law_opened_leader_names_itself(g: TermGate, id: NodeId)
    ensures
        ({
            let o = g.leader_opened(id);
            &&& o.gate_open && o.leader_flag && o.leader_hint == id
            &&& o.adopted_term == g.adopted_term && o.awaiting_reconcile == g.awaiting_reconcile
            &&& o.pending_truncation == g.pending_truncation
            &&& o.pending_leader_open == g.pending_leader_open
            &&& o.next_collapse_epoch == g.next_collapse_epoch
            &&& o.appender == g.appender && o.can_serve_flag == g.can_serve_flag
            &&& o.durable_seen == g.durable_seen && o.halt_removed == g.halt_removed
            &&& o.truncations == g.truncations && o.wipes == g.wipes
        }),
{
}

/// From its command to its acknowledgement a truncation keeps intake closed.
/// The acknowledgement counts it, ends it, and opens intake unless the
/// adopted term still waits for its reconcile, is not the state machine's, or
/// is being opened.
pub proof fn law_truncation_brackets_intake(g: TermGate, epoch: u64, term: u32)
    ensures
        ({
            let t = g.truncating(epoch);
            &&& !t.gate_open && t.pending_truncation == Some(epoch) && !t.awaiting_reconcile
            &&& t.adopted_term == g.adopted_term
            &&& t.pending_leader_open == g.pending_leader_open
            &&& t.next_collapse_epoch == g.next_collapse_epoch
            &&& t.leader_flag == g.leader_flag && t.appender == g.appender
            &&& t.leader_hint == g.leader_hint && t.can_serve_flag == g.can_serve_flag
            &&& t.durable_seen == g.durable_seen && t.halt_removed == g.halt_removed
            &&& t.truncations == g.truncations && t.wipes == g.wipes
        }),
        ({
            let d = g.truncated(term);
            let free = !g.awaiting_reconcile && term == g.adopted_term
                && g.pending_leader_open is None;
            &&& d.pending_truncation is None
            &&& g.truncations < u64::MAX ==> d.truncations == g.truncations + 1
            &&& free ==> d.gate_open
            &&& !free ==> d.gate_open == g.gate_open
            &&& d.adopted_term == g.adopted_term && d.awaiting_reconcile == g.awaiting_reconcile
            &&& d.pending_leader_open == g.pending_leader_open
            &&& d.next_collapse_epoch == g.next_collapse_epoch
            &&& d.leader_flag == g.leader_flag && d.appender == g.appender
            &&& d.leader_hint == g.leader_hint && d.can_serve_flag == g.can_serve_flag
            &&& d.durable_seen == g.durable_seen && d.halt_removed == g.halt_removed
            &&& d.wipes == g.wipes
        }),
{
}

/// A term map completes the reconcile exactly where the adopted term waits
/// for it, the map is not older than the term it was processed under, it asked
/// for no cut and none is in flight, and the state machine's term is the
/// adopted one. Intake is then open, and nothing else has changed.
pub proof fn law_current_map_reconciles(
    g: TermGate,
    map_term: u32,
    term_before: u32,
    term_after: u32,
    truncates: bool,
)
    ensures
        !g.reconciles(None, term_before, term_after, truncates),
        g.reconciles(Some(map_term), term_before, term_after, truncates) <==> (
        g.awaiting_reconcile && !truncates && g.pending_truncation is None && map_term
            >= term_before && term_after == g.adopted_term),
        ({
            let r = g.reconciled();
            &&& r.gate_open && !r.awaiting_reconcile
            &&& r.adopted_term == g.adopted_term
            &&& r.pending_truncation == g.pending_truncation
            &&& r.pending_leader_open == g.pending_leader_open
            &&& r.next_collapse_epoch == g.next_collapse_epoch
            &&& r.leader_flag == g.leader_flag && r.appender == g.appender
            &&& r.leader_hint == g.leader_hint && r.can_serve_flag == g.can_serve_flag
            &&& r.durable_seen == g.durable_seen && r.halt_removed == g.halt_removed
            &&& r.truncations == g.truncations && r.wipes == g.wipes
        }),
{
}

/// A removed node neither leads nor serves, and knows it was removed; its
/// log's state is left alone.
pub proof fn law_halt_takes_the_roles_away(g: TermGate)
    ensures
        ({
            let h = g.halted();
            &&& h.halt_removed && !h.leader_flag && !h.can_serve_flag
            &&& h.gate_open == g.gate_open && h.adopted_term == g.adopted_term
            &&& h.awaiting_reconcile == g.awaiting_reconcile
            &&& h.pending_truncation == g.pending_truncation
            &&& h.pending_leader_open == g.pending_leader_open
            &&& h.next_collapse_epoch == g.next_collapse_epoch
            &&& h.appender == g.appender && h.leader_hint == g.leader_hint
            &&& h.durable_seen == g.durable_seen
            &&& h.truncations == g.truncations && h.wipes == g.wipes
        }),
{
}

/// Where no leader open is in flight and both the archive and its term
/// observations have moved past the durable mark, that is news: all of it
/// that both have.
pub proof fn law_durable_news_is_complete(g: TermGate, raw: u64, observed: u64)
    requires
        g.pending_leader_open is None,
        raw > g.durable_seen,
        observed > g.durable_seen,
    ensures
        g.durable_news(raw, observed) is Some,
        raw <= observed ==> g.durable_news(raw, observed)->0 == raw,
        observed <= raw ==> g.durable_news(raw, observed)->0 == observed,
{
}

impl TermGate {
    /// This state after the archive acknowledged a cut at `to`.
    pub open spec fn cut_at(self, to: u64) -> TermGate {
        TermGate { durable_seen: to, ..self }
    }

    /// Whether truncation `epoch` is the one in flight.
    pub open spec fn awaits_cut(self, epoch: u64) -> bool {
        self.pending_truncation == Some(epoch)
    }

    /// The term to open once collapse `epoch` is acknowledged, if that is the
    /// one in flight.
    pub open spec fn opens(self, epoch: u64) -> Option<u32> {
        match self.pending_leader_open {
            Some(open) => if open.epoch == epoch {
                Some(open.term)
            } else {
                None
            },
            None => None,
        }
    }

    /// This state after durable news was handed on.
    pub open spec fn told(self, news: Option<u64>) -> TermGate {
        TermGate {
            durable_seen: match news {
                Some(p) => p,
                None => self.durable_seen,
            },
            ..self
        }
    }
}

/// An acknowledgement is matched by its epoch: a collapse opens the very term
/// that was being opened under it, a truncation ends the very one in flight,
/// and a stale one neither. Either moves the durable mark to where the archive
/// cut, and nothing else by itself.
pub proof fn law_acknowledgements_match_by_epoch(
    g: TermGate,
    term: u32,
    base: u64,
    epoch: u64,
    other: u64,
    to: u64,
)
    ensures
        g.leader_opening(term, base).opens(g.next_collapse_epoch) == Some(term),
        other != g.next_collapse_epoch ==> g.leader_opening(term, base).opens(other) is None,
        g.following(term).opens(other) is None,
        g.truncating(epoch).awaits_cut(epoch),
        other != epoch ==> !g.truncating(epoch).awaits_cut(other),
        !g.truncated(term).awaits_cut(epoch),
        g.cut_at(to).durable_seen == to,
        g.cut_at(to) == (TermGate { durable_seen: g.cut_at(to).durable_seen, ..g }),
{
}

/// What was handed on as durable is not news again.
pub proof fn law_durable_news_is_handed_on_once(g: TermGate, raw: u64, observed: u64)
    ensures
        g.durable_news(raw, observed) matches Some(d) ==> g.told(Some(d)).durable_seen == d,
        g.told(g.durable_news(raw, observed)).durable_news(raw, observed) is None,
        g.told(None) == g,
        g.told(Some(raw)) == (TermGate { durable_seen: raw, ..g }),
{
}

} // verus!
