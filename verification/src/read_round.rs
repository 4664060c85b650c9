//! The probe round: one in-flight leadership confirmation shared by every
//! linearizable read that was waiting when it was issued.

use crate::node::cluster::NodeId;
use vstd::prelude::*;

verus! {

/// How long a round waits for its quorum before the probe is sent again. A
/// lost probe would otherwise stall every waiting read.
pub const PROBE_RETRANSMIT_NS: u64 = 2_000_000;

/// What a probe round says.
#[verifier::ext_equal]
pub struct RoundV {
    pub seq: u64,
    pub nonce: u64,
    pub term: u32,
    pub commit_at_issue: u64,
    /// Who confirmed, each once, this node first.
    pub ackers: Seq<NodeId>,
    pub quorum: nat,
    pub last_send_ns: u64,
}

impl RoundV {
    /// The voters that have confirmed are distinct.
    pub open spec fn wf(self) -> bool {
        self.ackers.no_duplicates()
    }

    /// The round after a confirmation from `from`.
    pub open spec fn acked(self, from: NodeId) -> RoundV {
        if self.ackers.contains(from) {
            self
        } else {
            RoundV { ackers: self.ackers.push(from), ..self }
        }
    }

    /// Whether enough voters have confirmed.
    pub open spec fn has_quorum(self) -> bool {
        self.ackers.len() >= self.quorum
    }

    /// Whether this round confirms a read that recorded `read_round_seq` when
    /// it was admitted: only one that was waiting at issue.
    pub open spec fn covers(self, read_round_seq: u64) -> bool {
        read_round_seq <= self.seq
    }

    /// Whether the probe is due again at `now_ns`.
    pub open spec fn due(self, now_ns: u64) -> bool {
        now_ns - self.last_send_ns >= PROBE_RETRANSMIT_NS
    }
}

/// The single in-flight probe round.
#[derive(Debug)]
pub struct ProbeRound {
    /// Issue number, the certification gate: never reused, and never changed
    /// by a retransmission.
    pub seq: u64,
    /// Matches acks to this round on the wire.
    pub nonce: u64,
    /// Term at issue: a round never crosses terms.
    pub term: u32,
    /// Commit position at issue.
    pub commit_at_issue: u64,
    /// Who confirmed, each once, this node first.
    pub ackers: Vec<NodeId>,
    /// Voter majority at issue.
    pub quorum: usize,
    /// When the probe last went out.
    pub last_send_ns: u64,
}

impl View for ProbeRound {
    type V = RoundV;

    open spec fn view(&self) -> RoundV {
        RoundV {
            seq: self.seq,
            nonce: self.nonce,
            term: self.term,
            commit_at_issue: self.commit_at_issue,
            ackers: self.ackers@,
            quorum: self.quorum as nat,
            last_send_ns: self.last_send_ns,
        }
    }
}

impl ProbeRound {
    /// A round just issued, confirmed by this node alone.
    pub fn new(
        seq: u64,
        nonce: u64,
        quorum: usize,
        self_id: NodeId,
        term: u32,
        commit_at_issue: u64,
        now_ns: u64,
    ) -> (r: ProbeRound)
        requires
            quorum >= 2,
        ensures
            r@ == (RoundV {
                seq,
                nonce,
                term,
                commit_at_issue,
                ackers: seq![self_id],
                quorum: quorum as nat,
                last_send_ns: now_ns,
            }),
            r@.wf(),
    {
        let mut ackers: Vec<NodeId> = Vec::new();
        ackers.push(self_id);
        let r = ProbeRound {
            seq,
            nonce,
            term,
            commit_at_issue,
            ackers,
            quorum,
            last_send_ns: now_ns,
        };
        assert(r@.ackers =~= seq![self_id]);
        r
    }

    /// Count a confirmation; a repeated one does not advance the count. `true`
    /// iff the quorum is reached. That `from` votes is the caller's check.
    pub fn record_ack(&mut self, from: NodeId) -> (reached: bool)
        ensures
            final(self)@ == old(self)@.acked(from),
            reached == final(self)@.has_quorum(),
            old(self)@.wf() ==> final(self)@.wf(),
    {
        let mut known = false;
        for i in 0..self.ackers.len()
            invariant
                known == exists|j: int| 0 <= j < i && self.ackers@[j] == from,
        {
            if self.ackers[i] == from {
                known = true;
            }
        }
        if !known {
            assert(!self.ackers@.contains(from));
            self.ackers.push(from);
            assert(self@ =~= old(self)@.acked(from));
        } else {
            assert(self.ackers@.contains(from));
        }
        self.ackers.len() >= self.quorum
    }

    /// How many distinct voters have confirmed.
    pub fn acks(&self) -> (n: usize)
        ensures
            n == self@.ackers.len(),
    {
        self.ackers.len()
    }

    /// Whether this round confirms a read that recorded `read_round_seq`.
    pub fn certifies(&self, read_round_seq: u64) -> (r: bool)
        ensures
            r == self@.covers(read_round_seq),
    {
        read_round_seq <= self.seq
    }

    /// Whether the probe is due again.
    pub fn should_retransmit(&self, now_ns: u64) -> (r: bool)
        ensures
            r == self@.due(now_ns),
    {
        now_ns.saturating_sub(self.last_send_ns) >= PROBE_RETRANSMIT_NS
    }

    /// Note that the probe went out again. Who is confirmed, and what the
    /// round certifies, stay as they were.
    pub fn mark_sent(&mut self, now_ns: u64)
        ensures
            final(self)@ == (RoundV { last_send_ns: now_ns, ..old(self)@ }),
    {
        self.last_send_ns = now_ns;
    }
}

/// A round's confirmations only grow, so a reached quorum stays reached, and
/// never count anyone twice.
pub proof fn law_acks_are_distinct_and_grow(r: RoundV, from: NodeId)
    requires
        r.wf(),
    ensures
        r.acked(from).wf(),
        r.ackers.len() <= r.acked(from).ackers.len() <= r.ackers.len() + 1,
        r.has_quorum() ==> r.acked(from).has_quorum(),
        r.acked(from).acked(from) == r.acked(from),
{
    if !r.ackers.contains(from) {
        assert(r.acked(from).ackers.last() == from);
        assert(r.acked(from).ackers.contains(from));
    }
}

/// A confirmation counts its sender and nobody else, and the quorum is reached
/// exactly when as many voters as it needs have confirmed. What the round is
/// for stays as it was.
pub proof fn law_confirmation_counts_its_sender(r: RoundV, from: NodeId, other: NodeId)
    ensures
        r.acked(from).ackers.contains(from),
        other != from ==> (r.acked(from).ackers.contains(other) <==> r.ackers.contains(other)),
        !r.ackers.contains(from) ==> r.acked(from).ackers.len() == r.ackers.len() + 1,
        r.has_quorum() <==> r.quorum <= r.ackers.len(),
        r.acked(from) == (RoundV { ackers: r.acked(from).ackers, ..r }),
{
    let p = r.acked(from).ackers;
    if !r.ackers.contains(from) {
        assert(p[p.len() - 1] == from);
        if p.contains(other) && other != from {
            let k = choose|k: int| 0 <= k < p.len() && p[k] == other;
            assert(r.ackers[k] == other);
        }
        if r.ackers.contains(other) {
            let k = choose|k: int| 0 <= k < r.ackers.len() && r.ackers[k] == other;
            assert(p[k] == other);
        }
    }
}

/// A round confirms exactly the reads that arrived before it was issued: those
/// that recorded its own number or an earlier one.
pub proof fn law_round_confirms_earlier_reads(r: RoundV, read_round_seq: u64)
    ensures
        r.covers(read_round_seq) <==> read_round_seq <= r.seq,
{
}

/// A probe is due again once two milliseconds have passed since it last went
/// out.
pub proof fn law_probe_is_due_after_its_interval(r: RoundV, now_ns: u64)
    ensures
        r.due(now_ns) <==> now_ns >= r.last_send_ns + 2_000_000,
{
}

/// A round says all of what it holds.
pub proof fn law_round_says_what_it_holds(r: ProbeRound)
    ensures
        r@.seq == r.seq && r@.nonce == r.nonce && r@.term == r.term,
        r@.commit_at_issue == r.commit_at_issue && r@.ackers == r.ackers@,
        r@.quorum == r.quorum && r@.last_send_ns == r.last_send_ns,
{
}

} // verus!
