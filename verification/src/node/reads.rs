//! The read barrier: linearizable reads parked between admission and the
//! moment they are forwarded to the service, or answered with a retry.

use crate::node::cluster::{NodeId, holds_id};
use crate::read_round;
use crate::read_round::{ProbeRound, RoundV};
use vstd::multiset::Multiset;
use vstd::prelude::*;

verus! {

/// Query records drained per duty cycle.
pub const QUERY_DRAIN_PER_CYCLE: usize = 64;

/// How long a linearizable read may wait for its confirmation and for the
/// service to catch up before it is answered with a retry.
pub const READ_BARRIER_TIMEOUT_NS: u64 = 1_000_000_000;

/// What a parked read waits for.
#[derive(Debug, Clone, Copy, PartialEq, Eq, Structural)]
pub enum ReadPhase {
    /// A quorum confirming that this node still leads.
    AwaitQuorum,
    /// The service applying through the read index.
    AwaitApplied,
}

/// What a parked read says.
#[verifier::ext_equal]
pub struct ReadV {
    pub client_id: u32,
    pub local_seq: u32,
    pub query: Seq<u8>,
    pub round_seq: u64,
    pub commit_at: u64,
    pub deadline_ns: u64,
    pub phase: ReadPhase,
}

/// One parked read.
#[derive(Debug)]
pub struct PendingRead {
    pub client_id: u32,
    pub local_seq: u32,
    /// The query, forwarded as it came.
    pub query: Vec<u8>,
    /// The number of the next probe round at admission: a round with this
    /// number or a higher one was issued after the read arrived.
    pub round_seq: u64,
    /// The read index: the commit position at admission.
    pub commit_at: u64,
    /// When the read is given up.
    pub deadline_ns: u64,
    pub phase: ReadPhase,
}

impl View for PendingRead {
    type V = ReadV;

    open spec fn view(&self) -> ReadV {
        ReadV {
            client_id: self.client_id,
            local_seq: self.local_seq,
            query: self.query@,
            round_seq: self.round_seq,
            commit_at: self.commit_at,
            deadline_ns: self.deadline_ns,
            phase: self.phase,
        }
    }
}

/// What a run of parked reads says.
pub open spec fn reads_view(s: Seq<PendingRead>) -> Seq<ReadV> {
    s.map_values(|r: PendingRead| r@)
}

/// What the read barrier says.
#[verifier::ext_equal]
pub struct BarrierV {
    pub pending: Seq<ReadV>,
    pub round: Option<RoundV>,
    pub next_round_seq: u64,
    pub next_nonce: u64,
}

impl BarrierV {
    /// The round in flight was issued under a number that the counter has
    /// left behind, and counts nobody twice. No read was admitted under a
    /// number that the counter has yet to reach.
    pub open spec fn wf(self) -> bool {
        &&& match self.round {
            Some(r) => r.wf() && r.seq < self.next_round_seq,
            None => true,
        }
        &&& forall|i: int|
            0 <= i < self.pending.len() ==> (#[trigger] self.pending[i]).round_seq
                <= self.next_round_seq
    }
}

/// The read barrier of the consensus agent.
#[derive(Debug)]
pub struct ReadBarrier {
    pub pending: Vec<PendingRead>,
    pub round: Option<ProbeRound>,
    /// The number the next round carries.
    pub next_round_seq: u64,
    /// The nonce the next round carries.
    pub next_nonce: u64,
}

/// What an optional round says.
pub open spec fn round_view(r: Option<ProbeRound>) -> Option<RoundV> {
    match r {
        Some(r) => Some(r@),
        None => None,
    }
}

impl View for ReadBarrier {
    type V = BarrierV;

    open spec fn view(&self) -> BarrierV {
        BarrierV {
            pending: reads_view(self.pending@),
            round: round_view(self.round),
            next_round_seq: self.next_round_seq,
            next_nonce: self.next_nonce,
        }
    }
}

/// What a query record says.
#[verifier::ext_equal]
pub struct QueryV {
    pub client_id: u32,
    pub local_seq: u32,
    pub linearizable: bool,
    pub query: Seq<u8>,
    pub commit_at: u64,
    pub now_ns: u64,
}

/// One query off the clients' ring, with the commit position and the clock as
/// they stood when it was read.
#[derive(Debug)]
pub struct QueryRecord {
    pub client_id: u32,
    pub local_seq: u32,
    pub linearizable: bool,
    pub query: Vec<u8>,
    pub commit_at: u64,
    pub now_ns: u64,
}

impl View for QueryRecord {
    type V = QueryV;

    open spec fn view(&self) -> QueryV {
        QueryV {
            client_id: self.client_id,
            local_seq: self.local_seq,
            linearizable: self.linearizable,
            query: self.query@,
            commit_at: self.commit_at,
            now_ns: self.now_ns,
        }
    }
}

/// What an answer to a query record says.
pub enum ReplyV {
    Snapshot { client_id: u32, local_seq: u32, query: Seq<u8> },
    NotLeader { client_id: u32, local_seq: u32 },
    Parked,
}

/// What becomes of a query record.
#[derive(Debug)]
pub enum QueryReply {
    /// Forward to the service at once, without an epoch check.
    Snapshot { client_id: u32, local_seq: u32, query: Vec<u8> },
    /// Redirect the client.
    NotLeader { client_id: u32, local_seq: u32 },
    /// The read waits in the barrier.
    Parked,
}

impl View for QueryReply {
    type V = ReplyV;

    open spec fn view(&self) -> ReplyV {
        match self {
            QueryReply::Snapshot { client_id, local_seq, query } => ReplyV::Snapshot {
                client_id: *client_id,
                local_seq: *local_seq,
                query: query@,
            },
            QueryReply::NotLeader { client_id, local_seq } => ReplyV::NotLeader {
                client_id: *client_id,
                local_seq: *local_seq,
            },
            QueryReply::Parked => ReplyV::Parked,
        }
    }
}

/// A majority of `peers` voters and this node.
pub open spec fn majority(peers: nat) -> nat {
    (peers + 1) / 2 + 1
}

/// The answer to a query record.
pub open spec fn reply_to(q: QueryV, can_serve: bool) -> ReplyV {
    if !q.linearizable {
        ReplyV::Snapshot { client_id: q.client_id, local_seq: q.local_seq, query: q.query }
    } else if !can_serve {
        ReplyV::NotLeader { client_id: q.client_id, local_seq: q.local_seq }
    } else {
        ReplyV::Parked
    }
}

/// The parked form of a linearizable query.
pub open spec fn parked(q: QueryV, round_seq: u64, peers: nat) -> ReadV {
    ReadV {
        client_id: q.client_id,
        local_seq: q.local_seq,
        query: q.query,
        round_seq,
        commit_at: q.commit_at,
        deadline_ns: (q.now_ns + READ_BARRIER_TIMEOUT_NS) as u64,
        phase: if majority(peers) <= 1 {
            ReadPhase::AwaitApplied
        } else {
            ReadPhase::AwaitQuorum
        },
    }
}

/// The barrier after a query record was looked at.
pub open spec fn admitted(b: BarrierV, q: QueryV, can_serve: bool, peers: nat) -> BarrierV {
    if q.linearizable && can_serve {
        BarrierV { pending: b.pending.push(parked(q, b.next_round_seq, peers)), ..b }
    } else {
        b
    }
}

/// The barrier after a run of query records.
pub open spec fn all_admitted(
    b: BarrierV,
    qs: Seq<QueryV>,
    can_serve: bool,
    peers: nat,
) -> BarrierV
    decreases qs.len(),
{
    if qs.len() == 0 {
        b
    } else {
        admitted(all_admitted(b, qs.drop_last(), can_serve, peers), qs.last(), can_serve, peers)
    }
}

/// A read released from waiting for a quorum.
pub open spec fn released(r: ReadV) -> ReadV {
    ReadV { phase: ReadPhase::AwaitApplied, ..r }
}

/// The reads after `round` reached its quorum: those it covers are released.
pub open spec fn certified(s: Seq<ReadV>, round: RoundV) -> Seq<ReadV> {
    s.map_values(
        |r: ReadV|
            if r.phase == ReadPhase::AwaitQuorum && round.covers(r.round_seq) {
                released(r)
            } else {
                r
            },
    )
}

/// Every read released: a sole voter is its own majority.
pub open spec fn all_released(s: Seq<ReadV>) -> Seq<ReadV> {
    s.map_values(
        |r: ReadV|
            if r.phase == ReadPhase::AwaitQuorum {
                released(r)
            } else {
                r
            },
    )
}

/// Whether some read waits for a quorum.
pub open spec fn waiting(s: Seq<ReadV>) -> bool {
    exists|i: int| 0 <= i < s.len() && (#[trigger] s[i]).phase == ReadPhase::AwaitQuorum
}

/// What issuing a round needs to know of the node.
#[derive(Debug, Clone, Copy)]
pub struct RoundContext {
    pub id: NodeId,
    /// Voting members other than this node.
    pub peers: usize,
    pub term: u32,
    pub commit: u64,
    pub now_ns: u64,
}

/// The round a barrier issues.
pub open spec fn fresh_round(b: BarrierV, ctx: RoundContext) -> RoundV {
    RoundV {
        seq: b.next_round_seq,
        nonce: b.next_nonce,
        term: ctx.term,
        commit_at_issue: ctx.commit,
        ackers: seq![ctx.id],
        quorum: majority(ctx.peers as nat),
        last_send_ns: ctx.now_ns,
    }
}

/// Whether a round goes out: none is in flight, some read waits, and this
/// node is not its own majority.
pub open spec fn issues(b: BarrierV, ctx: RoundContext) -> bool {
    b.round is None && waiting(b.pending) && ctx.peers > 0
}

/// The barrier after the chance to issue a round.
pub open spec fn after_issue(b: BarrierV, ctx: RoundContext) -> BarrierV {
    if issues(b, ctx) {
        BarrierV {
            round: Some(fresh_round(b, ctx)),
            next_round_seq: (b.next_round_seq + 1) as u64,
            next_nonce: (b.next_nonce + 1) as u64,
            ..b
        }
    } else if b.round is None && waiting(b.pending) {
        BarrierV { pending: all_released(b.pending), ..b }
    } else {
        b
    }
}

/// The barrier after a confirmation `nonce` from `from`.
pub open spec fn after_ack(
    b: BarrierV,
    nonce: u64,
    from: NodeId,
    voters: Seq<NodeId>,
) -> BarrierV {
    match b.round {
        Some(r) => if !voters.contains(from) || r.nonce != nonce {
            b
        } else if r.acked(from).has_quorum() {
            BarrierV { pending: certified(b.pending, r), round: None, ..b }
        } else {
            BarrierV { round: Some(r.acked(from)), ..b }
        },
        None => b,
    }
}

/// The service's incarnation and progress, sampled around each other.
#[derive(Debug, Clone, Copy)]
pub struct ServiceSample {
    pub epoch_before: u64,
    pub applied: u64,
    pub epoch_after: u64,
}

/// Whether a read with index `commit_at` may be forwarded: one attached
/// incarnation, the same before and after, has applied through it. Epoch 0
/// is the sentinel that skips the service's own check, and never counts.
pub open spec fn service_ready(s: ServiceSample, commit_at: u64) -> bool {
    s.epoch_before >= 1 && s.applied >= commit_at && s.epoch_after == s.epoch_before
}

/// `s` with its `i`-th entry taken out and the last one moved there.
pub open spec fn taken_out(s: Seq<ReadV>, i: int) -> Seq<ReadV> {
    s.update(i, s.last()).drop_last()
}

/// What to do with the read that a sweep has reached.
#[derive(Debug)]
pub enum SweepStep {
    /// Answer the client with a retry; the read has left the barrier.
    Retry { client_id: u32, local_seq: u32 },
    /// Offer the query to the service under `epoch`, and report how that
    /// went.
    Forward { client_id: u32, local_seq: u32, epoch: u64, query: Vec<u8> },
    /// The read stays.
    Parked,
    /// No read is left to look at.
    Done,
}

/// A walk over the parked reads.
#[derive(Debug, Clone, Copy)]
pub struct Sweep {
    pub index: usize,
}

impl ReadBarrier {
    /// An empty barrier.
    pub fn new() -> (b: ReadBarrier)
        ensures
            b@ == (BarrierV {
                pending: Seq::empty(),
                round: None,
                next_round_seq: 1,
                next_nonce: 0,
            }),
            b@.wf(),
    {
        let b = ReadBarrier { pending: Vec::new(), round: None, next_round_seq: 1, next_nonce: 0 };
        assert(b@.pending =~= Seq::empty());
        b
    }

    /// Look at one query record: forward a snapshot read, redirect what this
    /// node cannot confirm, park the rest.
    pub fn admit_query(&mut self, rec: QueryRecord, can_serve: bool, peers: usize) -> (r: QueryReply)
        requires
            rec.now_ns + READ_BARRIER_TIMEOUT_NS <= u64::MAX,
            peers < usize::MAX,
        ensures
            final(self)@ == admitted(old(self)@, rec@, can_serve, peers as nat),
            r@ == reply_to(rec@, can_serve),
            final(self).round == old(self).round,
            old(self)@.wf() ==> final(self)@.wf(),
    {
        if !rec.linearizable {
            return QueryReply::Snapshot {
                client_id: rec.client_id,
                local_seq: rec.local_seq,
                query: rec.query,
            };
        }
        if !can_serve {
            return QueryReply::NotLeader { client_id: rec.client_id, local_seq: rec.local_seq };
        }
        let n: usize = peers + 1;
        let quorum: usize = n / 2 + 1;
        let phase = if quorum <= 1 {
            ReadPhase::AwaitApplied
        } else {
            ReadPhase::AwaitQuorum
        };
        let read = PendingRead {
            client_id: rec.client_id,
            local_seq: rec.local_seq,
            query: rec.query,
            round_seq: self.next_round_seq,
            commit_at: rec.commit_at,
            deadline_ns: rec.now_ns + READ_BARRIER_TIMEOUT_NS,
            phase,
        };
        let ghost before = self@;
        self.pending.push(read);
        assert(self@.pending =~= before.pending.push(parked(rec@, before.next_round_seq, peers as nat)));
        QueryReply::Parked
    }

    /// Release every read that waits for a quorum and that `round_seq_limit`
    /// admits (`None`: all of them).
    fn release(&mut self, limit: Option<u64>)
        ensures
            final(self)@.pending == old(self)@.pending.map_values(
                |r: ReadV|
                    if r.phase == ReadPhase::AwaitQuorum && (match limit {
                        Some(seq) => r.round_seq <= seq,
                        None => true,
                    }) {
                        released(r)
                    } else {
                        r
                    },
            ),
            final(self).round == old(self).round,
            final(self).next_round_seq == old(self).next_round_seq,
            final(self).next_nonce == old(self).next_nonce,
    {
        let ghost f = |r: ReadV|
            if r.phase == ReadPhase::AwaitQuorum && (match limit {
                Some(seq) => r.round_seq <= seq,
                None => true,
            }) {
                released(r)
            } else {
                r
            };
        let mut i: usize = 0;
        while i < self.pending.len()
            invariant
                f == (|r: ReadV|
                    if r.phase == ReadPhase::AwaitQuorum && (match limit {
                        Some(seq) => r.round_seq <= seq,
                        None => true,
                    }) {
                        released(r)
                    } else {
                        r
                    }),
                self.round == old(self).round,
                self.next_round_seq == old(self).next_round_seq,
                self.next_nonce == old(self).next_nonce,
                i <= self.pending@.len(),
                self.pending@.len() == old(self).pending@.len(),
                forall|j: int| 0 <= j < i ==> (#[trigger] self.pending@[j])@ == f(old(self).pending@[j]@),
                forall|j: int|
                    i <= j < self.pending@.len() ==> #[trigger] self.pending@[j] == old(self).pending@[j],
            decreases self.pending.len() - i,
        {
            let covered = match limit {
                Some(seq) => self.pending[i].round_seq <= seq,
                None => true,
            };
            if self.pending[i].phase == ReadPhase::AwaitQuorum && covered {
                self.pending[i].phase = ReadPhase::AwaitApplied;
            }
            i = i + 1;
        }
        assert(self@.pending =~= old(self)@.pending.map_values(f));
    }

    /// Whether some read waits for a quorum.
    fn has_waiting(&self) -> (r: bool)
        ensures
            r == waiting(self@.pending),
    {
        for i in 0..self.pending.len()
            invariant
                forall|j: int| 0 <= j < i ==> (#[trigger] self.pending@[j]).phase != ReadPhase::AwaitQuorum,
        {
            if self.pending[i].phase == ReadPhase::AwaitQuorum {
                assert(self@.pending[i as int].phase == ReadPhase::AwaitQuorum);
                return true;
            }
        }
        assert forall|j: int| 0 <= j < self@.pending.len() implies (#[trigger] self@.pending[j]).phase
            != ReadPhase::AwaitQuorum by {
            assert(self.pending@[j].phase != ReadPhase::AwaitQuorum);
        }
        false
    }

    /// Issue a probe round if one is due; the nonce to probe with, then.
    pub fn maybe_issue_round(&mut self, ctx: RoundContext) -> (probe: Option<u64>)
        requires
            old(self).next_round_seq < u64::MAX,
            old(self).next_nonce < u64::MAX,
            ctx.peers < usize::MAX,
        ensures
            final(self)@ == after_issue(old(self)@, ctx),
            probe == (if issues(old(self)@, ctx) {
                Some(old(self)@.next_nonce)
            } else {
                None
            }),
            old(self)@.wf() ==> final(self)@.wf(),
    {
        if self.round.is_some() {
            return None;
        }
        if !self.has_waiting() {
            return None;
        }
        let n: usize = ctx.peers + 1;
        let quorum: usize = n / 2 + 1;
        if quorum <= 1 {
            self.release(None);
            assert(self@ =~= after_issue(old(self)@, ctx));
            return None;
        }
        let seq: u64 = self.next_round_seq;
        self.next_round_seq = seq + 1;
        let nonce: u64 = self.next_nonce;
        self.next_nonce = nonce + 1;
        let round = ProbeRound::new(seq, nonce, quorum, ctx.id, ctx.term, ctx.commit, ctx.now_ns);
        self.round = Some(round);
        assert(self@ =~= after_issue(old(self)@, ctx));
        Some(nonce)
    }

    /// A confirmation arrived. Only the round in flight counts, and only
    /// voters do.
    pub fn on_read_probe_ack(&mut self, nonce: u64, from: NodeId, voters: &Vec<NodeId>)
        ensures
            final(self)@ == after_ack(old(self)@, nonce, from, voters@),
            old(self)@.wf() ==> final(self)@.wf(),
    {
        if !holds_id(voters, from) {
            return;
        }
        let mut round = match self.round.take() {
            Some(r) => r,
            None => {
                return;
            },
        };
        if round.nonce != nonce {
            self.round = Some(round);
            assert(self@ =~= old(self)@);
            return;
        }
        if !round.record_ack(from) {
            self.round = Some(round);
            assert(self@ =~= after_ack(old(self)@, nonce, from, voters@));
            return;
        }
        let seq: u64 = round.seq;
        self.release(Some(seq));
        assert(self@ =~= after_ack(old(self)@, nonce, from, voters@));
    }

    /// Drain a run of query records, then issue the round they need.
    pub fn drain_query_ring(
        &mut self,
        records: Vec<QueryRecord>,
        can_serve: bool,
        ctx: RoundContext,
    ) -> (r: (Vec<QueryReply>, Option<u64>))
        requires
            forall|i: int|
                0 <= i < records@.len() ==> (#[trigger] records@[i]).now_ns
                    + READ_BARRIER_TIMEOUT_NS <= u64::MAX,
            old(self).next_round_seq < u64::MAX,
            old(self).next_nonce < u64::MAX,
            ctx.peers < usize::MAX,
        ensures
            ({
                let qs = records@.map_values(|q: QueryRecord| q@);
                let b = all_admitted(old(self)@, qs, can_serve, ctx.peers as nat);
                &&& final(self)@ == after_issue(b, ctx)
                &&& r.0@.map_values(|q: QueryReply| q@) == qs.map_values(
                    |q: QueryV| reply_to(q, can_serve),
                )
                &&& r.1 == (if issues(b, ctx) {
                    Some(b.next_nonce)
                } else {
                    None
                })
            }),
            old(self)@.wf() ==> final(self)@.wf(),
    {
        let ghost qs = records@.map_values(|q: QueryRecord| q@);
        let ghost peers = ctx.peers as nat;
        let mut replies: Vec<QueryReply> = Vec::new();
        assert(qs.take(0) =~= Seq::<QueryV>::empty());
        for rec in it: records
            invariant
                it.seq() == records@,
                qs == records@.map_values(|q: QueryRecord| q@),
                peers == ctx.peers as nat,
                ctx.peers < usize::MAX,
                forall|i: int|
                    0 <= i < records@.len() ==> (#[trigger] records@[i]).now_ns
                        + READ_BARRIER_TIMEOUT_NS <= u64::MAX,
                self@ == all_admitted(old(self)@, qs.take(it.index() as int), can_serve, peers),
                self.next_round_seq == old(self).next_round_seq,
                self.next_nonce == old(self).next_nonce,
                old(self)@.wf() ==> self@.wf(),
                replies@.len() == it.index(),
                forall|j: int|
                    0 <= j < it.index() ==> (#[trigger] replies@[j])@ == reply_to(qs[j], can_serve),
        {
            let ghost k = it.index() as int;
            assert(rec == records@[k]);
            assert(qs.take(k + 1).drop_last() =~= qs.take(k));
            let reply = self.admit_query(rec, can_serve, ctx.peers);
            replies.push(reply);
        }
        assert(qs.take(qs.len() as int) =~= qs);
        assert(replies@.map_values(|q: QueryReply| q@) =~= qs.map_values(
            |q: QueryV| reply_to(q, can_serve),
        ));
        let probe = self.maybe_issue_round(ctx);
        (replies, probe)
    }

    /// Start a walk over the parked reads. With none parked the round
    /// confirms nobody and is dropped; a round never survives lost serving or
    /// a change of term.
    pub fn begin_sweep(&mut self, can_serve: bool, term: u32) -> (s: Option<Sweep>)
        ensures
            final(self)@ == swept_round(old(self)@, can_serve, term),
            s == (if old(self)@.pending.len() == 0 {
                None
            } else {
                Some(Sweep { index: 0 })
            }),
            old(self)@.wf() ==> final(self)@.wf(),
    {
        if self.pending.len() == 0 {
            self.round = None;
            assert(self@ =~= swept_round(old(self)@, can_serve, term));
            return None;
        }
        let stale = match &self.round {
            Some(r) => !can_serve || r.term != term,
            None => false,
        };
        if stale {
            self.round = None;
        }
        assert(self@ =~= swept_round(old(self)@, can_serve, term));
        Some(Sweep { index: 0 })
    }

    /// The next step of a walk, at the read it has reached. A read past its
    /// deadline, or held by a node that cannot serve, is answered with a
    /// retry. One that waits for the service alone is offered to it once
    /// `sample` shows it ready; its query is then out of the barrier until
    /// [`ReadBarrier::forwarded`] or [`ReadBarrier::forward_refused`].
    pub fn sweep_next(
        &mut self,
        sweep: &mut Sweep,
        now_ns: u64,
        can_serve: bool,
        sample: ServiceSample,
    ) -> (step: SweepStep)
        ensures
            final(self)@ == swept(old(self)@, old(sweep).index as int, now_ns, can_serve, sample),
            final(sweep).index == (if step is Parked {
                old(sweep).index + 1
            } else {
                old(sweep).index as int
            }),
            step_view(step) == sweep_step(
                old(self)@.pending,
                old(sweep).index as int,
                now_ns,
                can_serve,
                sample,
            ),
            old(self)@.wf() ==> final(self)@.wf(),
    {
        let i: usize = sweep.index;
        if i >= self.pending.len() {
            return SweepStep::Done;
        }
        let ghost before = self@;
        assert(before.pending[i as int] == self.pending@[i as int]@);
        if now_ns >= self.pending[i].deadline_ns || !can_serve {
            let r = self.pending.swap_remove(i);
            assert(self@.pending =~= taken_out(before.pending, i as int));
            return SweepStep::Retry { client_id: r.client_id, local_seq: r.local_seq };
        }
        if self.pending[i].phase == ReadPhase::AwaitApplied {
            let ready = sample.epoch_before >= 1 && sample.applied >= self.pending[i].commit_at
                && sample.epoch_after == sample.epoch_before;
            if ready {
                let client_id: u32 = self.pending[i].client_id;
                let local_seq: u32 = self.pending[i].local_seq;
                let mut query: Vec<u8> = Vec::new();
                std::mem::swap(&mut query, &mut self.pending[i].query);
                assert(self@.pending =~= before.pending.update(
                    i as int,
                    emptied(before.pending[i as int]),
                ));
                return SweepStep::Forward { client_id, local_seq, epoch: sample.epoch_before, query };
            }
        }
        sweep.index = i + 1;
        SweepStep::Parked
    }

    /// The service took the query that the walk offered: the read leaves.
    pub fn forwarded(&mut self, sweep: &Sweep)
        requires
            sweep.index < old(self).pending@.len(),
        ensures
            final(self)@ == after_taken(old(self)@, sweep.index as int),
            old(self)@.wf() ==> final(self)@.wf(),
    {
        let ghost before = self@;
        let _read = self.pending.swap_remove(sweep.index);
        assert(self@.pending =~= taken_out(before.pending, sweep.index as int));
    }

    /// The service's ring was full: the query goes back, and the read stays.
    pub fn forward_refused(&mut self, sweep: &mut Sweep, query: Vec<u8>)
        requires
            old(sweep).index < old(self).pending@.len(),
        ensures
            final(self)@ == after_returned(old(self)@, old(sweep).index as int, query@),
            final(sweep).index == old(sweep).index + 1,
            old(self)@.wf() ==> final(self)@.wf(),
    {
        let i: usize = sweep.index;
        let ghost before = self@;
        self.pending[i].query = query;
        assert(i < self.pending.len());
        sweep.index = i + 1;
        assert(self@.pending =~= before.pending.update(
            i as int,
            ReadV { query: query@, ..before.pending[i as int] },
        ));
    }

    /// End a walk: probe again for a round that is overdue, and issue the
    /// next round if reads still wait. The nonces to probe with.
    pub fn end_sweep(&mut self, ctx: RoundContext) -> (probes: (Option<u64>, Option<u64>))
        requires
            old(self).next_round_seq < u64::MAX,
            old(self).next_nonce < u64::MAX,
            ctx.peers < usize::MAX,
        ensures
            final(self)@ == after_issue(resent(old(self)@, ctx.now_ns), ctx),
            probes.0 == (match old(self)@.round {
                Some(r) => if r.due(ctx.now_ns) {
                    Some(r.nonce)
                } else {
                    None
                },
                None => None,
            }),
            probes.1 == (if issues(old(self)@, ctx) {
                Some(old(self)@.next_nonce)
            } else {
                None
            }),
            old(self)@.wf() ==> final(self)@.wf(),
    {
        let mut retransmit: Option<u64> = None;
        match self.round.take() {
            Some(mut r) => {
                if r.should_retransmit(ctx.now_ns) {
                    r.mark_sent(ctx.now_ns);
                    retransmit = Some(r.nonce);
                }
                self.round = Some(r);
            },
            None => {},
        }
        assert(self@ =~= resent(old(self)@, ctx.now_ns));
        let issued = self.maybe_issue_round(ctx);
        (retransmit, issued)
    }

    /// Void the round in flight: the voters it was issued to have changed.
    /// The reads stay and wait for the next round.
    pub fn void_round(&mut self)
        ensures
            final(self)@ == (BarrierV { round: None, ..old(self)@ }),
            old(self)@.wf() ==> final(self)@.wf(),
    {
        self.round = None;
        assert(self@ =~= (BarrierV { round: None, ..old(self)@ }));
    }

    /// Give every parked read up, in order: nothing can confirm them any
    /// more.
    pub fn retry_all(&mut self) -> (clients: Vec<(u32, u32)>)
        ensures
            final(self)@ == (BarrierV { pending: Seq::empty(), round: None, ..old(self)@ }),
            clients@ == clients_of(old(self)@.pending),
            final(self)@.wf(),
    {
        let mut clients: Vec<(u32, u32)> = Vec::new();
        for i in 0..self.pending.len()
            invariant
                clients@.len() == i,
                forall|j: int|
                    0 <= j < i ==> #[trigger] clients@[j] == (
                        self.pending@[j].client_id,
                        self.pending@[j].local_seq,
                    ),
        {
            clients.push((self.pending[i].client_id, self.pending[i].local_seq));
        }
        assert(clients@ =~= clients_of(self@.pending));
        self.pending = Vec::new();
        self.round = None;
        assert(self@ =~= (BarrierV { pending: Seq::empty(), round: None, ..old(self)@ }));
        clients
    }
}

/// Who asked for the parked reads.
pub open spec fn clients_of(s: Seq<ReadV>) -> Seq<(u32, u32)> {
    s.map_values(|r: ReadV| (r.client_id, r.local_seq))
}

/// The barrier at the start of a walk.
pub open spec fn swept_round(b: BarrierV, can_serve: bool, term: u32) -> BarrierV {
    let keeps = b.pending.len() > 0 && can_serve && b.round is Some && b.round->0.term == term;
    if keeps {
        b
    } else {
        BarrierV { round: None, ..b }
    }
}

/// A read whose query is out for forwarding.
pub open spec fn emptied(r: ReadV) -> ReadV {
    ReadV { query: Seq::empty(), ..r }
}

/// Whether the read is given up: its deadline has passed, or this node cannot
/// serve.
pub open spec fn gives_up(r: ReadV, now_ns: u64, can_serve: bool) -> bool {
    now_ns >= r.deadline_ns || !can_serve
}

/// Whether the read is offered to the service.
pub open spec fn offers(r: ReadV, now_ns: u64, can_serve: bool, s: ServiceSample) -> bool {
    !gives_up(r, now_ns, can_serve) && r.phase == ReadPhase::AwaitApplied && service_ready(
        s,
        r.commit_at,
    )
}

/// The barrier after one step of a walk.
pub open spec fn swept(
    b: BarrierV,
    i: int,
    now_ns: u64,
    can_serve: bool,
    s: ServiceSample,
) -> BarrierV {
    if i >= b.pending.len() {
        b
    } else if gives_up(b.pending[i], now_ns, can_serve) {
        BarrierV { pending: taken_out(b.pending, i), ..b }
    } else if offers(b.pending[i], now_ns, can_serve, s) {
        BarrierV { pending: b.pending.update(i, emptied(b.pending[i])), ..b }
    } else {
        b
    }
}

/// What a step of a walk says.
pub enum StepV {
    Retry { client_id: u32, local_seq: u32 },
    Forward { client_id: u32, local_seq: u32, epoch: u64, query: Seq<u8> },
    Parked,
    Done,
}

/// What a step of a walk says.
pub open spec fn step_view(step: SweepStep) -> StepV {
    match step {
        SweepStep::Retry { client_id, local_seq } => StepV::Retry { client_id, local_seq },
        SweepStep::Forward { client_id, local_seq, epoch, query } => StepV::Forward {
            client_id,
            local_seq,
            epoch,
            query: query@,
        },
        SweepStep::Parked => StepV::Parked,
        SweepStep::Done => StepV::Done,
    }
}

/// The step a walk takes at its `i`-th read.
pub open spec fn sweep_step(
    pending: Seq<ReadV>,
    i: int,
    now_ns: u64,
    can_serve: bool,
    s: ServiceSample,
) -> StepV {
    if i >= pending.len() {
        StepV::Done
    } else {
        let r = pending[i];
        if gives_up(r, now_ns, can_serve) {
            StepV::Retry { client_id: r.client_id, local_seq: r.local_seq }
        } else if offers(r, now_ns, can_serve, s) {
            StepV::Forward {
                client_id: r.client_id,
                local_seq: r.local_seq,
                epoch: s.epoch_before,
                query: r.query,
            }
        } else {
            StepV::Parked
        }
    }
}

/// The barrier after an overdue round was probed for again.
pub open spec fn resent(b: BarrierV, now_ns: u64) -> BarrierV {
    match b.round {
        Some(r) => if r.due(now_ns) {
            BarrierV { round: Some(RoundV { last_send_ns: now_ns, ..r }), ..b }
        } else {
            b
        },
        None => b,
    }
}

/// A read admitted while a round is in flight is not confirmed by it: when
/// that round reaches its quorum the read still waits.
pub proof fn law_mid_round_reads_wait(
    b: BarrierV,
    q: QueryV,
    peers: nat,
    nonce: u64,
    from: NodeId,
    voters: Seq<NodeId>,
)
    requires
        b.wf(),
        b.round is Some,
        q.linearizable,
        peers > 0,
    ensures
        ({
            let after = admitted(b, q, true, peers);
            let read = after.pending.last();
            let acked = after_ack(after, nonce, from, voters);
            &&& read.phase == ReadPhase::AwaitQuorum
            &&& !b.round->0.covers(read.round_seq)
            &&& acked.pending.last() == read
        }),
{
    let after = admitted(b, q, true, peers);
    let r = b.round->0;
    assert(after.pending.last().round_seq == b.next_round_seq);
    assert(majority(peers) >= 2);
    if voters.contains(from) && r.nonce == nonce && r.acked(from).has_quorum() {
        assert(certified(after.pending, r).last() == after.pending.last());
    }
}

/// The round a waiting read needs is the next one issued: it covers every
/// read that waits when it goes out.
pub proof fn law_next_round_covers_waiting_reads(b: BarrierV, ctx: RoundContext)
    requires
        b.wf(),
        issues(b, ctx),
    ensures
        forall|i: int|
            0 <= i < b.pending.len() ==> fresh_round(b, ctx).covers(
                (#[trigger] b.pending[i]).round_seq,
            ),
{
}

/// Probing again reuses the round's number and nonce: it neither widens what
/// the round certifies nor changes who confirmed it.
pub proof fn law_retransmit_never_widens(b: BarrierV, now_ns: u64)
    requires
        b.round is Some,
    ensures
        resent(b, now_ns).round is Some,
        resent(b, now_ns).round->0.seq == b.round->0.seq,
        resent(b, now_ns).round->0.nonce == b.round->0.nonce,
        resent(b, now_ns).round->0.ackers == b.round->0.ackers,
        resent(b, now_ns).pending == b.pending,
{
}

/// A read leaves the wait for a quorum only when the round in flight, by its
/// own nonce, has been confirmed by enough distinct voters (this node among
/// them) and was issued after the read arrived.
pub proof fn law_release_needs_a_quorum(
    b: BarrierV,
    nonce: u64,
    from: NodeId,
    voters: Seq<NodeId>,
    i: int,
)
    requires
        b.wf(),
        0 <= i < b.pending.len(),
        b.pending[i].phase == ReadPhase::AwaitQuorum,
        after_ack(b, nonce, from, voters).pending[i].phase == ReadPhase::AwaitApplied,
    ensures
        b.round is Some,
        b.round->0.nonce == nonce,
        voters.contains(from),
        b.pending[i].round_seq <= b.round->0.seq,
        b.round->0.acked(from).ackers.no_duplicates(),
        b.round->0.acked(from).ackers.len() >= b.round->0.quorum,
{
    let r = b.round->0;
    read_round::law_acks_are_distinct_and_grow(r, from);
}

/// The read index of every read that a round can still certify lies at or
/// below the commit position the round was issued at.
pub open spec fn position_bounded(b: BarrierV) -> bool {
    forall|i: int|
        0 <= i < b.pending.len() && b.round is Some && b.round->0.covers(
            (#[trigger] b.pending[i]).round_seq,
        ) ==> b.pending[i].commit_at <= b.round->0.commit_at_issue
}

/// The ordering of admissions and rounds implies the bound on positions: with
/// a commit position that never moves back, issuing a round establishes it,
/// and neither an admission nor a confirmation breaks it.
pub proof fn law_ordering_implies_position_bound(
    b: BarrierV,
    ctx: RoundContext,
    q: QueryV,
    can_serve: bool,
    peers: nat,
    nonce: u64,
    from: NodeId,
    voters: Seq<NodeId>,
)
    requires
        b.wf(),
        position_bounded(b),
        b.next_round_seq < u64::MAX,
        forall|i: int| 0 <= i < b.pending.len() ==> (#[trigger] b.pending[i]).commit_at <= ctx.commit,
    ensures
        position_bounded(after_issue(b, ctx)),
        position_bounded(admitted(b, q, can_serve, peers)),
        position_bounded(after_ack(b, nonce, from, voters)),
{
    let a = admitted(b, q, can_serve, peers);
    assert forall|i: int|
        0 <= i < a.pending.len() && a.round is Some && a.round->0.covers(
            (#[trigger] a.pending[i]).round_seq,
        ) implies a.pending[i].commit_at <= a.round->0.commit_at_issue by {
        if i < b.pending.len() {
            assert(a.pending[i] == b.pending[i]);
        }
    }
    let k = after_ack(b, nonce, from, voters);
    assert forall|i: int|
        0 <= i < k.pending.len() && k.round is Some && k.round->0.covers(
            (#[trigger] k.pending[i]).round_seq,
        ) implies k.pending[i].commit_at <= k.round->0.commit_at_issue by {
        assert(k.pending[i] == b.pending[i]);
    }
    let s = after_issue(b, ctx);
    assert forall|i: int|
        0 <= i < s.pending.len() && s.round is Some && s.round->0.covers(
            (#[trigger] s.pending[i]).round_seq,
        ) implies s.pending[i].commit_at <= s.round->0.commit_at_issue by {
        assert(s.pending[i].commit_at == b.pending[i].commit_at);
        assert(s.pending[i].round_seq == b.pending[i].round_seq);
    }
}

/// A read is forwarded only under the epoch of an attached service
/// incarnation, never under the sentinel that skips the service's check, and
/// only once that incarnation has applied through the read index.
pub proof fn law_forward_names_a_live_epoch(
    pending: Seq<ReadV>,
    i: int,
    now_ns: u64,
    can_serve: bool,
    s: ServiceSample,
)
    requires
        0 <= i < pending.len(),
    ensures
        sweep_step(pending, i, now_ns, can_serve, s) matches StepV::Forward { epoch, .. } ==> {
            &&& epoch >= 1
            &&& s.applied >= pending[i].commit_at
            &&& pending[i].phase == ReadPhase::AwaitApplied
            &&& can_serve
            &&& now_ns < pending[i].deadline_ns
        },
{
}

/// Where there is another voter, nothing but a quorum's confirmation releases
/// a read: it is parked waiting, and it still waits after a round was issued
/// or probed for again, after a round was dropped, and after a walk passed
/// over it or over another.
pub proof fn law_only_a_quorum_releases(
    b: BarrierV,
    q: QueryV,
    ctx: RoundContext,
    i: int,
    j: int,
    can_serve: bool,
    term: u32,
    s: ServiceSample,
)
    requires
        ctx.peers > 0,
        0 <= i < b.pending.len(),
        b.pending[i].phase == ReadPhase::AwaitQuorum,
    ensures
        q.linearizable ==> admitted(b, q, true, ctx.peers as nat).pending.last().phase
            == ReadPhase::AwaitQuorum,
        admitted(b, q, can_serve, ctx.peers as nat).pending[i] == b.pending[i],
        after_issue(b, ctx).pending == b.pending,
        swept_round(b, can_serve, term).pending == b.pending,
        resent(b, ctx.now_ns).pending == b.pending,
        ({
            let after = swept(b, j, ctx.now_ns, can_serve, s).pending;
            let left = i == j && gives_up(b.pending[i], ctx.now_ns, can_serve);
            0 <= j && !left ==> after.contains(b.pending[i])
        }),
{
    let after = swept(b, j, ctx.now_ns, can_serve, s).pending;
    if 0 <= j < b.pending.len() && gives_up(b.pending[j], ctx.now_ns, can_serve) {
        if i < b.pending.len() - 1 {
            if i != j {
                assert(after[i] == b.pending[i]);
            }
        } else if i != j {
            assert(after[j] == b.pending[i]);
        }
    } else if 0 <= j {
        assert(after[i] == b.pending[i]);
    }
}

/// A round does not outlive the leadership it was issued under: one of
/// another term, or held by a node that cannot serve, is dropped before any
/// read is looked at, and no read is lost or released by that.
pub proof fn law_round_dies_with_its_leadership(b: BarrierV, can_serve: bool, term: u32)
    requires
        b.round is Some,
        !can_serve || b.round->0.term != term,
    ensures
        swept_round(b, can_serve, term).round is None,
        swept_round(b, can_serve, term).pending == b.pending,
{
}

/// A node that cannot serve answers every read a walk reaches with a retry,
/// and lets none through.
pub proof fn law_unserving_node_retries(
    b: BarrierV,
    i: int,
    now_ns: u64,
    s: ServiceSample,
)
    requires
        0 <= i < b.pending.len(),
    ensures
        sweep_step(b.pending, i, now_ns, false, s) == (StepV::Retry {
            client_id: b.pending[i].client_id,
            local_seq: b.pending[i].local_seq,
        }),
        swept(b, i, now_ns, false, s).pending.len() == b.pending.len() - 1,
{
}

/// The reads that a walk at its `i`-th has yet to look at.
pub open spec fn to_visit(pending: Seq<ReadV>, i: int) -> Multiset<ReadV> {
    pending.skip(i).to_multiset()
}

proof fn lemma_taken_out_leaves_the_rest(s: Seq<ReadV>, i: int)
    requires
        0 <= i < s.len(),
    ensures
        to_visit(taken_out(s, i), i) == to_visit(s, i).remove(s[i]),
        to_visit(s, i + 1) == to_visit(s, i).remove(s[i]),
{
    let t = s.skip(i);
    t.to_multiset_ensures();
    assert(t.remove(0) =~= s.skip(i + 1));
    if t.len() == 1 {
        assert(taken_out(s, i).skip(i) =~= t.remove(0));
    } else {
        let middle = t.subrange(1, t.len() - 1);
        assert(t.remove(0) =~= middle + seq![s.last()]);
        assert(taken_out(s, i).skip(i) =~= seq![s.last()] + middle);
        vstd::seq_lib::lemma_multiset_commutative(middle, seq![s.last()]);
        vstd::seq_lib::lemma_multiset_commutative(seq![s.last()], middle);
    }
}

/// A walk looks at every read once and ends. It is done exactly when no read
/// is left to look at. Until then each step, with the report on the query
/// that it offered, strikes one read off those yet to look at, the one it has
/// reached, and leaves the reads before it as they are. A read that is
/// answered or taken leaves the barrier; one that stays, or whose query came
/// back, stays as it was.
pub proof fn law_walk_looks_at_each_read_once(
    b: BarrierV,
    i: int,
    now_ns: u64,
    can_serve: bool,
    s: ServiceSample,
)
    requires
        0 <= i,
    ensures
        ({
            let after = swept(b, i, now_ns, can_serve, s).pending;
            let left = to_visit(b.pending, i).remove(b.pending[i]);
            let step = sweep_step(b.pending, i, now_ns, can_serve, s);
            &&& step is Done <==> i >= b.pending.len()
            &&& match step {
                StepV::Done => after == b.pending,
                StepV::Retry { .. } => {
                    &&& to_visit(after, i) == left
                    &&& after.len() - i == b.pending.len() - i - 1
                    &&& after.take(i) == b.pending.take(i)
                },
                StepV::Parked => {
                    &&& to_visit(after, i + 1) == left
                    &&& after.len() - (i + 1) == b.pending.len() - i - 1
                    &&& after == b.pending
                },
                StepV::Forward { query, .. } => {
                    let gone = taken_out(after, i);
                    let back = after.update(i, ReadV { query, ..after[i] });
                    &&& to_visit(gone, i) == left
                    &&& gone.len() - i == b.pending.len() - i - 1
                    &&& gone.take(i) == b.pending.take(i)
                    &&& to_visit(back, i + 1) == left
                    &&& back.len() - (i + 1) == b.pending.len() - i - 1
                    &&& back == b.pending
                },
            }
        }),
{
    if i < b.pending.len() {
        let after = swept(b, i, now_ns, can_serve, s).pending;
        lemma_taken_out_leaves_the_rest(b.pending, i);
        assert(taken_out(b.pending, i).take(i) =~= b.pending.take(i));
        if offers(b.pending[i], now_ns, can_serve, s) {
            let query = b.pending[i].query;
            assert(after.update(i, ReadV { query, ..after[i] }) =~= b.pending);
            assert(taken_out(after, i) =~= taken_out(b.pending, i));
        }
    }
}

/// A quorum is a strict majority of the voters, this node among them, and the
/// least there is.
pub proof fn law_read_quorum_is_a_strict_majority(peers: nat)
    ensures
        2 * majority(peers) > peers + 1,
        majority(peers) <= peers + 1,
        2 * (majority(peers) - 1) <= peers + 1,
{
}

/// Any two quorums of the same voters have a voter in common, so that a
/// deposed leader finds no quorum beside its successor's.
pub proof fn law_read_quorums_meet(
    voters: Set<NodeId>,
    peers: nat,
    a: Set<NodeId>,
    b: Set<NodeId>,
)
    requires
        voters.finite(),
        voters.len() == peers + 1,
        a.subset_of(voters),
        b.subset_of(voters),
        a.len() >= majority(peers),
        b.len() >= majority(peers),
    ensures
        exists|id: NodeId| a.contains(id) && b.contains(id),
{
    law_read_quorum_is_a_strict_majority(peers);
    vstd::set_lib::lemma_len_subset(a, voters);
    vstd::set_lib::lemma_len_subset(b, voters);
    vstd::set_lib::lemma_set_intersect_union_lens(a, b);
    assert(a.union(b).subset_of(voters));
    vstd::set_lib::lemma_len_subset(a.union(b), voters);
    assert(a.intersect(b).len() > 0);
    let id = a.intersect(b).choose();
    assert(a.intersect(b).contains(id));
}

/// A round is issued exactly where none is in flight, some read waits for a
/// quorum and there is another voter to ask. It needs a strict majority of
/// the voters, starts with this node's own word alone, and carries a number
/// and a nonce that no round before it had and none after it will; no parked
/// read changes. A sole voter is its own majority: its reads are released.
pub proof fn law_round_asks_a_majority(b: BarrierV, ctx: RoundContext, i: int)
    requires
        b.next_round_seq < u64::MAX,
        b.next_nonce < u64::MAX,
    ensures
        ({
            let a = after_issue(b, ctx);
            let asks = b.round is None && (exists|k: int|
                0 <= k < b.pending.len() && (#[trigger] b.pending[k]).phase
                    == ReadPhase::AwaitQuorum);
            &&& issues(b, ctx) <==> asks && ctx.peers >= 1
            &&& asks && ctx.peers >= 1 ==> {
                &&& a.pending == b.pending
                &&& a.round matches Some(r) && {
                    &&& 2 * r.quorum > ctx.peers + 1
                    &&& 2 * (r.quorum - 1) <= ctx.peers + 1
                    &&& r.quorum >= 2
                    &&& r.ackers == seq![ctx.id]
                    &&& r.term == ctx.term && r.commit_at_issue == ctx.commit && r.last_send_ns
                        == ctx.now_ns
                    &&& r.seq == b.next_round_seq && r.seq < a.next_round_seq
                    &&& r.nonce == b.next_nonce && r.nonce < a.next_nonce
                }
            }
            &&& !asks ==> a == b
            &&& asks && ctx.peers == 0 ==> {
                &&& a.round is None && a.next_round_seq == b.next_round_seq && a.next_nonce
                    == b.next_nonce
                &&& a.pending.len() == b.pending.len()
                &&& 0 <= i < b.pending.len() ==> a.pending[i] == (ReadV {
                    phase: ReadPhase::AwaitApplied,
                    ..b.pending[i]
                })
            }
        }),
{
    law_read_quorum_is_a_strict_majority(ctx.peers as nat);
}

/// A snapshot read is handed on as it came, wherever it arrives; a
/// linearizable one is parked by a node that can serve and redirected by any
/// other. It is never answered from here.
pub proof fn law_queries_are_answered_by_their_kind(q: QueryV, can_serve: bool)
    ensures
        !q.linearizable ==> reply_to(q, can_serve) == (ReplyV::Snapshot {
            client_id: q.client_id,
            local_seq: q.local_seq,
            query: q.query,
        }),
        q.linearizable && !can_serve ==> reply_to(q, can_serve) == (ReplyV::NotLeader {
            client_id: q.client_id,
            local_seq: q.local_seq,
        }),
        q.linearizable && can_serve <==> reply_to(q, can_serve) is Parked,
{
}

/// A parked read keeps who asked, what was asked and the commit position it
/// arrived at. It is given up a second later, waits for a round that has yet
/// to be issued, and needs the word of others exactly where there are others.
/// It joins behind the reads that are parked already.
pub proof fn law_parked_read_keeps_its_query(b: BarrierV, q: QueryV, can_serve: bool, peers: nat)
    requires
        q.now_ns + 1_000_000_000 <= u64::MAX,
    ensures
        ({
            let a = admitted(b, q, can_serve, peers);
            &&& a.round == b.round && a.next_round_seq == b.next_round_seq && a.next_nonce
                == b.next_nonce
            &&& !(q.linearizable && can_serve) ==> a.pending == b.pending
            &&& q.linearizable && can_serve ==> {
                let r = a.pending.last();
                &&& a.pending.len() == b.pending.len() + 1
                &&& a.pending.drop_last() == b.pending
                &&& r.client_id == q.client_id && r.local_seq == q.local_seq && r.query == q.query
                &&& r.commit_at == q.commit_at
                &&& r.deadline_ns == q.now_ns + 1_000_000_000
                &&& r.round_seq == b.next_round_seq
                &&& r.phase == ReadPhase::AwaitApplied <==> peers == 0
            }
        }),
{
    let a = admitted(b, q, can_serve, peers);
    if q.linearizable && can_serve {
        assert(a.pending.drop_last() =~= b.pending);
    }
}

/// A run of queries is taken up one after the other.
pub proof fn law_queries_are_taken_up_in_order(
    b: BarrierV,
    qs: Seq<QueryV>,
    q: QueryV,
    can_serve: bool,
    peers: nat,
)
    ensures
        all_admitted(b, Seq::empty(), can_serve, peers) == b,
        all_admitted(b, qs.push(q), can_serve, peers) == admitted(
            all_admitted(b, qs, can_serve, peers),
            q,
            can_serve,
            peers,
        ),
{
    assert(qs.push(q).drop_last() =~= qs);
}

/// Only a voter's word, under the nonce of the round in flight, counts, and
/// each voter's once. Until a quorum has spoken every read stays as it is;
/// when it has, the round is over, and of the reads that waited exactly those
/// that arrived before it was issued wait no more. Nothing else of a read
/// changes.
pub proof fn law_confirmations_count_once(
    b: BarrierV,
    nonce: u64,
    from: NodeId,
    voters: Seq<NodeId>,
    i: int,
)
    ensures
        ({
            let a = after_ack(b, nonce, from, voters);
            let counts = b.round is Some && b.round->0.nonce == nonce && voters.contains(from);
            let r = b.round->0;
            let n: nat = if r.ackers.contains(from) {
                r.ackers.len()
            } else {
                r.ackers.len() + 1
            };
            &&& a.next_round_seq == b.next_round_seq && a.next_nonce == b.next_nonce
            &&& a.pending.len() == b.pending.len()
            &&& !counts ==> a == b
            &&& counts && n < r.quorum ==> {
                &&& a.pending == b.pending
                &&& a.round is Some && a.round->0.ackers.contains(from) && a.round->0.ackers.len()
                    == n
                &&& a.round->0 == (RoundV { ackers: a.round->0.ackers, ..r })
                &&& forall|x: NodeId|
                    x != from ==> (#[trigger] a.round->0.ackers.contains(x) <==> r.ackers.contains(
                        x,
                    ))
            }
            &&& counts && n >= r.quorum ==> {
                &&& a.round is None
                &&& 0 <= i < b.pending.len() ==> a.pending[i] == (if b.pending[i].round_seq <= r.seq
                    && b.pending[i].phase == ReadPhase::AwaitQuorum {
                    ReadV { phase: ReadPhase::AwaitApplied, ..b.pending[i] }
                } else {
                    b.pending[i]
                })
            }
        }),
{
    let r = b.round->0;
    if b.round is Some && !r.ackers.contains(from) {
        let p = r.ackers.push(from);
        assert(p[p.len() - 1] == from);
        assert forall|x: NodeId| x != from implies (#[trigger] p.contains(x) <==> r.ackers.contains(
            x,
        )) by {
            if p.contains(x) {
                let k = choose|k: int| 0 <= k < p.len() && p[k] == x;
                assert(r.ackers[k] == x);
            }
            if r.ackers.contains(x) {
                let k = choose|k: int| 0 <= k < r.ackers.len() && r.ackers[k] == x;
                assert(p[k] == x);
            }
        }
    }
}

/// The service may be asked exactly where one attached incarnation, the same
/// before and after its progress was read, has applied through the read
/// index.
pub proof fn law_service_has_applied_the_index(s: ServiceSample, commit_at: u64)
    ensures
        service_ready(s, commit_at) <==> s.epoch_before != 0 && s.epoch_before == s.epoch_after
            && commit_at <= s.applied,
{
}

/// What a walk does with the read it has reached: past its deadline, or on a
/// node that cannot serve, the client that asked is told to retry; with its
/// quorum and the service ready, the query goes to the service as it came,
/// under the incarnation that was seen; otherwise the read stays.
pub proof fn law_walk_answers_who_asked(
    pending: Seq<ReadV>,
    i: int,
    now_ns: u64,
    can_serve: bool,
    s: ServiceSample,
)
    requires
        0 <= i < pending.len(),
    ensures
        ({
            let r = pending[i];
            let late = now_ns >= r.deadline_ns || !can_serve;
            let ready = r.phase == ReadPhase::AwaitApplied && s.epoch_before >= 1 && s.epoch_after
                == s.epoch_before && s.applied >= r.commit_at;
            let step = sweep_step(pending, i, now_ns, can_serve, s);
            &&& late ==> step == (StepV::Retry { client_id: r.client_id, local_seq: r.local_seq })
            &&& !late && ready ==> step == (StepV::Forward {
                client_id: r.client_id,
                local_seq: r.local_seq,
                epoch: s.epoch_before,
                query: r.query,
            })
            &&& !late && !ready ==> step is Parked
        }),
{
}

/// A round in flight goes on exactly while reads are parked, this node can
/// serve and its term is the round's; no counter moves back with it.
pub proof fn law_round_lives_while_it_can_confirm(b: BarrierV, can_serve: bool, term: u32)
    ensures
        ({
            let a = swept_round(b, can_serve, term);
            let lives = b.pending.len() > 0 && can_serve && b.round is Some && b.round->0.term
                == term;
            &&& lives ==> a == b
            &&& !lives ==> a.round is None
            &&& a.pending == b.pending
            &&& a.next_round_seq == b.next_round_seq && a.next_nonce == b.next_nonce
        }),
{
}

/// A probe goes out again two milliseconds after it last did, and then no
/// sooner again.
pub proof fn law_probes_are_spaced(b: BarrierV, now_ns: u64, then_ns: u64)
    ensures
        b.round is None ==> resent(b, now_ns) == b,
        b.round matches Some(r) ==> {
            let due = now_ns - r.last_send_ns >= 2_000_000;
            let a = resent(b, now_ns).round->0;
            &&& r.due(now_ns) <==> due
            &&& due ==> a == (RoundV { last_send_ns: now_ns, ..r })
            &&& !due ==> resent(b, now_ns) == b
            &&& due && then_ns - now_ns < 2_000_000 ==> !a.due(then_ns)
        },
        resent(b, now_ns).next_round_seq == b.next_round_seq,
        resent(b, now_ns).next_nonce == b.next_nonce,
{
}

/// Whoever asked for a parked read is found again by its place.
pub proof fn law_clients_are_in_order(s: Seq<ReadV>, i: int)
    requires
        0 <= i < s.len(),
    ensures
        clients_of(s).len() == s.len(),
        clients_of(s)[i].0 == s[i].client_id,
        clients_of(s)[i].1 == s[i].local_seq,
{
}

/// A query, and a parked read, say all of what they were made of.
pub proof fn law_reads_say_what_they_hold(r: PendingRead, q: QueryRecord)
    ensures
        r@.client_id == r.client_id && r@.local_seq == r.local_seq && r@.query == r.query@,
        r@.round_seq == r.round_seq && r@.commit_at == r.commit_at,
        r@.deadline_ns == r.deadline_ns && r@.phase == r.phase,
        q@.client_id == q.client_id && q@.local_seq == q.local_seq && q@.query == q.query@,
        q@.linearizable == q.linearizable && q@.commit_at == q.commit_at && q@.now_ns == q.now_ns,
{
}

/// A walk changes the parked reads alone, and of a read that it offers only
/// that the query is out.
pub proof fn law_walk_touches_only_the_reads(
    b: BarrierV,
    i: int,
    now_ns: u64,
    can_serve: bool,
    s: ServiceSample,
)
    requires
        0 <= i < b.pending.len(),
    ensures
        ({
            let a = swept(b, i, now_ns, can_serve, s);
            &&& a.round == b.round && a.next_round_seq == b.next_round_seq && a.next_nonce
                == b.next_nonce
            &&& sweep_step(b.pending, i, now_ns, can_serve, s) is Forward ==> a.pending.len()
                == b.pending.len() && a.pending[i] == (ReadV {
                query: Seq::empty(),
                ..b.pending[i]
            })
        }),
{
}

/// The barrier says every read it holds, in order, and the round in flight;
/// a step says whom it is for.
pub proof fn law_barrier_says_what_it_holds(
    b: ReadBarrier,
    i: int,
    r: ProbeRound,
    client_id: u32,
    local_seq: u32,
    epoch: u64,
    query: Vec<u8>,
)
    ensures
        b@.pending.len() == b.pending@.len(),
        0 <= i < b.pending@.len() ==> b@.pending[i] == b.pending@[i]@,
        b.round is None <==> b@.round is None,
        b.round == Some(r) ==> b@.round == Some(r@),
        b@.next_round_seq == b.next_round_seq && b@.next_nonce == b.next_nonce,
        step_view(SweepStep::Retry { client_id, local_seq }) == (StepV::Retry {
            client_id,
            local_seq,
        }),
        step_view(SweepStep::Forward { client_id, local_seq, epoch, query }) == (StepV::Forward {
            client_id,
            local_seq,
            epoch,
            query: query@,
        }),
        step_view(SweepStep::Parked) is Parked,
        step_view(SweepStep::Done) is Done,
        (QueryReply::Snapshot { client_id, local_seq, query })@ == (ReplyV::Snapshot {
            client_id,
            local_seq,
            query: query@,
        }),
        (QueryReply::NotLeader { client_id, local_seq })@ == (ReplyV::NotLeader {
            client_id,
            local_seq,
        }),
        QueryReply::Parked@ is Parked,
{
}

/// The barrier after the service took the query of the `i`-th read.
pub open spec fn after_taken(b: BarrierV, i: int) -> BarrierV {
    BarrierV { pending: taken_out(b.pending, i), ..b }
}

/// The barrier after the query of the `i`-th read came back.
pub open spec fn after_returned(b: BarrierV, i: int, query: Seq<u8>) -> BarrierV {
    BarrierV { pending: b.pending.update(i, ReadV { query, ..b.pending[i] }), ..b }
}

/// A read whose query was taken leaves, and only that one; one whose query
/// came back has it again and stays where it was, as it was. Nothing else of
/// the barrier changes.
pub proof fn law_offered_read_leaves_or_stays(b: BarrierV, i: int, query: Seq<u8>, j: int)
    requires
        0 <= i < b.pending.len(),
    ensures
        after_taken(b, i).pending.to_multiset() == b.pending.to_multiset().remove(b.pending[i]),
        after_taken(b, i) == (BarrierV { pending: after_taken(b, i).pending, ..b }),
        after_returned(b, i, query) == (BarrierV {
            pending: after_returned(b, i, query).pending,
            ..b
        }),
        after_returned(b, i, query).pending.len() == b.pending.len(),
        after_returned(b, i, query).pending[i] == (ReadV { query, ..b.pending[i] }),
        0 <= j < b.pending.len() && j != i ==> after_returned(b, i, query).pending[j]
            == b.pending[j],
{
    let s = b.pending;
    let t = taken_out(s, i);
    s.to_multiset_ensures();
    vstd::seq_lib::to_multiset_update(s, i, s.last());
    let u = s.update(i, s.last());
    u.to_multiset_ensures();
    assert(u.last() == s.last());
    assert(u.remove(u.len() - 1) =~= t);
    assert(u.to_multiset() =~= s.to_multiset().insert(s.last()).remove(s[i]));
    assert(t.to_multiset() =~= u.to_multiset().remove(s.last()));
    assert(s.contains(s[i]));
    assert(s.to_multiset().count(s[i]) > 0);
    assert(t.to_multiset() =~= s.to_multiset().remove(s[i]));
}

} // verus!
