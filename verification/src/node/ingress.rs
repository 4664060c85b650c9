//! Ingress: the admission door, the embedded queue, the client ring, and
//! what a stopping node reports.

use vstd::bytes::u64_to_le_bytes;
use vstd::prelude::*;

verus! {

/// How many records one cycle takes from each ingress source.
pub const INGRESS_PER_CYCLE: usize = 256;

/// Depth of the embedded ingress queue.
pub const INGRESS_CAPACITY: usize = 8192;

/// Whether the unconfirmed backlog `append - commit` is within `budget`.
pub open spec fn door_open(append: u64, commit: u64, budget: u64) -> bool {
    append - commit <= budget
}

/// The admission door. A commit read ahead of the append counter leaves it
/// open.
pub fn admission_open(append: u64, commit: u64, budget: u64) -> (open: bool)
    ensures
        open == door_open(append, commit, budget),
{
    append.saturating_sub(commit) <= budget
}

/// Why a submission was refused.
#[derive(Debug, Clone, Copy, PartialEq, Eq, Structural)]
pub enum SubmitError {
    /// This node is not a serving leader.
    NotServing,
    /// The queue is full or the admission door is closed: back off and retry.
    Full,
}

impl SubmitError {
    /// What the refusal says.
    pub open spec fn text(self) -> Seq<char> {
        match self {
            SubmitError::NotServing => "node is not a serving leader"@,
            SubmitError::Full => "ingress queue is full"@,
        }
    }

    /// What the refusal says.
    pub fn message(self) -> (s: String)
        ensures
            s@ == self.text(),
    {
        match self {
            SubmitError::NotServing => "node is not a serving leader".to_owned(),
            SubmitError::Full => "ingress queue is full".to_owned(),
        }
    }
}

/// What the bounded queue said to an offered payload.
#[derive(Debug, Clone, Copy, PartialEq, Eq, Structural)]
pub enum QueueOffer {
    Accepted,
    Full,
    Disconnected,
}

/// Whether a payload may be offered to the queue.
pub fn submit_admitted(can_serve: bool, append: u64, commit: u64, budget: u64) -> (r: Result<
    (),
    SubmitError,
>)
    ensures
        r == refused_or_done(refuses(can_serve, append, commit, budget)),
{
    if !can_serve {
        return Err(SubmitError::NotServing);
    }
    if !admission_open(append, commit, budget) {
        return Err(SubmitError::Full);
    }
    Ok(())
}

/// What a submission comes to once the queue has answered.
pub fn submit_result(offer: QueueOffer) -> (r: Result<(), SubmitError>)
    ensures
        r == refused_or_done(declined(offer)),
{
    match offer {
        QueueOffer::Accepted => Ok(()),
        QueueOffer::Full => Err(SubmitError::Full),
        QueueOffer::Disconnected => Err(SubmitError::NotServing),
    }
}

/// What the leader's appender said to one payload.
#[derive(Debug, Clone, Copy, PartialEq, Eq, Structural)]
pub enum AppendOutcome {
    Appended,
    /// The log buffer has no room at the moment.
    WouldOverrun,
    /// A client contract violation: the payload is dropped, so that it does
    /// not wedge what is behind it.
    PayloadTooLarge,
    /// No term is open for appending.
    NoAppender,
}

/// Whether the payload is done with.
pub open spec fn consumed(o: AppendOutcome) -> bool {
    o is Appended || o is PayloadTooLarge
}

/// Whether the payload is done with.
pub fn is_consumed(o: AppendOutcome) -> (r: bool)
    ensures
        r == consumed(o),
{
    match o {
        AppendOutcome::Appended => true,
        AppendOutcome::PayloadTooLarge => true,
        AppendOutcome::WouldOverrun => false,
        AppendOutcome::NoAppender => false,
    }
}

/// What a drain does next.
#[derive(Debug, Clone, Copy, PartialEq, Eq, Structural)]
pub enum DrainAction {
    /// Append what is in hand.
    Append,
    /// Take the next record.
    Take,
    Done,
}

/// The embedded ingress queue's drain.
#[derive(Debug)]
pub struct QueueDrain {
    /// Taken and not appended yet; kept from one cycle to the next.
    pub held: Option<Vec<u8>>,
    /// The correlation id of the next append.
    pub next_corr: u64,
    /// How many were taken this cycle.
    pub taken: usize,
    pub did: bool,
    pub done: bool,
}

impl QueueDrain {
    /// Nothing held.
    pub fn boot() -> (d: QueueDrain)
        ensures
            d.held is None,
            d.next_corr == 0,
            d.taken == 0,
            !d.did,
            !d.done,
    {
        QueueDrain { held: None, next_corr: 0, taken: 0, did: false, done: false }
    }

    /// Start a cycle.
    pub fn begin(&mut self)
        ensures
            *final(self) == (QueueDrain { taken: 0, did: false, done: false, ..*old(self) }),
    {
        self.taken = 0;
        self.did = false;
        self.done = false;
    }

    /// What comes next: a held payload before anything new.
    pub open spec fn action(self) -> DrainAction {
        if self.done {
            DrainAction::Done
        } else if self.held is Some {
            DrainAction::Append
        } else if self.taken < INGRESS_PER_CYCLE {
            DrainAction::Take
        } else {
            DrainAction::Done
        }
    }

    /// What comes next.
    pub fn next(&self) -> (a: DrainAction)
        ensures
            a == self.action(),
    {
        if self.done {
            DrainAction::Done
        } else if self.held.is_some() {
            DrainAction::Append
        } else if self.taken < INGRESS_PER_CYCLE {
            DrainAction::Take
        } else {
            DrainAction::Done
        }
    }

    /// The queue gave a payload, or was empty.
    pub fn took(&mut self, payload: Option<Vec<u8>>)
        requires
            old(self).action() is Take,
        ensures
            *final(self) == old(self).after_take(payload),
    {
        match payload {
            Some(p) => {
                self.held = Some(p);
                self.taken = self.taken + 1;
            },
            None => {
                self.done = true;
            },
        }
    }

    /// The appender was offered what is held, under session 0 and
    /// `next_corr`.
    pub fn appended(&mut self, o: AppendOutcome)
        requires
            old(self).action() is Append,
            old(self).next_corr < u64::MAX,
        ensures
            *final(self) == old(self).after_append(o),
    {
        if is_consumed(o) {
            self.held = None;
            self.next_corr = self.next_corr + 1;
            self.did = true;
        } else {
            self.done = true;
        }
    }
}

/// A record off the client ring.
#[derive(Debug)]
pub struct RingRecord {
    pub client_id: u32,
    pub local_seq: u32,
    pub payload: Vec<u8>,
}

/// Whom to answer that this node does not lead.
#[derive(Debug, Clone, Copy, PartialEq, Eq, Structural)]
pub struct NotLeader {
    pub client_id: u32,
    pub local_seq: u32,
}

/// The client ring's drain.
#[derive(Debug)]
pub struct RingDrain {
    /// Taken and not appended yet; kept until this node serves.
    pub held: Option<RingRecord>,
    pub serving: bool,
    /// How many were taken this cycle.
    pub taken: usize,
    pub did: bool,
    pub done: bool,
}

impl RingDrain {
    /// Nothing held.
    pub fn boot() -> (d: RingDrain)
        ensures
            d.held is None,
            !d.serving,
            d.taken == 0,
            !d.did,
            !d.done,
    {
        RingDrain { held: None, serving: false, taken: 0, did: false, done: false }
    }

    /// Start a cycle.
    pub fn begin(&mut self, serving: bool)
        ensures
            *final(self) == (RingDrain { serving, taken: 0, did: false, done: false, ..*old(self) }),
    {
        self.serving = serving;
        self.taken = 0;
        self.did = false;
        self.done = false;
    }

    /// What comes next: a held record before anything new, and nothing new
    /// past a closed door. A node that does not serve keeps what is held and
    /// passes the rest on.
    pub open spec fn action(self, append: u64, commit: u64, budget: u64) -> DrainAction {
        if self.done {
            DrainAction::Done
        } else if self.serving && self.held is Some {
            DrainAction::Append
        } else if self.taken >= INGRESS_PER_CYCLE {
            DrainAction::Done
        } else if self.serving && !door_open(append, commit, budget) {
            DrainAction::Done
        } else {
            DrainAction::Take
        }
    }

    /// What comes next.
    pub fn next(&self, append: u64, commit: u64, budget: u64) -> (a: DrainAction)
        ensures
            a == self.action(append, commit, budget),
    {
        if self.done {
            DrainAction::Done
        } else if self.serving && self.held.is_some() {
            DrainAction::Append
        } else if self.taken >= INGRESS_PER_CYCLE {
            DrainAction::Done
        } else if self.serving && !admission_open(append, commit, budget) {
            DrainAction::Done
        } else {
            DrainAction::Take
        }
    }

    /// The ring gave a record, or nothing that could be read. A node that
    /// does not serve answers the record instead of appending it.
    pub fn took(&mut self, record: Option<RingRecord>) -> (answer: Option<NotLeader>)
        requires
            !old(self).done,
            old(self).taken < INGRESS_PER_CYCLE,
            !(old(self).serving && old(self).held is Some),
        ensures
            answer == old(self).redirect(record),
            *final(self) == old(self).after_take(record),
    {
        match record {
            None => {
                self.done = true;
                None
            },
            Some(r) => {
                self.taken = self.taken + 1;
                if self.serving {
                    self.held = Some(r);
                    None
                } else {
                    self.did = true;
                    Some(NotLeader { client_id: r.client_id, local_seq: r.local_seq })
                }
            },
        }
    }

    /// The appender was offered the held record, under the client's own id
    /// and sequence number.
    pub fn appended(&mut self, o: AppendOutcome)
        requires
            !old(self).done,
            old(self).serving,
            old(self).held is Some,
        ensures
            *final(self) == old(self).after_append(o),
    {
        if is_consumed(o) {
            self.held = None;
            self.did = true;
        } else {
            self.done = true;
        }
    }
}

/// A query forwarded to the service: the epoch that it was admitted under,
/// eight bytes with the lowest first, then the query. Epoch 0 skips the
/// service's epoch check.
pub fn svc_query_payload(expected_epoch: u64, query: &Vec<u8>) -> (payload: Vec<u8>)
    ensures
        payload@ == svc_payload(expected_epoch, query@),
{
    let mut payload = u64_to_le_bytes(expected_epoch);
    let mut i: usize = 0;
    while i < query.len()
        invariant
            i <= query.len(),
            payload@ == vstd::bytes::spec_u64_to_le_bytes(expected_epoch) + query@.take(i as int),
        decreases query.len() - i,
    {
        payload.push(query[i]);
        i = i + 1;
        assert(payload@ =~= vstd::bytes::spec_u64_to_le_bytes(expected_epoch) + query@.take(i as int));
    }
    assert(query@.take(i as int) =~= query@);
    payload
}

/// What a drain achieved before the node stopped.
#[derive(Debug, Clone, Copy, PartialEq, Eq, Structural)]
pub enum DrainOutcome {
    /// Every appended byte is recorded.
    Drained,
    /// The deadline expired first.
    DeadlineExpired { append: u64, durable: u64 },
}

/// Whether a draining node can stop now, and with what outcome.
pub fn drain_poll(append: u64, durable: u64, expired: bool) -> (r: Option<DrainOutcome>)
    ensures
        r == drain_outcome(append, durable, expired),
{
    if durable >= append {
        Some(DrainOutcome::Drained)
    } else if expired {
        Some(DrainOutcome::DeadlineExpired { append, durable })
    } else {
        None
    }
}

/// The sum of counters.
pub open spec fn total(counts: Seq<u64>) -> int
    decreases counts.len(),
{
    if counts.len() == 0 {
        0
    } else {
        total(counts.drop_last()) + counts.last()
    }
}

proof fn lemma_total_grows(counts: Seq<u64>, n: int)
    requires
        0 <= n <= counts.len(),
    ensures
        0 <= total(counts.take(n)) <= total(counts),
    decreases counts.len(),
{
    if n == counts.len() {
        assert(counts.take(n) =~= counts);
        if counts.len() > 0 {
            lemma_total_grows(counts.drop_last(), n - 1);
            assert(counts.drop_last().take(n - 1) =~= counts.drop_last());
        }
    } else {
        lemma_total_grows(counts.drop_last(), n);
        assert(counts.drop_last().take(n) =~= counts.take(n));
    }
}

/// Events dropped because the consensus agent's channel was full, over all
/// kinds.
pub fn net_event_drops(by_kind: &Vec<u64>) -> (sum: u64)
    requires
        total(by_kind@) <= u64::MAX,
    ensures
        sum == total(by_kind@),
{
    let mut sum: u64 = 0;
    let mut i: usize = 0;
    while i < by_kind.len()
        invariant
            i <= by_kind.len(),
            sum == total(by_kind@.take(i as int)),
            total(by_kind@) <= u64::MAX,
        decreases by_kind.len() - i,
    {
        proof {
            lemma_total_grows(by_kind@, i + 1);
            assert(by_kind@.take(i + 1).drop_last() =~= by_kind@.take(i as int));
        }
        sum = sum + by_kind[i];
        i = i + 1;
    }
    assert(by_kind@.take(i as int) =~= by_kind@);
    sum
}

/// A payload held back is offered again before any newer one is taken, in
/// this cycle and in the next.
pub proof fn law_held_payload_goes_first(d: QueueDrain)
    requires
        d.held is Some,
    ensures
        !(d.action() is Take),
        (QueueDrain { taken: 0, did: false, done: false, ..d }).action() is Append,
{
}

/// While serving, a held record is offered before any newer one is taken;
/// nothing is taken past a closed door; and a cycle takes no more than its
/// bound.
pub proof fn law_ring_drain_is_bounded(d: RingDrain, append: u64, commit: u64, budget: u64)
    requires
        d.action(append, commit, budget) is Take,
    ensures
        d.serving ==> d.held is None && append - commit <= budget,
        d.taken < INGRESS_PER_CYCLE,
{
}

/// Why a payload may not be offered to the queue, if it may not.
pub open spec fn refuses(can_serve: bool, append: u64, commit: u64, budget: u64) -> Option<
    SubmitError,
> {
    if !can_serve {
        Some(SubmitError::NotServing)
    } else if !door_open(append, commit, budget) {
        Some(SubmitError::Full)
    } else {
        None
    }
}

/// Why a payload that was offered did not go in, if it did not.
pub open spec fn declined(offer: QueueOffer) -> Option<SubmitError> {
    match offer {
        QueueOffer::Accepted => None,
        QueueOffer::Full => Some(SubmitError::Full),
        QueueOffer::Disconnected => Some(SubmitError::NotServing),
    }
}

/// What a submission comes to, given why it was refused.
pub open spec fn refused_or_done(e: Option<SubmitError>) -> Result<(), SubmitError> {
    match e {
        Some(e) => Err(e),
        None => Ok(()),
    }
}

impl QueueDrain {
    /// The drain after the queue gave a payload, or was empty.
    pub open spec fn after_take(self, payload: Option<Vec<u8>>) -> QueueDrain {
        match payload {
            Some(_) => QueueDrain { held: payload, taken: (self.taken + 1) as usize, ..self },
            None => QueueDrain { done: true, ..self },
        }
    }

    /// The drain after what is held was offered to the appender.
    pub open spec fn after_append(self, o: AppendOutcome) -> QueueDrain {
        if consumed(o) {
            QueueDrain {
                held: None,
                next_corr: (self.next_corr + 1) as u64,
                did: true,
                ..self
            }
        } else {
            QueueDrain { done: true, ..self }
        }
    }
}

impl RingDrain {
    /// The drain after the ring gave a record, or nothing.
    pub open spec fn after_take(self, record: Option<RingRecord>) -> RingDrain {
        match record {
            Some(r) => if self.serving {
                RingDrain { held: record, taken: (self.taken + 1) as usize, ..self }
            } else {
                RingDrain { taken: (self.taken + 1) as usize, did: true, ..self }
            },
            None => RingDrain { done: true, ..self },
        }
    }

    /// Whom to answer that this node does not lead.
    pub open spec fn redirect(self, record: Option<RingRecord>) -> Option<NotLeader> {
        match record {
            Some(r) => if self.serving {
                None
            } else {
                Some(NotLeader { client_id: r.client_id, local_seq: r.local_seq })
            },
            None => None,
        }
    }

    /// The drain after the held record was offered to the appender.
    pub open spec fn after_append(self, o: AppendOutcome) -> RingDrain {
        if consumed(o) {
            RingDrain { held: None, did: true, ..self }
        } else {
            RingDrain { done: true, ..self }
        }
    }
}

/// A query as it is forwarded to the service.
pub open spec fn svc_payload(expected_epoch: u64, query: Seq<u8>) -> Seq<u8> {
    vstd::bytes::spec_u64_to_le_bytes(expected_epoch) + query
}

/// With what outcome a draining node can stop now, if it can.
pub open spec fn drain_outcome(append: u64, durable: u64, expired: bool) -> Option<DrainOutcome> {
    if durable >= append {
        Some(DrainOutcome::Drained)
    } else if expired {
        Some(DrainOutcome::DeadlineExpired { append, durable })
    } else {
        None
    }
}

/// The door is open exactly while the bytes that are appended and not
/// committed are within the budget; a commit ahead of the append leaves it
/// open.
pub proof fn law_door_bounds_the_backlog(append: u64, commit: u64, budget: u64)
    ensures
        door_open(append, commit, budget) <==> append <= commit + budget,
        append <= commit ==> door_open(append, commit, budget),
{
}

/// A payload is offered exactly by a node that serves and has the door open;
/// it is accepted exactly where the queue took it. A node that does not serve
/// says so, and a full queue or a closed door asks to back off.
pub proof fn law_submissions_say_why_not(
    can_serve: bool,
    append: u64,
    commit: u64,
    budget: u64,
    offer: QueueOffer,
)
    ensures
        refuses(can_serve, append, commit, budget) is None <==> can_serve && append <= commit
            + budget,
        !can_serve ==> refuses(can_serve, append, commit, budget) == Some(SubmitError::NotServing),
        can_serve && append > commit + budget ==> refuses(can_serve, append, commit, budget)
            == Some(SubmitError::Full),
        declined(offer) is None <==> offer is Accepted,
        offer is Full ==> declined(offer) == Some(SubmitError::Full),
        offer is Disconnected ==> declined(offer) == Some(SubmitError::NotServing),
        refused_or_done(declined(offer)) is Ok <==> offer is Accepted,
        refused_or_done(refuses(can_serve, append, commit, budget)) is Ok <==> can_serve && append
            <= commit + budget,
        declined(offer) matches Some(e) ==> refused_or_done(declined(offer)) == Err::<(), _>(e),
{
}

/// A payload is done with exactly where it is in the log or can never be.
pub proof fn law_only_a_settled_payload_is_dropped(o: AppendOutcome)
    ensures
        consumed(o) <==> o == AppendOutcome::Appended || o == AppendOutcome::PayloadTooLarge,
{
}

/// No payload is lost on the way from the queue to the log: what is taken is
/// held, as it came, and stays held until it is settled. Each settled one uses
/// up one correlation id. A cycle takes 256 at most.
pub proof fn law_queued_payloads_are_not_lost(d: QueueDrain, payload: Vec<u8>, o: AppendOutcome)
    requires
        d.taken < usize::MAX,
        d.next_corr < u64::MAX,
    ensures
        ({
            let t = d.after_take(Some(payload));
            &&& t.held == Some(payload) && t.taken == d.taken + 1
            &&& t.next_corr == d.next_corr && t.did == d.did && t.done == d.done
        }),
        d.after_take(None).done && d.after_take(None) == (QueueDrain { done: true, ..d }),
        ({
            let a = d.after_append(o);
            let settled = o is Appended || o is PayloadTooLarge;
            &&& settled ==> a.held is None && a.next_corr == d.next_corr + 1 && a.did && a.done
                == d.done
            &&& !settled ==> a.held == d.held && a.next_corr == d.next_corr && a.done && a.did
                == d.did
            &&& a.taken == d.taken
        }),
        d.action() is Take <==> !d.done && d.held is None && d.taken < 256,
        d.action() is Append <==> !d.done && d.held is Some,
{
}

/// No record of the ring is lost either: a serving node holds what it takes
/// until it is settled, and any other answers whoever sent it that it does not
/// lead. What is held outlives a cycle in which this node does not serve.
pub proof fn law_ring_records_are_held_or_answered(
    d: RingDrain,
    record: RingRecord,
    o: AppendOutcome,
    append: u64,
    commit: u64,
    budget: u64,
)
    requires
        d.taken < usize::MAX,
    ensures
        ({
            let t = d.after_take(Some(record));
            &&& t.taken == d.taken + 1 && t.serving == d.serving && t.done == d.done
            &&& d.serving ==> t.held == Some(record) && d.redirect(Some(record)) is None && t.did
                == d.did
            &&& !d.serving ==> t.held == d.held && t.did && (d.redirect(Some(record)) matches Some(n)
                && n.client_id == record.client_id && n.local_seq == record.local_seq)
        }),
        d.after_take(None) == (RingDrain { done: true, ..d }),
        d.redirect(None) is None,
        ({
            let a = d.after_append(o);
            let settled = o is Appended || o is PayloadTooLarge;
            &&& settled ==> a.held is None && a.did && a.done == d.done
            &&& !settled ==> a.held == d.held && a.done && a.did == d.did
            &&& a.taken == d.taken && a.serving == d.serving
        }),
        d.action(append, commit, budget) is Append <==> !d.done && d.serving && d.held is Some,
        d.action(append, commit, budget) is Take <==> !d.done && d.taken < 256 && (d.serving
            ==> d.held is None && append <= commit + budget),
{
}

/// A forwarded query begins with its epoch, which reads back, and goes on as
/// it came.
pub proof fn law_forwarded_query_reads_back(expected_epoch: u64, query: Seq<u8>)
    ensures
        svc_payload(expected_epoch, query).len() == query.len() + 8,
        vstd::bytes::spec_u64_from_le_bytes(svc_payload(expected_epoch, query).take(8))
            == expected_epoch,
        svc_payload(expected_epoch, query).skip(8) == query,
{
    vstd::bytes::lemma_auto_spec_u64_to_from_le_bytes();
    let p = svc_payload(expected_epoch, query);
    let e = vstd::bytes::spec_u64_to_le_bytes(expected_epoch);
    assert(e.len() == 8);
    assert(p.take(8) =~= e);
    assert(p.skip(8) =~= query);
}

/// A node reports that it has drained exactly where all it appended is
/// durable, gives up only at its deadline, and then says how far it came.
pub proof fn law_drain_ends_durable_or_late(append: u64, durable: u64, expired: bool)
    ensures
        drain_outcome(append, durable, expired) == Some(DrainOutcome::Drained) <==> append
            <= durable,
        durable < append && expired ==> drain_outcome(append, durable, expired) == Some(
            DrainOutcome::DeadlineExpired { append, durable },
        ),
        durable < append && !expired ==> drain_outcome(append, durable, expired) is None,
{
}

/// A sum counts every counter once.
pub proof fn law_total_counts_each_once(counts: Seq<u64>, n: u64)
    ensures
        total(Seq::empty()) == 0,
        total(counts.push(n)) == total(counts) + n,
{
    assert(counts.push(n).drop_last() =~= counts);
}

} // verus!
