//! Admin requests: who may ask, what is answered, and how an answer finds its
//! way back through a leader.

use crate::audit::AuditOrigin;
use crate::node::cluster;
use crate::node::cluster::{Addr, ConfigOp, Member, NodeId, id_for, wire_to_config_op};
use crate::node::effects;
use crate::node::effects::{
    AdminAnswer, AnswerTo, AnswerV, AuditedReq, Body, Effect, EffectV, Effects, NodeEvent, Plain,
};
use crate::node::gate;
use crate::node::gate::bump;
use crate::text;
use crate::text::{push_addr, push_decimal};
use vstd::prelude::*;
use vstd::string::StringExecFns;

verus! {

/// A malformed or unknown op field.
pub const REASON_MALFORMED_OP: u32 = 11;

/// Signatures are required and the request carried none.
pub const REASON_AUTH_MISSING: u32 = 20;

/// The signature does not verify over this request.
pub const REASON_AUTH_BAD_TAG: u32 = 21;

/// The signature's expiry is past, or implausibly far in the future.
pub const REASON_AUTH_EXPIRED: u32 = 22;

/// The signature names a key that this node does not hold.
pub const REASON_AUTH_UNKNOWN_KEY: u32 = 23;

/// The answer could not be recorded. It does not say that nothing happened.
pub const REASON_AUDIT_FAILED: u32 = 24;

/// Whom a request that failed authentication is recorded under.
pub const ACTOR_UNVERIFIED: &'static str = "unverified";

/// A request on this node's admin band.
#[derive(Debug, Clone, Copy, PartialEq, Eq)]
pub struct AdminReq {
    pub seq: u64,
    pub nonce: u64,
    pub op: u32,
    pub id: NodeId,
    pub ip: u32,
    pub port: u16,
}

/// The signature line that accompanies a request, apart from the tag itself.
#[derive(Debug, Clone, Copy, PartialEq, Eq)]
pub struct AdminAuth {
    /// Nothing was written on the line.
    pub zero: bool,
    pub expiry_ns: u64,
    pub key_name_hash: u64,
}

/// A key that may sign requests.
#[derive(Debug)]
pub struct AdminKey {
    pub name: String,
    pub name_hash: u64,
}

/// How requests are authenticated.
#[derive(Debug)]
pub enum AdminPolicy {
    /// The instance directory's permissions are the boundary; the signature
    /// line is not read.
    Filesystem,
    /// Signed by one of these keys, valid for `ttl_ns`.
    Hmac { keys: Vec<AdminKey>, ttl_ns: u128 },
}

/// What a signature is computed over. The application and the instance are
/// those this node booted with.
#[derive(Debug)]
pub struct AdminMessage {
    pub app_id: String,
    pub instance_id: u128,
    pub seq: u64,
    pub nonce: u64,
    pub op: u32,
    pub id: NodeId,
    pub ip: u32,
    pub port: u16,
    pub expiry_ns: u64,
}

/// The message that a request's signature has to verify over.
pub fn signed_message(
    app_id: &String,
    instance_id: u128,
    req: &AdminReq,
    expiry_ns: u64,
) -> (m: AdminMessage)
    ensures
        signs(m, app_id@, instance_id, *req, expiry_ns),
{
    AdminMessage {
        app_id: app_id.clone(),
        instance_id,
        seq: req.seq,
        nonce: req.nonce,
        op: req.op,
        id: req.id,
        ip: req.ip,
        port: req.port,
        expiry_ns,
    }
}

/// The first key of that hash.
pub open spec fn key_at(keys: Seq<AdminKey>, hash: u64) -> Option<int>
    decreases keys.len(),
{
    if keys.len() == 0 {
        None
    } else {
        match key_at(keys.drop_last(), hash) {
            Some(i) => Some(i),
            None => if keys.last().name_hash == hash {
                Some(keys.len() - 1)
            } else {
                None
            },
        }
    }
}

/// The first key of that hash.
fn find_key(keys: &Vec<AdminKey>, hash: u64) -> (r: Option<usize>)
    ensures
        (match r {
            Some(i) => Some(i as int),
            None => None,
        }) == key_at(keys@, hash),
        r is Some ==> r->0 < keys.len(),
{
    let mut found: Option<usize> = None;
    for i in 0..keys.len()
        invariant
            (match found {
                Some(k) => Some(k as int),
                None => None,
            }) == key_at(keys@.take(i as int), hash),
            found is Some ==> found->0 < i,
    {
        assert(keys@.take(i as int + 1).drop_last() =~= keys@.take(i as int));
        if found.is_none() && keys[i].name_hash == hash {
            found = Some(i);
        }
    }
    assert(keys@.take(keys@.len() as int) =~= keys@);
    found
}

/// A clock reading or a duration held to 64 bits.
pub open spec fn clamp64(n: int) -> u64 {
    if n > u64::MAX {
        u64::MAX
    } else {
        n as u64
    }
}

/// The latest expiry that is still plausible at `now`: twice the time to live
/// ahead.
pub open spec fn max_expiry(now: u64, ttl_ns: u128) -> u64 {
    clamp64(now + clamp64(2 * clamp64(ttl_ns as int)))
}

/// Whether an expiry lies in the acceptance window.
pub open spec fn expiry_ok(expiry_ns: u64, now: u64, ttl_ns: u128) -> bool {
    now < expiry_ns <= max_expiry(now, ttl_ns)
}

/// The last plausible expiry.
fn last_expiry(now: u64, ttl_ns: u128) -> (r: u64)
    ensures
        r == max_expiry(now, ttl_ns),
{
    let ttl: u64 = if ttl_ns > u64::MAX as u128 {
        u64::MAX
    } else {
        ttl_ns as u64
    };
    let twice: u64 = if ttl > u64::MAX / 2 {
        u64::MAX
    } else {
        2 * ttl
    };
    now.saturating_add(twice)
}

/// Which of the policy's keys has to have signed the request, once the
/// signature line is present and in time.
pub fn signing_key(policy: &AdminPolicy, auth: &AdminAuth, now: u64) -> (r: Option<usize>)
    ensures
        r == signer(*policy, *auth, now),
{
    match policy {
        AdminPolicy::Filesystem => None,
        AdminPolicy::Hmac { keys, ttl_ns } => {
            if auth.zero {
                return None;
            }
            let max: u64 = last_expiry(now, *ttl_ns);
            if auth.expiry_ns <= now || auth.expiry_ns > max {
                return None;
            }
            find_key(keys, auth.key_name_hash)
        },
    }
}

/// The verdict on a request: who signed it (nobody, where signatures are not
/// asked for), or why it is refused. `tag_ok` is whether the tag verifies
/// under [`signing_key`] over [`signed_message`].
pub open spec fn auth_verdict(
    policy: AdminPolicy,
    auth: AdminAuth,
    now: u64,
    tag_ok: bool,
) -> Result<Option<Seq<char>>, u32> {
    match policy {
        AdminPolicy::Filesystem => Ok(None),
        AdminPolicy::Hmac { keys, ttl_ns } => if auth.zero {
            Err(REASON_AUTH_MISSING)
        } else if !expiry_ok(auth.expiry_ns, now, ttl_ns) {
            Err(REASON_AUTH_EXPIRED)
        } else {
            match key_at(keys@, auth.key_name_hash) {
                None => Err(REASON_AUTH_UNKNOWN_KEY),
                Some(i) => if tag_ok {
                    Ok(Some(keys@[i].name@))
                } else {
                    Err(REASON_AUTH_BAD_TAG)
                },
            }
        },
    }
}

/// What a verdict says.
pub open spec fn verdict_view(r: Result<Option<String>, u32>) -> Result<Option<Seq<char>>, u32> {
    match r {
        Ok(s) => Ok(effects::text_view(s)),
        Err(e) => Err(e),
    }
}

/// Authenticate one admin request.
pub fn verify_admin(policy: &AdminPolicy, auth: &AdminAuth, now: u64, tag_ok: bool) -> (r: Result<
    Option<String>,
    u32,
>)
    ensures
        verdict_view(r) == auth_verdict(*policy, *auth, now, tag_ok),
{
    match policy {
        AdminPolicy::Filesystem => Ok(None),
        AdminPolicy::Hmac { keys, ttl_ns } => {
            if auth.zero {
                return Err(REASON_AUTH_MISSING);
            }
            let max: u64 = last_expiry(now, *ttl_ns);
            if auth.expiry_ns <= now || auth.expiry_ns > max {
                return Err(REASON_AUTH_EXPIRED);
            }
            match find_key(keys, auth.key_name_hash) {
                None => Err(REASON_AUTH_UNKNOWN_KEY),
                Some(i) => {
                    if !tag_ok {
                        return Err(REASON_AUTH_BAD_TAG);
                    }
                    Ok(Some(keys[i].name.clone()))
                },
            }
        },
    }
}

/// What a request in forwarding says.
#[verifier::ext_equal]
pub struct FwdV {
    pub seq: u64,
    pub nonce: u64,
    pub actor: Option<Seq<char>>,
    pub op: u32,
    pub id: NodeId,
    pub ip: u32,
    pub port: u16,
}

/// A request that this node forwarded to the leader, kept until the leader's
/// reply comes back.
#[derive(Debug)]
pub struct PendingAdminFwd {
    pub seq: u64,
    pub nonce: u64,
    /// Who signed it, verified on this node before it was forwarded.
    pub actor: Option<String>,
    pub op: u32,
    pub id: NodeId,
    pub ip: u32,
    pub port: u16,
}

impl View for PendingAdminFwd {
    type V = FwdV;

    open spec fn view(&self) -> FwdV {
        FwdV {
            seq: self.seq,
            nonce: self.nonce,
            actor: effects::text_view(self.actor),
            op: self.op,
            id: self.id,
            ip: self.ip,
            port: self.port,
        }
    }
}

/// A leader's reply to a forwarded proposal.
#[derive(Debug, Clone, Copy, PartialEq, Eq)]
pub struct ConfigReply {
    pub nonce: u64,
    pub status: u32,
    pub reason: u32,
    pub version: u64,
}

/// A proposal that a peer forwarded.
#[derive(Debug, Clone, Copy, PartialEq, Eq)]
pub struct ConfigProposal {
    pub nonce: u64,
    pub op: u32,
    pub id: NodeId,
    pub ip: u32,
    pub port: u16,
}

/// What the admin desk says.
#[verifier::ext_equal]
pub struct AdminV {
    pub last_admin_seq: u64,
    pub pending: Option<FwdV>,
    pub last_reply: Option<ConfigReply>,
    pub non_member: u64,
    pub dedup_resend: u64,
}

/// The admin requests in flight on this node.
#[derive(Debug)]
pub struct AdminDesk {
    /// The last request taken off the admin band.
    pub last_admin_seq: u64,
    /// The one request being forwarded.
    pub pending: Option<PendingAdminFwd>,
    /// As leader: the last forwarded proposal's own answer, by its nonce.
    pub last_reply: Option<ConfigReply>,
    /// Proposals dropped because their source is no member.
    pub non_member: u64,
    /// Proposals answered again from `last_reply`.
    pub dedup_resend: u64,
}

/// What an optional forward says.
pub open spec fn fwd_view(p: Option<PendingAdminFwd>) -> Option<FwdV> {
    match p {
        Some(p) => Some(p@),
        None => None,
    }
}

impl View for AdminDesk {
    type V = AdminV;

    open spec fn view(&self) -> AdminV {
        AdminV {
            last_admin_seq: self.last_admin_seq,
            pending: fwd_view(self.pending),
            last_reply: self.last_reply,
            non_member: self.non_member,
            dedup_resend: self.dedup_resend,
        }
    }
}

/// The request of an admin band entry, as an answer to it names it.
pub open spec fn audited(req: AdminReq) -> AuditedReq {
    AuditedReq { op: req.op, id: req.id, ip: req.ip, port: req.port, seq: req.seq, nonce: req.nonce }
}

/// The forwarded request, as an answer to it names it.
pub open spec fn audited_fwd(p: FwdV) -> AuditedReq {
    AuditedReq { op: p.op, id: p.id, ip: p.ip, port: p.port, seq: p.seq, nonce: p.nonce }
}

/// The answer on this node's own response line.
pub open spec fn local_answer(
    actor: Option<Seq<char>>,
    req: AuditedReq,
    status: u32,
    reason: u32,
    version: u64,
) -> EffectV {
    EffectV::Answer(
        AnswerV {
            actor,
            origin: AuditOrigin::Local,
            req,
            to: AnswerTo::ResponseLine { seq: req.seq },
            status,
            reason,
            version,
        },
    )
}

/// The answer that ends a forward without the leader's reply: retry.
pub open spec fn retry_answer(p: FwdV, version: u64) -> EffectV {
    local_answer(p.actor, audited_fwd(p), 2, 0, version)
}

/// Put the answer on this node's own response line.
fn put_local_answer(
    out: &mut Effects,
    actor: Option<String>,
    req: AuditedReq,
    status: u32,
    reason: u32,
    version: u64,
)
    ensures
        final(out)@ == old(out)@.push(
            local_answer(effects::text_view(actor), req, status, reason, version),
        ),
{
    out.put(
        Effect::Answer(
            AdminAnswer {
                actor,
                origin: AuditOrigin::Local,
                req,
                to: AnswerTo::ResponseLine { seq: req.seq },
                status,
                reason,
                version,
            },
        ),
    );
}

/// What the node knows when it takes an admin request up.
#[derive(Debug, Clone, Copy)]
pub struct AdminContext {
    pub is_leader: bool,
    /// Where the last known leader is, if it is known and routable.
    pub leader_addr: Option<Addr>,
    pub term: u32,
    /// The adopted configuration's version.
    pub version: u64,
}

/// What taking an admin request up came to.
pub struct AdminStep {
    pub effects: Effects,
    /// `Some`: this node leads, the request is authentic (the actor is
    /// inside), and the change has to be proposed now.
    pub propose: Option<Option<String>>,
}

/// The desk after an admin request was taken up.
pub open spec fn desk_after_request(
    d: AdminV,
    req: AdminReq,
    verdict: Result<Option<Seq<char>>, u32>,
    ctx: AdminContext,
) -> AdminV {
    match verdict {
        Ok(actor) => if !ctx.is_leader && ctx.leader_addr is Some {
            AdminV {
                pending: Some(
                    FwdV {
                        seq: req.seq,
                        nonce: req.nonce,
                        actor,
                        op: req.op,
                        id: req.id,
                        ip: req.ip,
                        port: req.port,
                    },
                ),
                ..d
            }
        } else {
            d
        },
        Err(_) => d,
    }
}

/// The effects of taking an admin request up.
pub open spec fn request_effects(
    d: AdminV,
    req: AdminReq,
    verdict: Result<Option<Seq<char>>, u32>,
    ctx: AdminContext,
) -> Seq<EffectV> {
    match verdict {
        Err(reason) => seq![
            local_answer(Some(ACTOR_UNVERIFIED@), audited(req), 1, reason, ctx.version),
        ],
        Ok(actor) => if ctx.is_leader {
            Seq::empty()
        } else {
            match ctx.leader_addr {
                None => seq![local_answer(actor, audited(req), 2, 0, ctx.version)],
                Some(to) => {
                    let superseded = match d.pending {
                        Some(p) => seq![
                            EffectV::Plain(Plain::Log(NodeEvent::ForwardSuperseded)),
                            retry_answer(p, ctx.version),
                        ],
                        None => Seq::empty(),
                    };
                    superseded.push(
                        EffectV::Plain(
                            Plain::Send {
                                to,
                                term: ctx.term,
                                body: Body::ConfigProposal {
                                    nonce: req.nonce,
                                    op: req.op,
                                    id: req.id,
                                    ip: req.ip,
                                    port: req.port,
                                },
                            },
                        ),
                    )
                },
            }
        },
    }
}

/// What an optional actor says, where there is one to propose for.
pub open spec fn propose_view(p: Option<Option<String>>) -> Option<Option<Seq<char>>> {
    match p {
        Some(a) => Some(effects::text_view(a)),
        None => None,
    }
}

/// The reply to a change that was put to the cluster: accepted with the new
/// version, refused, or to be retried whole where the log had no room.
pub open spec fn proposal_reply(
    op: Option<ConfigOp>,
    proposed: Result<u64, u32>,
    appended: bool,
    version: u64,
) -> (u32, u32, u64) {
    if op is None {
        (1, REASON_MALFORMED_OP, version)
    } else {
        match proposed {
            Ok(new_version) => if appended {
                (0, 0, new_version)
            } else {
                (2, 0, version)
            },
            Err(reason) => (1, reason, version),
        }
    }
}

/// The reply to a proposal, given how proposing and appending it went.
/// Neither is attempted for an op that decodes to nothing, and appending only
/// for a change that was proposed.
pub fn propose_and_append(
    op: u32,
    id: NodeId,
    ip: u32,
    port: u16,
    proposed: Result<u64, u32>,
    appended: bool,
    version: u64,
) -> (r: (u32, u32, u64))
    ensures
        r == proposal_reply(cluster::config_op_of(op, id, ip, port), proposed, appended, version),
{
    match wire_to_config_op(op, id, ip, port) {
        None => (1, REASON_MALFORMED_OP, version),
        Some(_) => match proposed {
            Ok(new_version) => {
                if appended {
                    (0, 0, new_version)
                } else {
                    (2, 0, version)
                }
            },
            Err(reason) => (1, reason, version),
        },
    }
}

/// What may be answered once the record was attempted: the answer itself, or
/// a refusal that says the outcome is unrecorded.
pub fn answer_after_audit(recorded: bool, status: u32, reason: u32) -> (r: (u32, u32))
    ensures
        r == answer_recorded(recorded, status, reason),
{
    if recorded {
        (status, reason)
    } else {
        (1, REASON_AUDIT_FAILED)
    }
}

/// Whom a leader records for a forwarded proposal: the peer that vouched for
/// it, by id where its address is a member's.
pub open spec fn peer_name(table: Seq<Member>, from: Addr) -> Seq<char> {
    "peer:"@ + match cluster::route_id(table, from) {
        Some(id) => text::digits(id as nat),
        None => text::addr_text(from.0, from.1),
    }
}

/// Whom a leader records for a forwarded proposal.
pub fn peer_actor(table: &Vec<Member>, from: Addr) -> (s: String)
    ensures
        s@ == peer_name(table@, from),
{
    let mut s = String::new();
    s.append("peer:");
    match id_for(table, from) {
        Some(id) => {
            push_decimal(&mut s, id as u128);
        },
        None => {
            push_addr(&mut s, from.0, from.1);
        },
    }
    assert(s@ =~= peer_name(table@, from));
    s
}

/// The desk after a forwarded proposal arrived.
pub open spec fn desk_after_proposal(
    d: AdminV,
    is_leader: bool,
    member: bool,
    nonce: u64,
) -> AdminV {
    if !is_leader {
        d
    } else if !member {
        AdminV { non_member: gate::bumped(d.non_member), ..d }
    } else if d.last_reply is Some && d.last_reply->0.nonce == nonce {
        AdminV { dedup_resend: gate::bumped(d.dedup_resend), ..d }
    } else {
        d
    }
}

/// The datagram that carries a reply back.
pub open spec fn reply_datagram(to: Addr, term: u32, r: ConfigReply) -> EffectV {
    EffectV::Plain(
        Plain::Send {
            to,
            term,
            body: Body::ConfigReply {
                nonce: r.nonce,
                status: r.status,
                reason: r.reason,
                version: r.version,
            },
        },
    )
}

/// The effects of a forwarded proposal's arrival. A source that is no member
/// is dropped before anything is attested or recorded; a repeated nonce gets
/// the stored answer again, without a second record.
pub open spec fn proposal_effects(
    d: AdminV,
    is_leader: bool,
    member: bool,
    from: Addr,
    nonce: u64,
    term: u32,
) -> Seq<EffectV> {
    if !is_leader {
        Seq::empty()
    } else if !member {
        seq![EffectV::Plain(Plain::Log(NodeEvent::ConfigProposalNonMember { from }))]
    } else if d.last_reply is Some && d.last_reply->0.nonce == nonce {
        seq![reply_datagram(from, term, d.last_reply->0)]
    } else {
        Seq::empty()
    }
}

/// Whether a forwarded proposal has to be put to the cluster.
pub open spec fn proposal_is_fresh(d: AdminV, is_leader: bool, member: bool, nonce: u64) -> bool {
    is_leader && member && !(d.last_reply is Some && d.last_reply->0.nonce == nonce)
}

/// The answer to a forwarded proposal.
pub open spec fn forwarded_answer(
    actor: Seq<char>,
    body: ConfigProposal,
    from: Addr,
    term: u32,
    status: u32,
    reason: u32,
    version: u64,
) -> EffectV {
    EffectV::Answer(
        AnswerV {
            actor: Some(actor),
            origin: AuditOrigin::Forwarded,
            req: AuditedReq {
                op: body.op,
                id: body.id,
                ip: body.ip,
                port: body.port,
                seq: 0,
                nonce: body.nonce,
            },
            to: AnswerTo::Peer { addr: from, term },
            status,
            reason,
            version,
        },
    )
}

/// The reply that a leader sends for an answer to a forwarded proposal, once
/// the record was attempted.
pub fn reply_after_audit(nonce: u64, recorded: bool, status: u32, reason: u32, version: u64) -> (r:
    ConfigReply)
    ensures
        r.nonce == nonce,
        (r.status, r.reason) == answer_recorded(recorded, status, reason),
        r.version == version,
{
    let (status, reason) = answer_after_audit(recorded, status, reason);
    ConfigReply { nonce, status, reason, version }
}

impl AdminDesk {
    /// A desk with nothing in flight.
    pub fn new() -> (d: AdminDesk)
        ensures
            d@ == (AdminV {
                last_admin_seq: 0,
                pending: None,
                last_reply: None,
                non_member: 0,
                dedup_resend: 0,
            }),
    {
        AdminDesk {
            last_admin_seq: 0,
            pending: None,
            last_reply: None,
            non_member: 0,
            dedup_resend: 0,
        }
    }

    /// Take up one admin request. `verdict` is what [`verify_admin`] said.
    pub fn handle_admin(
        &mut self,
        req: AdminReq,
        verdict: Result<Option<String>, u32>,
        ctx: AdminContext,
    ) -> (step: AdminStep)
        ensures
            final(self)@ == desk_after_request(old(self)@, req, verdict_view(verdict), ctx),
            step.effects@ == request_effects(old(self)@, req, verdict_view(verdict), ctx),
            propose_view(step.propose) == proposer(verdict_view(verdict), ctx.is_leader),
    {
        let mut out = Effects::new();
        let named = AuditedReq {
            op: req.op,
            id: req.id,
            ip: req.ip,
            port: req.port,
            seq: req.seq,
            nonce: req.nonce,
        };
        let actor = match verdict {
            Ok(actor) => actor,
            Err(reason) => {
                put_local_answer(
                    &mut out,
                    Some(ACTOR_UNVERIFIED.to_owned()),
                    named,
                    1,
                    reason,
                    ctx.version,
                );
                assert(out@ =~= request_effects(old(self)@, req, verdict_view(verdict), ctx));
                return AdminStep { effects: out, propose: None };
            },
        };
        if ctx.is_leader {
            return AdminStep { effects: out, propose: Some(actor) };
        }
        let to: Addr = match ctx.leader_addr {
            Some(a) => a,
            None => {
                put_local_answer(&mut out, actor, named, 2, 0, ctx.version);
                assert(out@ =~= request_effects(old(self)@, req, verdict_view(verdict), ctx));
                return AdminStep { effects: out, propose: None };
            },
        };
        match self.pending.take() {
            Some(p) => {
                out.plain(Plain::Log(NodeEvent::ForwardSuperseded));
                let stale = AuditedReq {
                    op: p.op,
                    id: p.id,
                    ip: p.ip,
                    port: p.port,
                    seq: p.seq,
                    nonce: p.nonce,
                };
                put_local_answer(&mut out, p.actor, stale, 2, 0, ctx.version);
            },
            None => {},
        }
        self.pending = Some(
            PendingAdminFwd {
                seq: req.seq,
                nonce: req.nonce,
                actor,
                op: req.op,
                id: req.id,
                ip: req.ip,
                port: req.port,
            },
        );
        out.plain(
            Plain::Send {
                to,
                term: ctx.term,
                body: Body::ConfigProposal {
                    nonce: req.nonce,
                    op: req.op,
                    id: req.id,
                    ip: req.ip,
                    port: req.port,
                },
            },
        );
        assert(out@ =~= request_effects(old(self)@, req, verdict_view(verdict), ctx));
        AdminStep { effects: out, propose: None }
    }

    /// The answer to a request of this node's own that was put to the
    /// cluster with `reply`.
    pub fn answer_proposed(
        &self,
        req: AdminReq,
        actor: Option<String>,
        reply: (u32, u32, u64),
    ) -> (out: Effects)
        ensures
            out@ == seq![proposed_answer(req, effects::text_view(actor), reply)],
    {
        let mut out = Effects::new();
        let named = AuditedReq {
            op: req.op,
            id: req.id,
            ip: req.ip,
            port: req.port,
            seq: req.seq,
            nonce: req.nonce,
        };
        put_local_answer(&mut out, actor, named, reply.0, reply.1, reply.2);
        out
    }

    /// A peer forwarded a proposal. `propose` says whether it has to be put
    /// to the cluster now.
    pub fn on_config_proposal(
        &mut self,
        from: Addr,
        body: ConfigProposal,
        is_leader: bool,
        table: &Vec<Member>,
        term: u32,
    ) -> (r: (Effects, bool))
        ensures
            ({
                let member = cluster::route_id(table@, from) is Some;
                &&& final(self)@ == desk_after_proposal(old(self)@, is_leader, member, body.nonce)
                &&& r.0@ == proposal_effects(
                    old(self)@,
                    is_leader,
                    member,
                    from,
                    body.nonce,
                    term,
                )
                &&& r.1 == proposal_is_fresh(old(self)@, is_leader, member, body.nonce)
            }),
    {
        let mut out = Effects::new();
        if !is_leader {
            return (out, false);
        }
        if id_for(table, from).is_none() {
            self.non_member = bump(self.non_member);
            out.plain(Plain::Log(NodeEvent::ConfigProposalNonMember { from }));
            return (out, false);
        }
        match self.last_reply {
            Some(r) => {
                if r.nonce == body.nonce {
                    self.dedup_resend = bump(self.dedup_resend);
                    out.plain(
                        Plain::Send {
                            to: from,
                            term,
                            body: Body::ConfigReply {
                                nonce: r.nonce,
                                status: r.status,
                                reason: r.reason,
                                version: r.version,
                            },
                        },
                    );
                    return (out, false);
                }
            },
            None => {},
        }
        (out, true)
    }

    /// A forwarded proposal was put to the cluster with `reply`: keep the
    /// real answer for a repeat of its nonce, and answer the peer.
    pub fn answer_forwarded(
        &mut self,
        from: Addr,
        body: ConfigProposal,
        reply: (u32, u32, u64),
        table: &Vec<Member>,
        term: u32,
    ) -> (out: Effects)
        ensures
            final(self)@ == desk_after_answer(old(self)@, body.nonce, reply),
            out@ == seq![
                forwarded_answer(
                    peer_name(table@, from),
                    body,
                    from,
                    term,
                    reply.0,
                    reply.1,
                    reply.2,
                ),
            ],
    {
        self.last_reply = Some(
            ConfigReply {
                nonce: body.nonce,
                status: reply.0,
                reason: reply.1,
                version: reply.2,
            },
        );
        let mut out = Effects::new();
        let req = AuditedReq {
            op: body.op,
            id: body.id,
            ip: body.ip,
            port: body.port,
            seq: 0,
            nonce: body.nonce,
        };
        let actor = peer_actor(table, from);
        out.put(
            Effect::Answer(
                AdminAnswer {
                    actor: Some(actor),
                    origin: AuditOrigin::Forwarded,
                    req,
                    to: AnswerTo::Peer { addr: from, term },
                    status: reply.0,
                    reason: reply.1,
                    version: reply.2,
                },
            ),
        );
        out
    }

    /// The leader's reply to a forward. One for another nonce is dropped.
    pub fn on_config_reply(&mut self, body: ConfigReply) -> (out: Effects)
        ensures
            final(self)@ == (if old(self)@.pending is Some && old(self)@.pending->0.nonce
                == body.nonce {
                AdminV { pending: None, ..old(self)@ }
            } else {
                old(self)@
            }),
            out@ == (if old(self)@.pending is Some && old(self)@.pending->0.nonce == body.nonce {
                seq![
                    local_answer(
                        old(self)@.pending->0.actor,
                        audited_fwd(old(self)@.pending->0),
                        body.status,
                        body.reason,
                        body.version,
                    ),
                ]
            } else {
                Seq::empty()
            }),
    {
        let mut out = Effects::new();
        match self.pending.take() {
            Some(p) => {
                if p.nonce == body.nonce {
                    let named = AuditedReq {
                        op: p.op,
                        id: p.id,
                        ip: p.ip,
                        port: p.port,
                        seq: p.seq,
                        nonce: p.nonce,
                    };
                    put_local_answer(
                        &mut out,
                        p.actor,
                        named,
                        body.status,
                        body.reason,
                        body.version,
                    );
                } else {
                    self.pending = Some(p);
                }
            },
            None => {},
        }
        out
    }

    /// A role or truncation transition: what was answered, or was being
    /// forwarded, belongs to a world that may be gone. The forward is
    /// answered with a retry rather than left without an answer.
    pub fn invalidate_caches(&mut self, version: u64, out: &mut Effects)
        ensures
            final(self)@ == invalidated(old(self)@),
            final(out)@ == old(out)@ + invalidation_effects(old(self)@, version),
    {
        self.last_reply = None;
        match self.pending.take() {
            Some(p) => {
                let named = AuditedReq {
                    op: p.op,
                    id: p.id,
                    ip: p.ip,
                    port: p.port,
                    seq: p.seq,
                    nonce: p.nonce,
                };
                put_local_answer(out, p.actor, named, 2, 0, version);
            },
            None => {},
        }
        assert(final(out)@ =~= old(out)@ + invalidation_effects(old(self)@, version));
    }
}

/// The desk after its caches were invalidated.
pub open spec fn invalidated(d: AdminV) -> AdminV {
    AdminV { pending: None, last_reply: None, ..d }
}

/// The effects of invalidating the desk's caches.
pub open spec fn invalidation_effects(d: AdminV, version: u64) -> Seq<EffectV> {
    match d.pending {
        Some(p) => seq![retry_answer(p, version)],
        None => Seq::empty(),
    }
}

/// A request that failed authentication reaches nobody: it is neither
/// proposed nor forwarded, the desk stays as it was, and its one answer is a
/// refusal recorded under no key's name.
pub proof fn law_unauthenticated_requests_go_nowhere(
    d: AdminV,
    req: AdminReq,
    reason: u32,
    ctx: AdminContext,
)
    ensures
        desk_after_request(d, req, Err(reason), ctx) == d,
        request_effects(d, req, Err(reason), ctx) == seq![
            local_answer(Some(ACTOR_UNVERIFIED@), audited(req), 1, reason, ctx.version),
        ],
{
}

/// Refusals for want of authentication are told apart from every other
/// refusal by their reason: 20 to 23, and only under signed requests.
pub proof fn law_auth_reasons_are_their_own(
    policy: AdminPolicy,
    auth: AdminAuth,
    now: u64,
    tag_ok: bool,
)
    ensures
        auth_verdict(policy, auth, now, tag_ok) matches Err(reason) ==> 20 <= reason <= 23
            && policy is Hmac,
{
}

/// A repeat of a forwarded proposal gets the very answer the first one got,
/// and neither proposes nor records anything again.
pub proof fn law_repeated_nonce_gets_the_stored_answer(
    d: AdminV,
    from: Addr,
    reply: ConfigReply,
    term: u32,
)
    ensures
        ({
            let kept = AdminV { last_reply: Some(reply), ..d };
            &&& !proposal_is_fresh(kept, true, true, reply.nonce)
            &&& proposal_effects(kept, true, true, from, reply.nonce, term) == seq![
                reply_datagram(from, term, reply),
            ]
        }),
{
}

/// No forward is lost without an answer: a newer request, or a transition,
/// answers it with a retry on its own response line.
pub proof fn law_superseded_forward_is_answered(
    d: AdminV,
    req: AdminReq,
    actor: Option<Seq<char>>,
    ctx: AdminContext,
)
    requires
        d.pending is Some,
        !ctx.is_leader,
        ctx.leader_addr is Some,
    ensures
        request_effects(d, req, Ok(actor), ctx).contains(retry_answer(d.pending->0, ctx.version)),
        invalidation_effects(d, ctx.version).contains(retry_answer(d.pending->0, ctx.version)),
        desk_after_request(d, req, Ok(actor), ctx).pending is Some,
{
    let e = request_effects(d, req, Ok(actor), ctx);
    assert(e[1] == retry_answer(d.pending->0, ctx.version));
    let i = invalidation_effects(d, ctx.version);
    assert(i[0] == retry_answer(d.pending->0, ctx.version));
}

/// Which of the policy's keys has to have signed, once the signature line is
/// present and in time.
pub open spec fn signer(policy: AdminPolicy, auth: AdminAuth, now: u64) -> Option<usize> {
    match policy {
        AdminPolicy::Filesystem => None,
        AdminPolicy::Hmac { keys, ttl_ns } => if auth.zero || !expiry_ok(
            auth.expiry_ns,
            now,
            ttl_ns,
        ) {
            None
        } else {
            match key_at(keys@, auth.key_name_hash) {
                Some(i) => Some(i as usize),
                None => None,
            }
        },
    }
}

/// Whom a change has to be proposed for now: this node leads, and the request
/// is authentic.
pub open spec fn proposer(
    verdict: Result<Option<Seq<char>>, u32>,
    is_leader: bool,
) -> Option<Option<Seq<char>>> {
    match verdict {
        Ok(actor) => if is_leader {
            Some(actor)
        } else {
            None
        },
        Err(_) => None,
    }
}

/// Whether `m` is what the signature of a request is computed over.
pub open spec fn signs(
    m: AdminMessage,
    app_id: Seq<char>,
    instance_id: u128,
    req: AdminReq,
    expiry_ns: u64,
) -> bool {
    &&& m.app_id@ == app_id
    &&& m.instance_id == instance_id
    &&& m.seq == req.seq
    &&& m.nonce == req.nonce
    &&& m.op == req.op
    &&& m.id == req.id
    &&& m.ip == req.ip
    &&& m.port == req.port
    &&& m.expiry_ns == expiry_ns
}

/// The status and reason that may be answered once the record was attempted.
pub open spec fn answer_recorded(recorded: bool, status: u32, reason: u32) -> (u32, u32) {
    if recorded {
        (status, reason)
    } else {
        (1u32, REASON_AUDIT_FAILED)
    }
}

/// The desk after a forwarded proposal was answered: the answer is kept for a
/// repeat of its nonce.
pub open spec fn desk_after_answer(d: AdminV, nonce: u64, reply: (u32, u32, u64)) -> AdminV {
    AdminV {
        last_reply: Some(
            ConfigReply { nonce, status: reply.0, reason: reply.1, version: reply.2 },
        ),
        ..d
    }
}

/// A signature is bound to one request: the same message signs no other
/// request, no other expiry and nothing of another instance or application.
pub proof fn law_signature_is_for_one_request(
    m: AdminMessage,
    app: Seq<char>,
    instance: u128,
    req: AdminReq,
    expiry: u64,
    other_app: Seq<char>,
    other_instance: u128,
    other: AdminReq,
    other_expiry: u64,
)
    requires
        signs(m, app, instance, req, expiry),
        signs(m, other_app, other_instance, other, other_expiry),
    ensures
        app == other_app,
        instance == other_instance,
        req == other,
        expiry == other_expiry,
{
}

/// A key is found by its hash: the first one that has it, and none only where
/// none has.
pub proof fn law_keys_are_found_by_hash(keys: Seq<AdminKey>, hash: u64)
    ensures
        key_at(keys, hash) matches Some(i) ==> 0 <= i < keys.len() && keys[i].name_hash == hash
            && forall|j: int| 0 <= j < i ==> (#[trigger] keys[j]).name_hash != hash,
        key_at(keys, hash) is None ==> forall|j: int|
            0 <= j < keys.len() ==> (#[trigger] keys[j]).name_hash != hash,
    decreases keys.len(),
{
    if keys.len() > 0 {
        let head = keys.drop_last();
        law_keys_are_found_by_hash(head, hash);
        assert(forall|j: int| 0 <= j < head.len() ==> head[j] == keys[j]);
        assert(keys[keys.len() - 1] == keys.last());
    }
}

/// An expiry is accepted exactly where it lies ahead, and no further ahead
/// than twice the time to live.
pub proof fn law_expiry_window_is_twice_the_time_to_live(expiry_ns: u64, now: u64, ttl_ns: u128)
    ensures
        expiry_ok(expiry_ns, now, ttl_ns) <==> now < expiry_ns <= now + 2 * ttl_ns,
{
}

/// Where signatures are asked for, a request passes exactly where it carries
/// one, in time, by a key that this node holds, and the tag verifies; it then
/// passes under the name of the very key that the tag was verified with.
/// Otherwise the first of these that fails is the reason. Where they are not
/// asked for, every request passes and names nobody.
pub proof fn law_only_a_held_key_signs(
    policy: AdminPolicy,
    auth: AdminAuth,
    now: u64,
    tag_ok: bool,
)
    ensures
        policy is Filesystem ==> auth_verdict(policy, auth, now, tag_ok) == Ok::<
            Option<Seq<char>>,
            u32,
        >(None) && signer(policy, auth, now) is None,
        policy matches AdminPolicy::Hmac { keys, ttl_ns } ==> {
            let v = auth_verdict(policy, auth, now, tag_ok);
            let timely = now < auth.expiry_ns <= now + 2 * ttl_ns;
            let held = exists|i: int|
                0 <= i < keys@.len() && (#[trigger] keys@[i]).name_hash == auth.key_name_hash;
            &&& v is Ok <==> !auth.zero && timely && held && tag_ok
            &&& auth.zero ==> v == Err::<Option<Seq<char>>, u32>(20)
            &&& !auth.zero && !timely ==> v == Err::<Option<Seq<char>>, u32>(22)
            &&& !auth.zero && timely && !held ==> v == Err::<Option<Seq<char>>, u32>(23)
            &&& !auth.zero && timely && held && !tag_ok ==> v == Err::<Option<Seq<char>>, u32>(21)
            &&& v matches Ok(actor) ==> signer(policy, auth, now) matches Some(i) && {
                &&& i < keys@.len()
                &&& keys@[i as int].name_hash == auth.key_name_hash
                &&& actor == Some(keys@[i as int].name@)
            }
        },
{
    if let AdminPolicy::Hmac { keys, ttl_ns } = policy {
        law_expiry_window_is_twice_the_time_to_live(auth.expiry_ns, now, ttl_ns);
        law_keys_are_found_by_hash(keys@, auth.key_name_hash);
        assert(keys@.len() == keys.len());
    }
}

/// Where an answer to a local request goes and what it says: to the line that
/// the request came on, about that request, in the name of who signed it.
pub open spec fn answers_locally(
    e: EffectV,
    actor: Option<Seq<char>>,
    req: AdminReq,
    status: u32,
    reason: u32,
    version: u64,
) -> bool {
    e matches EffectV::Answer(x) && {
        &&& x.actor == actor && x.origin == AuditOrigin::Local
        &&& x.to == (AnswerTo::ResponseLine { seq: req.seq })
        &&& x.status == status && x.reason == reason && x.version == version
        &&& x.req.op == req.op && x.req.id == req.id && x.req.ip == req.ip && x.req.port == req.port
        &&& x.req.seq == req.seq && x.req.nonce == req.nonce
    }
}

/// What is forwarded is what was asked: the leader decodes the very change
/// that the same request would have it propose were it made there, under the
/// request's own nonce. What is kept of it until the reply is the request and
/// who signed it.
pub proof fn law_forward_is_what_was_asked(
    d: AdminV,
    req: AdminReq,
    actor: Option<Seq<char>>,
    ctx: AdminContext,
    to: Addr,
)
    requires
        !ctx.is_leader,
        ctx.leader_addr == Some(to),
    ensures
        ({
            let e = request_effects(d, req, Ok(actor), ctx);
            let a = desk_after_request(d, req, Ok(actor), ctx);
            &&& e.last() matches EffectV::Plain(Plain::Send { to: dest, term, body }) && {
                &&& dest == to && term == ctx.term
                &&& body matches Body::ConfigProposal { nonce, op, id, ip, port } && {
                    &&& nonce == req.nonce && op == req.op && id == req.id && ip == req.ip && port
                        == req.port
                    &&& cluster::config_op_of(op, id, ip, port) == cluster::config_op_of(
                        req.op,
                        req.id,
                        req.ip,
                        req.port,
                    )
                }
            }
            &&& e.len() == (if d.pending is Some {
                3int
            } else {
                1
            })
            &&& a.pending matches Some(p) && {
                &&& p.seq == req.seq && p.nonce == req.nonce && p.actor == actor
                &&& p.op == req.op && p.id == req.id && p.ip == req.ip && p.port == req.port
            }
            &&& a == (AdminV { pending: a.pending, ..d })
        }),
{
}

/// A request is refused, proposed, forwarded or put off, and answered on its
/// own line wherever it goes no further: a refusal names its reason and no
/// key, and while no leader is known the client is told to retry. Only a
/// leader proposes, and only what is authentic, in the name of who signed it.
pub proof fn law_requests_are_answered_or_passed_on(
    d: AdminV,
    req: AdminReq,
    actor: Option<Seq<char>>,
    reason: u32,
    ctx: AdminContext,
)
    ensures
        ({
            let refused = request_effects(d, req, Err(reason), ctx);
            let passed = request_effects(d, req, Ok(actor), ctx);
            &&& refused.len() == 1 && answers_locally(
                refused[0],
                Some("unverified"@),
                req,
                1,
                reason,
                ctx.version,
            )
            &&& proposer(Err(reason), ctx.is_leader) is None
            &&& ctx.is_leader ==> passed.len() == 0 && proposer(Ok(actor), true) == Some(actor)
                && desk_after_request(d, req, Ok(actor), ctx) == d
            &&& proposer(Ok(actor), false) is None
            &&& !ctx.is_leader && ctx.leader_addr is None ==> passed.len() == 1
                && answers_locally(passed[0], actor, req, 2, 0, ctx.version)
                && desk_after_request(d, req, Ok(actor), ctx) == d
            &&& desk_after_request(d, req, Err(reason), ctx) == d
        }),
{
}

/// A forward that a newer request or a transition displaces is answered on
/// its own line: retry, in the name of who signed it.
pub proof fn law_displaced_forward_is_told_to_retry(
    d: AdminV,
    p: FwdV,
    req: AdminReq,
    actor: Option<Seq<char>>,
    ctx: AdminContext,
)
    requires
        d.pending == Some(p),
    ensures
        ({
            let own = AdminReq {
                seq: p.seq,
                nonce: p.nonce,
                op: p.op,
                id: p.id,
                ip: p.ip,
                port: p.port,
            };
            let i = invalidation_effects(d, ctx.version);
            let e = request_effects(d, req, Ok(actor), ctx);
            &&& i.len() == 1 && answers_locally(i[0], p.actor, own, 2, 0, ctx.version)
            &&& !ctx.is_leader && ctx.leader_addr is Some ==> answers_locally(
                e[1],
                p.actor,
                own,
                2,
                0,
                ctx.version,
            ) && e[0] == EffectV::Plain(Plain::Log(NodeEvent::ForwardSuperseded))
        }),
        invalidated(d).pending is None,
        invalidated(d).last_reply is None,
        invalidated(d).last_admin_seq == d.last_admin_seq,
{
}

/// Nothing is displaced where nothing was being forwarded.
pub proof fn law_idle_desk_displaces_nothing(d: AdminV, version: u64)
    requires
        d.pending is None,
    ensures
        invalidation_effects(d, version).len() == 0,
{
}

/// A change is accepted exactly where it decodes, the cluster takes it and
/// the log has room, and then under its new version. One that does not decode
/// or is refused says so under the version in force; one that the log had no
/// room for is to be retried.
pub proof fn law_change_is_accepted_once_appended(
    op: Option<ConfigOp>,
    proposed: Result<u64, u32>,
    appended: bool,
    version: u64,
)
    ensures
        ({
            let r = proposal_reply(op, proposed, appended, version);
            &&& r.0 == 0 <==> op is Some && proposed is Ok && appended
            &&& r.0 == 0 ==> r.1 == 0 && proposed == Ok::<u64, u32>(r.2)
            &&& r.0 != 0 ==> r.2 == version
            &&& op is None ==> r.0 == 1 && r.1 == 11
            &&& op is Some && proposed is Err ==> r.0 == 1 && proposed == Err::<u64, u32>(r.1)
            &&& op is Some && proposed is Ok && !appended ==> r.0 == 2 && r.1 == 0
        }),
{
}

/// An outcome that could not be recorded is answered as such, whatever it
/// was; one that was recorded is answered as it is.
pub proof fn law_unrecorded_outcomes_are_not_reported(status: u32, reason: u32)
    ensures
        answer_recorded(true, status, reason) == (status, reason),
        answer_recorded(false, status, reason) == (1u32, 24u32),
{
}

/// What a leader does with a proposal that a peer forwarded: nothing unless
/// it leads; from a stranger, count and log it, without an answer; a repeat
/// of the nonce answered last gets that answer again, at the address it came
/// from; everything else is put to the cluster.
pub proof fn law_forwarded_proposals_are_put_once(
    d: AdminV,
    is_leader: bool,
    member: bool,
    from: Addr,
    nonce: u64,
    term: u32,
)
    ensures
        ({
            let e = proposal_effects(d, is_leader, member, from, nonce, term);
            let a = desk_after_proposal(d, is_leader, member, nonce);
            let repeat = d.last_reply is Some && d.last_reply->0.nonce == nonce;
            &&& proposal_is_fresh(d, is_leader, member, nonce) <==> is_leader && member && !repeat
            &&& !is_leader || (member && !repeat) ==> e.len() == 0 && a == d
            &&& is_leader && !member ==> {
                &&& e == seq![EffectV::Plain(Plain::Log(NodeEvent::ConfigProposalNonMember { from }))]
                &&& d.non_member < u64::MAX ==> a.non_member == d.non_member + 1
                &&& a == (AdminV { non_member: a.non_member, ..d })
            }
            &&& is_leader && member && repeat ==> {
                let r = d.last_reply->0;
                &&& e == seq![
                    EffectV::Plain(
                        Plain::Send {
                            to: from,
                            term,
                            body: Body::ConfigReply {
                                nonce,
                                status: r.status,
                                reason: r.reason,
                                version: r.version,
                            },
                        },
                    ),
                ]
                &&& d.dedup_resend < u64::MAX ==> a.dedup_resend == d.dedup_resend + 1
                &&& a == (AdminV { dedup_resend: a.dedup_resend, ..d })
            }
        }),
{
}

/// The answer to a forwarded proposal goes back to the peer that forwarded
/// it, about the proposal it forwarded, under the name that the leader records
/// for that peer; and the same nonce, asked again, gets the same answer.
pub proof fn law_forwarded_answer_goes_back(
    d: AdminV,
    actor: Seq<char>,
    body: ConfigProposal,
    from: Addr,
    term: u32,
    reply: (u32, u32, u64),
    later: u32,
)
    ensures
        forwarded_answer(actor, body, from, term, reply.0, reply.1, reply.2) matches EffectV::Answer(
            x,
        ) && {
            &&& x.actor == Some(actor) && x.origin == AuditOrigin::Forwarded
            &&& x.to == (AnswerTo::Peer { addr: from, term })
            &&& x.status == reply.0 && x.reason == reply.1 && x.version == reply.2
            &&& x.req.op == body.op && x.req.id == body.id && x.req.ip == body.ip && x.req.port
                == body.port && x.req.nonce == body.nonce
        },
        ({
            let a = desk_after_answer(d, body.nonce, reply);
            &&& a == (AdminV { last_reply: a.last_reply, ..d })
            &&& !proposal_is_fresh(a, true, true, body.nonce)
            &&& proposal_effects(a, true, true, from, body.nonce, later) == seq![
                EffectV::Plain(
                    Plain::Send {
                        to: from,
                        term: later,
                        body: Body::ConfigReply {
                            nonce: body.nonce,
                            status: reply.0,
                            reason: reply.1,
                            version: reply.2,
                        },
                    },
                ),
            ]
        }),
{
}

/// A leader records a member by its id and anybody else by the address.
pub proof fn law_peers_are_recorded_by_id(table: Seq<Member>, from: Addr)
    ensures
        cluster::route_id(table, from) matches Some(id) ==> peer_name(table, from) == "peer:"@
            + text::digits(id as nat),
        cluster::route_id(table, from) is None ==> peer_name(table, from) == "peer:"@
            + text::addr_text(from.0, from.1),
{
}

/// The answer to a request of this node's own that was put to the cluster.
pub open spec fn proposed_answer(
    req: AdminReq,
    actor: Option<Seq<char>>,
    reply: (u32, u32, u64),
) -> EffectV {
    local_answer(actor, audited(req), reply.0, reply.1, reply.2)
}

/// A local request is answered with what was decided on it, whatever that
/// was, on the line it came on and in the name of who signed it.
pub proof fn law_local_answers_say_what_was_decided(
    req: AdminReq,
    actor: Option<Seq<char>>,
    status: u32,
    reason: u32,
    version: u64,
)
    ensures
        answers_locally(
            proposed_answer(req, actor, (status, reason, version)),
            actor,
            req,
            status,
            reason,
            version,
        ),
        answers_locally(
            local_answer(actor, audited(req), status, reason, version),
            actor,
            req,
            status,
            reason,
            version,
        ),
{
}

/// The desk, a forward and a verdict say what they hold.
pub proof fn law_desk_says_what_it_holds(
    d: AdminDesk,
    p: PendingAdminFwd,
    name: String,
    reason: u32,
)
    ensures
        d@.last_admin_seq == d.last_admin_seq && d@.last_reply == d.last_reply,
        d@.non_member == d.non_member && d@.dedup_resend == d.dedup_resend,
        d.pending is None <==> d@.pending is None,
        d.pending == Some(p) ==> d@.pending == Some(p@),
        p@.seq == p.seq && p@.nonce == p.nonce && p@.op == p.op && p@.id == p.id,
        p@.ip == p.ip && p@.port == p.port,
        p.actor == Some(name) ==> p@.actor == Some(name@),
        p.actor is None ==> p@.actor is None,
        verdict_view(Ok(Some(name))) == Ok::<_, u32>(Some(name@)),
        verdict_view(Ok(None)) == Ok::<Option<Seq<char>>, u32>(None),
        verdict_view(Err(reason)) == Err::<Option<Seq<char>>, u32>(reason),
        propose_view(Some(Some(name))) == Some(Some(name@)),
        propose_view(None) is None,
{
}

} // verus!
