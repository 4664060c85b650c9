//! What the rest of the node sees of the consensus agent: the flags, terms and
//! records that its effects publish, and that they keep up with its own state.

use crate::node::admin;
use crate::node::cluster;
use crate::node::cluster::{ConfigV, RecordV};
use crate::node::consensus;
use crate::node::consensus::{ActionV, ConsensusV, NetEvent, SmView};
use crate::node::effects::{EffectV, Plain};
use vstd::prelude::*;

verus! {

/// What stands published.
#[verifier::ext_equal]
pub struct ShownV {
    pub intake: bool,
    pub term: u32,
    pub leads: bool,
    pub serves: bool,
    pub leader: u64,
    pub appender: bool,
    pub record: Option<RecordV>,
    pub version: u64,
    pub pending: bool,
}

/// What stands published after one more effect.
pub open spec fn shows(m: ShownV, e: EffectV) -> ShownV {
    match e {
        EffectV::Plain(Plain::Gate(open)) => ShownV { intake: open, ..m },
        EffectV::Plain(Plain::TermHandle(term)) => ShownV { term, ..m },
        EffectV::Plain(Plain::LeaderFlag(leads)) => ShownV { leads, ..m },
        EffectV::Plain(Plain::CanServeFlag(serves)) => ShownV { serves, ..m },
        EffectV::Plain(Plain::LeaderHint(leader)) => ShownV { leader, ..m },
        EffectV::Plain(Plain::DropAppender) => ShownV { appender: false, ..m },
        EffectV::StoreRecord(rec) => ShownV { record: Some(rec), ..m },
        EffectV::Plain(Plain::ConfigVersion(version)) => ShownV { version, ..m },
        EffectV::Plain(Plain::ConfigPending(pending)) => ShownV { pending, ..m },
        _ => m,
    }
}

/// What stands published after a run of effects.
pub open spec fn shown(m: ShownV, es: Seq<EffectV>) -> ShownV
    decreases es.len(),
{
    if es.len() == 0 {
        m
    } else {
        shows(shown(m, es.drop_last()), es.last())
    }
}

/// Whether what stands published is what the agent itself holds.
pub open spec fn mirrors(m: ShownV, c: ConsensusV) -> bool {
    &&& m.intake == c.gate.gate_open
    &&& m.term == c.gate.adopted_term
    &&& m.leads == c.gate.leader_flag
    &&& m.serves == c.gate.can_serve_flag
    &&& m.leader == c.gate.leader_hint
    &&& m.appender == c.gate.appender
    &&& m.record == c.record
    &&& m.version == c.config_version
    &&& m.pending == c.config_pending
}

/// Whether an effect publishes nothing of this.
pub open spec fn silent(e: EffectV) -> bool {
    forall|m: ShownV| #[trigger] shows(m, e) == m
}

pub(crate) proof fn lemma_shown_joins(m: ShownV, a: Seq<EffectV>, b: Seq<EffectV>)
    ensures
        shown(m, a + b) == shown(shown(m, a), b),
    decreases b.len(),
{
    if b.len() == 0 {
        assert(a + b =~= a);
    } else {
        assert((a + b).drop_last() =~= a + b.drop_last());
        assert((a + b).last() == b.last());
        lemma_shown_joins(m, a, b.drop_last());
    }
}

pub(crate) proof fn lemma_shown_one(m: ShownV, e: EffectV)
    ensures
        shown(m, seq![e]) == shows(m, e),
{
    let s = seq![e];
    assert(s.drop_last() =~= Seq::<EffectV>::empty());
    assert(s.last() == e);
    assert(shown(m, s.drop_last()) == m);
}

pub(crate) proof fn lemma_shown_two(m: ShownV, a: EffectV, b: EffectV)
    ensures
        shown(m, seq![a, b]) == shows(shows(m, a), b),
{
    assert(seq![a, b] =~= seq![a] + seq![b]);
    lemma_shown_joins(m, seq![a], seq![b]);
    lemma_shown_one(m, a);
    lemma_shown_one(shows(m, a), b);
}

pub(crate) proof fn lemma_shown_three(m: ShownV, a: EffectV, b: EffectV, c: EffectV)
    ensures
        shown(m, seq![a, b, c]) == shows(shows(shows(m, a), b), c),
{
    assert(seq![a, b, c] =~= seq![a, b] + seq![c]);
    lemma_shown_joins(m, seq![a, b], seq![c]);
    lemma_shown_two(m, a, b);
    lemma_shown_one(shows(shows(m, a), b), c);
}

pub(crate) proof fn lemma_silence(m: ShownV, es: Seq<EffectV>)
    requires
        forall|i: int| 0 <= i < es.len() ==> silent(#[trigger] es[i]),
    ensures
        shown(m, es) == m,
    decreases es.len(),
{
    if es.len() > 0 {
        assert forall|i: int| 0 <= i < es.drop_last().len() implies silent(
            #[trigger] es.drop_last()[i],
        ) by {
            assert(silent(es[i]));
        }
        lemma_silence(m, es.drop_last());
        assert(silent(es[es.len() - 1]));
        assert(shows(m, es.last()) == m);
    }
}

proof fn lemma_durable_cells_are_silent(
    m: ShownV,
    band: Seq<(cluster::NodeId, cluster::PeerRole)>,
    r: Map<cluster::NodeId, u64>,
)
    ensures
        shown(m, consensus::durable_cells(band, r)) == m,
    decreases band.len(),
{
    if band.len() > 0 {
        let head = consensus::durable_cells(band.drop_last(), r);
        lemma_durable_cells_are_silent(m, band.drop_last(), r);
        let all = consensus::durable_cells(band, r);
        if all.len() > head.len() {
            assert(all.drop_last() =~= head);
        }
    }
}

proof fn lemma_rebuild_is_silent(m: ShownV, c: ConsensusV, config: ConfigV, prev_position: u64)
    ensures
        shown(m, consensus::rebuild_effects(c, config, prev_position)) == m,
{
    let maps = cluster::peers_of(config, c.id);
    let r = c.reported.restrict(consensus::band_ids(maps.band));
    let peers = seq![
        EffectV::SetPeers {
            followers: cluster::member_addrs(cluster::others(config.voters, c.id)),
            learners: cluster::member_addrs(cluster::others(config.learners, c.id)),
            cluster_size: cluster::sender_size(config, c.id),
        },
        EffectV::ConfigBytes { config, prev_position },
    ];
    let ids = if c.crypto.enabled {
        seq![EffectV::PeerIds(maps.table)]
    } else {
        Seq::empty()
    };
    let cells = consensus::band_cells(maps.band);
    let durable = consensus::durable_cells(maps.band, r);
    let last = seq![EffectV::Plain(Plain::ArchiveFirstBase)];
    lemma_silence(m, peers);
    lemma_silence(m, ids);
    lemma_silence(m, cells);
    lemma_durable_cells_are_silent(m, maps.band, r);
    lemma_silence(m, last);
    lemma_shown_joins(m, peers, ids);
    lemma_shown_joins(m, cells, durable);
    lemma_shown_joins(m, cells + durable, last);
    lemma_shown_joins(m, peers + ids, cells + durable + last);
    assert(consensus::rebuild_effects(c, config, prev_position) =~= peers + ids + (cells + durable
        + last));
}

proof fn lemma_following_shows(m: ShownV, c: ConsensusV, act: ActionV, sm: SmView)
    requires
        mirrors(m, c),
        act is BecomeFollower,
    ensures
        mirrors(shown(m, consensus::action_effects(c, act, sm)), consensus::acted(c, act, sm)),
{
    let e = consensus::action_effects(c, act, sm);
    let inv = admin::invalidation_effects(c.admin, c.config_version);
    let term = act->BecomeFollower_term;
    lemma_silence(m, inv);
    let k = inv.len() as int;
    let a = seq![e[k], e[k + 1], e[k + 2]];
    let rest = e.skip(k + 3);
    assert(e =~= inv + a + rest);
    lemma_shown_joins(m, inv + a, rest);
    lemma_shown_joins(m, inv, a);
    lemma_shown_three(m, a[0], a[1], a[2]);
    if term > c.gate.adopted_term {
        assert(rest =~= seq![rest[0], rest[1], rest[2]]);
        lemma_shown_three(shown(m, inv + a), rest[0], rest[1], rest[2]);
    } else {
        assert(rest =~= seq![rest[0]]);
        lemma_shown_one(shown(m, inv + a), rest[0]);
    }
}

proof fn lemma_leading_shows(m: ShownV, c: ConsensusV, act: ActionV, sm: SmView)
    requires
        mirrors(m, c),
        act is BecomeLeader,
    ensures
        mirrors(shown(m, consensus::action_effects(c, act, sm)), consensus::acted(c, act, sm)),
{
    let e = consensus::action_effects(c, act, sm);
    let inv = admin::invalidation_effects(c.admin, c.config_version);
    lemma_silence(m, inv);
    let rest = e.skip(inv.len() as int);
    assert(e =~= inv + rest);
    lemma_shown_joins(m, inv, rest);
    let a = seq![rest[0], rest[1], rest[2]];
    let z = rest.skip(3);
    assert(rest =~= a + z);
    lemma_shown_joins(m, a, z);
    lemma_shown_three(m, rest[0], rest[1], rest[2]);
    lemma_silence(shown(m, a), z);
}

proof fn lemma_truncating_shows(m: ShownV, c: ConsensusV, act: ActionV, sm: SmView)
    requires
        mirrors(m, c),
        act is Truncate,
    ensures
        mirrors(shown(m, consensus::action_effects(c, act, sm)), consensus::acted(c, act, sm)),
{
    let e = consensus::action_effects(c, act, sm);
    let inv = admin::invalidation_effects(c.admin, c.config_version);
    lemma_silence(m, inv);
    let rest = e.skip(inv.len() as int);
    assert(e =~= inv + rest);
    lemma_shown_joins(m, inv, rest);
    let n = rest.len() as int;
    let a = rest.take(n - 3);
    let z = seq![rest[n - 3], rest[n - 2], rest[n - 1]];
    assert(rest =~= a + z);
    lemma_shown_joins(m, a, z);
    if n == 5 {
        assert(a =~= seq![rest[0], rest[1]]);
        lemma_shown_two(m, rest[0], rest[1]);
    } else {
        assert(a =~= seq![rest[0]]);
        lemma_shown_one(m, rest[0]);
    }
    lemma_shown_three(shown(m, a), rest[n - 3], rest[n - 2], rest[n - 1]);
}

proof fn lemma_adoption_shows(m: ShownV, c: ConsensusV, act: ActionV, sm: SmView)
    requires
        mirrors(m, c),
        act is ConfigAdopted,
    ensures
        mirrors(shown(m, consensus::action_effects(c, act, sm)), consensus::acted(c, act, sm)),
{
    let e = consensus::action_effects(c, act, sm);
    let config = act->ConfigAdopted_config;
    let prev_position = act->ConfigAdopted_prev_position;
    let a = seq![e[0]];
    let b = consensus::rebuild_effects(c, config, prev_position);
    let rest = e.skip(1 + b.len() as int);
    assert(e =~= a + b + rest);
    lemma_shown_joins(m, a + b, rest);
    lemma_shown_joins(m, a, b);
    lemma_shown_one(m, e[0]);
    lemma_rebuild_is_silent(shown(m, a), c, config, prev_position);
    let two = seq![rest[0], rest[1]];
    let z = rest.skip(2);
    assert(rest =~= two + z);
    lemma_shown_joins(shown(m, a), two, z);
    lemma_shown_two(shown(m, a), rest[0], rest[1]);
    lemma_silence(shown(shown(m, a), two), z);
}

/// What stands published keeps up with the agent: whatever the state machine
/// asks for, carrying the effects out in order leaves the intake gate, the
/// data plane's term, the role flags, the leader hint, the appender, the
/// durable record and the configuration's mirrors exactly as the agent then
/// holds them.
pub proof fn law_published_state_follows_the_agent(
    m: ShownV,
    c: ConsensusV,
    act: ActionV,
    sm: SmView,
)
    requires
        mirrors(m, c),
    ensures
        mirrors(
            shown(m, consensus::action_effects(c, act, sm)),
            consensus::acted(c, act, sm),
        ),
{
    let e = consensus::action_effects(c, act, sm);
    if act is BecomeFollower {
        lemma_following_shows(m, c, act, sm);
    } else if act is BecomeLeader {
        lemma_leading_shows(m, c, act, sm);
    } else if act is Truncate {
        lemma_truncating_shows(m, c, act, sm);
    } else if act is ConfigAdopted {
        lemma_adoption_shows(m, c, act, sm);
    } else if act is HaltRemoved || act is StepDownRemoved {
        assert(e.skip(1) =~= consensus::halt_effects(c.reads.pending));
        lemma_halt_shows(m, c, e);
    } else {
        lemma_silence(m, e);
    }
}

proof fn lemma_halt_shows(m: ShownV, c: ConsensusV, e: Seq<EffectV>)
    requires
        mirrors(m, c),
        e.len() >= 1,
        silent(e[0]),
        e.skip(1) == consensus::halt_effects(c.reads.pending),
    ensures
        mirrors(shown(m, e), consensus::halted(c)),
{
    let rest = consensus::halt_effects(c.reads.pending);
    let two = seq![rest[0], rest[1]];
    let z = rest.skip(2);
    assert(e =~= seq![e[0]] + rest);
    lemma_shown_joins(m, seq![e[0]], rest);
    lemma_shown_one(m, e[0]);
    assert(shows(m, e[0]) == m);
    assert(rest =~= two + z);
    lemma_shown_joins(m, two, z);
    lemma_shown_two(m, rest[0], rest[1]);
    lemma_silence(shown(m, two), z);
}

proof fn lemma_run_shows(m: ShownV, c: ConsensusV, acts: Seq<ActionV>, sm: SmView)
    requires
        mirrors(m, c),
    ensures
        mirrors(
            shown(m, consensus::all_effects(c, acts, sm)),
            consensus::all_acted(c, acts, sm),
        ),
    decreases acts.len(),
{
    if acts.len() > 0 {
        let head = acts.drop_last();
        lemma_run_shows(m, c, head, sm);
        let done = consensus::all_effects(c, head, sm);
        let mid = consensus::all_acted(c, head, sm);
        law_published_state_follows_the_agent(shown(m, done), mid, acts.last(), sm);
        lemma_shown_joins(m, done, consensus::action_effects(mid, acts.last(), sm));
    }
}

/// The same over everything that one fed event leads to, the reopening of
/// intake included.
pub proof fn law_published_state_follows_a_feed(
    m: ShownV,
    c: ConsensusV,
    map_term: Option<u32>,
    term_before: u32,
    acts: Seq<ActionV>,
    sm: SmView,
)
    requires
        mirrors(m, c),
    ensures
        mirrors(
            shown(m, consensus::feed_effects(c, map_term, term_before, acts, sm)),
            consensus::fed(c, map_term, term_before, acts, sm),
        ),
{
    lemma_run_shows(m, c, acts, sm);
    let done = consensus::all_effects(c, acts, sm);
    let all = consensus::feed_effects(c, map_term, term_before, acts, sm);
    if consensus::feed_reconciles(c, map_term, term_before, acts, sm) {
        assert(all.drop_last() =~= done);
    }
}

/// The same for what arrives from the network: a leader that is learned of is
/// published, and nothing else is.
pub proof fn law_published_state_follows_the_network(
    m: ShownV,
    c: ConsensusV,
    ev: NetEvent,
    sm: SmView,
    append: u64,
)
    requires
        mirrors(m, c),
    ensures
        mirrors(
            shown(m, consensus::net_effects(c, ev, sm)),
            consensus::net_after(c, ev, sm, append),
        ),
{
    let e = consensus::net_effects(c, ev, sm);
    if e.len() > 0 {
        assert(e.len() == 1);
        assert(e =~= seq![e[0]]);
        lemma_shown_one(m, e[0]);
    }
}

/// The same for an installed snapshot, with or without a configuration.
pub proof fn law_published_state_follows_an_install(
    m: ShownV,
    c: ConsensusV,
    pos: u64,
    term_map: Option<Seq<(u32, u64)>>,
    config: Option<ConfigV>,
)
    requires
        mirrors(m, c),
    ensures
        mirrors(
            shown(m, consensus::install_effects(c, pos, term_map, config)),
            consensus::installed(c, pos, config),
        ),
{
    let e = consensus::install_effects(c, pos, term_map, config);
    let a: Seq<EffectV> = match term_map {
        Some(t) => seq![EffectV::StoreTermMap(t)],
        None => Seq::empty(),
    };
    lemma_silence(m, a);
    let n = e.len() as int;
    let z = seq![e[n - 2], e[n - 1]];
    match config {
        Some(cfg) => {
            let k = a.len() as int;
            let three = seq![e[k], e[k + 1], e[k + 2]];
            let b = consensus::rebuild_effects(c, cfg, pos);
            assert(e =~= a + three + b + z);
            lemma_shown_joins(m, a, three);
            lemma_shown_joins(m, a + three, b);
            lemma_shown_joins(m, a + three + b, z);
            lemma_shown_three(m, e[k], e[k + 1], e[k + 2]);
            lemma_rebuild_is_silent(shown(m, three), c, cfg, pos);
            lemma_shown_two(shown(m, three), e[n - 2], e[n - 1]);
        },
        None => {
            assert(e =~= a + z);
            lemma_shown_joins(m, a, z);
            lemma_shown_two(m, e[n - 2], e[n - 1]);
        },
    }
}

} // verus!
