//! Offline recovery: the configuration a boot would adopt, and forcing a
//! lone survivor.
//!
//! A forced record is pinned at the durable frontier, one version above what
//! was recovered, so that the survivor's next boot adopts it and nothing
//! older. Peers that are dropped are not tombstoned: they rejoin later under
//! fresh ids.

use crate::node::boot;
use crate::node::cluster;
use crate::node::cluster::{
    cluster_to_stored, copy_ids, holds_id, ids_of, join_members, other_members, stored_to_cluster,
    Addr, ClusterConfig, ConfigRecord, ConfigV, Member, NodeId, RecordV,
};
use crate::node::recover;
use crate::preflight;
use crate::preflight::find_addr;
use crate::text;
use crate::text::push_decimal;
use vstd::prelude::*;
use vstd::string::StringExecFns;

verus! {

/// The configuration a boot would adopt, and the durable frontier.
#[derive(Debug, Clone, PartialEq, Eq)]
pub struct RecoveredConfig {
    pub version: u64,
    pub voters: Vec<Member>,
    pub learners: Vec<Member>,
    pub tombstones: Vec<NodeId>,
    pub durable: u64,
}

/// What a recovered record comes to.
pub fn recovered_config(rec: &ConfigRecord, durable: u64) -> (r: RecoveredConfig)
    ensures
        comes_to(r, rec@.config, durable),
{
    let c = stored_to_cluster(&rec.config);
    RecoveredConfig {
        version: c.version,
        voters: c.voters,
        learners: c.learners,
        tombstones: c.tombstones,
        durable,
    }
}

/// What forcing a survivor did.
#[derive(Debug, Clone, PartialEq, Eq)]
pub struct ForceReport {
    pub old_version: u64,
    pub new_version: u64,
    pub durable: u64,
    /// Everyone but the survivor.
    pub dropped_peers: Vec<NodeId>,
}

/// Why a survivor is not forced.
#[derive(Debug, Clone, Copy, PartialEq, Eq, Structural)]
pub enum ForceRefusal {
    Tombstoned { id: NodeId, version: u64 },
    NotAMember { id: NodeId, version: u64 },
}

impl ForceRefusal {
    /// The refusal in words.
    pub open spec fn text(self) -> Seq<char> {
        match self {
            ForceRefusal::Tombstoned { id, version } => "node "@ + text::digits(id as nat)
                + " is tombstoned in the recovered cluster config (v"@ + text::digits(
                version as nat,
            ) + "); a tombstoned id can never be forced back into the cluster"@,
            ForceRefusal::NotAMember { id, version } => "node "@ + text::digits(id as nat)
                + " is not a member (voter or learner) of the recovered cluster config (v"@
                + text::digits(version as nat) + ")"@,
        }
    }

    /// The refusal in words.
    pub fn message(self) -> (s: String)
        ensures
            s@ == self.text(),
    {
        match self {
            ForceRefusal::Tombstoned { id, version } => {
                let mut s = "node ".to_owned();
                push_decimal(&mut s, id as u128);
                s.append(" is tombstoned in the recovered cluster config (v");
                push_decimal(&mut s, version as u128);
                s.append("); a tombstoned id can never be forced back into the cluster");
                s
            },
            ForceRefusal::NotAMember { id, version } => {
                let mut s = "node ".to_owned();
                push_decimal(&mut s, id as u128);
                s.append(
                    " is not a member (voter or learner) of the recovered cluster config (v",
                );
                push_decimal(&mut s, version as u128);
                s.append(")");
                s
            },
        }
    }
}

/// Whether the survivor is refused.
pub open spec fn force_refusal(recovered: ConfigV, id: NodeId) -> Option<ForceRefusal> {
    if recovered.tombstones.contains(id) {
        Some(ForceRefusal::Tombstoned { id, version: recovered.version })
    } else if preflight::first_addr(recovered.voters + recovered.learners, id) is None {
        Some(ForceRefusal::NotAMember { id, version: recovered.version })
    } else {
        None
    }
}

/// The configuration with the survivor as its one voter, at the address it
/// had.
pub open spec fn forced_config(recovered: ConfigV, id: NodeId) -> ConfigV {
    ConfigV {
        version: (recovered.version + 1) as u64,
        voters: seq![
            (id, preflight::first_addr(recovered.voters + recovered.learners, id)->0),
        ],
        learners: Seq::empty(),
        tombstones: recovered.tombstones,
    }
}

/// The record to store for a forced survivor.
pub open spec fn forced_record(recovered: ConfigV, durable: u64, id: NodeId) -> RecordV {
    let c = forced_config(recovered, id);
    RecordV { position: durable, config: c, prev_position: durable, prev: c }
}

/// The survivor's address, or why it is refused.
fn survivor_addr(rec: &ConfigRecord, id: NodeId) -> (r: Result<Addr, ForceRefusal>)
    ensures
        match r {
            Err(e) => force_refusal(rec@.config, id) == Some(e),
            Ok(addr) => {
                &&& force_refusal(rec@.config, id) is None
                &&& preflight::first_addr(rec@.config.voters + rec@.config.learners, id) == Some(
                    addr,
                )
            },
        },
{
    let recovered = stored_to_cluster(&rec.config);
    if holds_id(&recovered.tombstones, id) {
        return Err(ForceRefusal::Tombstoned { id, version: recovered.version });
    }
    let all = join_members(&recovered.voters, &recovered.learners);
    match find_addr(&all, id) {
        None => Err(ForceRefusal::NotAMember { id, version: recovered.version }),
        Some(addr) => Ok(addr),
    }
}

/// Why `id` cannot be made the one member, if it cannot.
pub fn refuse_force(rec: &ConfigRecord, id: NodeId) -> (r: Option<ForceRefusal>)
    ensures
        r == force_refusal(rec@.config, id),
{
    match survivor_addr(rec, id) {
        Err(e) => Some(e),
        Ok(_) => None,
    }
}

/// Make `id` the one member: the record to store, and what it changes. On a
/// refusal nothing is to be stored.
pub fn force_single_member(rec: &ConfigRecord, durable: u64, id: NodeId) -> (r: Result<
    (ConfigRecord, ForceReport),
    ForceRefusal,
>)
    requires
        force_refusal(rec@.config, id) is None ==> rec@.config.version < u64::MAX,
    ensures
        match r {
            Err(e) => force_refusal(rec@.config, id) == Some(e),
            Ok((stored, report)) => {
                &&& force_refusal(rec@.config, id) is None
                &&& stored@ == forced_record(rec@.config, durable, id)
                &&& report.old_version == rec@.config.version
                &&& report.new_version == rec@.config.version + 1
                &&& report.durable == durable
                &&& report.dropped_peers@ == cluster::member_ids(
                    cluster::others(rec@.config.voters + rec@.config.learners, id),
                )
            },
        },
{
    let addr: Addr = match survivor_addr(rec, id) {
        Err(e) => {
            return Err(e);
        },
        Ok(a) => a,
    };
    let recovered = stored_to_cluster(&rec.config);
    let all = join_members(&recovered.voters, &recovered.learners);
    let dropped = other_members(&all, id);
    let dropped_peers = ids_of(&dropped);
    let forced = ClusterConfig {
        version: recovered.version + 1,
        voters: vec![(id, addr)],
        learners: Vec::new(),
        tombstones: copy_ids(&recovered.tombstones),
    };
    assert(forced@ =~= forced_config(rec@.config, id));
    let stored = ConfigRecord {
        position: durable,
        config: cluster_to_stored(&forced),
        prev_position: durable,
        prev: cluster_to_stored(&forced),
    };
    Ok(
        (
            stored,
            ForceReport {
                old_version: recovered.version,
                new_version: forced.version,
                durable,
                dropped_peers,
            },
        ),
    )
}

/// The survivor's next boot adopts the forced record: the durable frontier
/// backs it, none of the frames that were recovered supersedes it, whichever
/// of them that boot replays, and the boot is not refused.
pub proof fn law_forced_record_survives_the_next_boot(
    base: RecordV,
    frames: Seq<recover::FrameV>,
    later: Seq<recover::FrameV>,
    durable: u64,
    seed: RecordV,
    id: NodeId,
)
    requires
        recover::fold_config(base, frames).config.version < u64::MAX,
        force_refusal(recover::fold_config(base, frames).config, id) is None,
        forall|i: int| 0 <= i < later.len() ==> frames.contains(#[trigger] later[i]),
    ensures
        ({
            let recovered = recover::fold_config(base, frames).config;
            let forced = forced_record(recovered, durable, id);
            &&& recover::fold_config(
                recover::trusted_record(Some(forced), durable, seed),
                later,
            ) == forced
            &&& boot::refusal(id, forced.config) is None
            &&& forced.config.voters.len() == 1
            &&& cluster::lists(forced.config.voters, id)
        }),
{
    let recovered = recover::fold_config(base, frames).config;
    let forced = forced_record(recovered, durable, id);
    recover::law_fold_reaches_every_version(base, frames);
    assert forall|i: int|
        0 <= i < later.len() && (#[trigger] later[i]).config is Some implies forced.config.version
        >= later[i].config->0.version by {
        let j = choose|j: int| 0 <= j < frames.len() && frames[j] == later[i];
        assert(frames[j].config is Some);
    }
    recover::law_newest_record_stays(forced, later);
    assert(forced.config.voters[0].0 == id);
}

/// Forcing drops everyone else and tombstones no one.
pub proof fn law_forcing_tombstones_no_one(recovered: ConfigV, durable: u64, id: NodeId)
    ensures
        forced_record(recovered, durable, id).config.tombstones == recovered.tombstones,
        !cluster::member_ids(cluster::others(recovered.voters + recovered.learners, id)).contains(
            id,
        ),
{
    lemma_others_leave_out(recovered.voters + recovered.learners, id);
}

proof fn lemma_others_leave_out(s: Seq<Member>, id: NodeId)
    ensures
        forall|i: int|
            0 <= i < cluster::others(s, id).len() ==> (#[trigger] cluster::others(s, id)[i]).0
                != id,
    decreases s.len(),
{
    if s.len() > 0 {
        lemma_others_leave_out(s.drop_last(), id);
        let rest = cluster::others(s.drop_last(), id);
        assert forall|i: int| 0 <= i < cluster::others(s, id).len() implies (
        #[trigger] cluster::others(s, id)[i]).0 != id by {
            if i < rest.len() {
                assert(cluster::others(s, id)[i] == rest[i]);
            }
        }
    }
}

/// Whether `r` is what a recovered record comes to.
pub open spec fn comes_to(r: RecoveredConfig, config: ConfigV, durable: u64) -> bool {
    &&& r.version == config.version
    &&& r.voters@ == config.voters
    &&& r.learners@ == config.learners
    &&& r.tombstones@ == config.tombstones
    &&& r.durable == durable
}

/// What is reported of a recovered record is the whole of it: no two
/// configurations, and no two frontiers, are reported alike.
pub proof fn law_report_is_of_one_configuration(
    r: RecoveredConfig,
    a: ConfigV,
    b: ConfigV,
    durable: u64,
    other: u64,
)
    requires
        comes_to(r, a, durable),
        comes_to(r, b, other),
    ensures
        a == b,
        durable == other,
{
}

/// A survivor is refused exactly where it was removed, or is neither a voter
/// nor a learner; removal is named first.
pub proof fn law_only_a_member_can_be_forced(recovered: ConfigV, id: NodeId)
    ensures
        recovered.tombstones.contains(id) ==> force_refusal(recovered, id) == Some(
            ForceRefusal::Tombstoned { id, version: recovered.version },
        ),
        !recovered.tombstones.contains(id) && !cluster::lists(recovered.voters, id)
            && !cluster::lists(recovered.learners, id) ==> force_refusal(recovered, id) == Some(
            ForceRefusal::NotAMember { id, version: recovered.version },
        ),
        !recovered.tombstones.contains(id) && (cluster::lists(recovered.voters, id)
            || cluster::lists(recovered.learners, id)) ==> force_refusal(recovered, id) is None,
{
    let all = recovered.voters + recovered.learners;
    preflight::law_own_address_is_the_first_listed(all, id);
    if cluster::lists(recovered.voters, id) {
        let k = choose|k: int|
            0 <= k < recovered.voters.len() && (#[trigger] recovered.voters[k]).0 == id;
        assert(all[k].0 == id);
    }
    if cluster::lists(recovered.learners, id) {
        let k = choose|k: int|
            0 <= k < recovered.learners.len() && (#[trigger] recovered.learners[k]).0 == id;
        assert(all[recovered.voters.len() + k].0 == id);
    }
    if cluster::lists(all, id) {
        let k = choose|k: int| 0 <= k < all.len() && (#[trigger] all[k]).0 == id;
        if k < recovered.voters.len() {
            assert(recovered.voters[k].0 == id);
        } else {
            assert(recovered.learners[k - recovered.voters.len()].0 == id);
        }
    }
}

/// A forced survivor is the one voter, at the address it was a member under,
/// with no learner beside it and everybody's removal kept. The record is one
/// version on, at the durable frontier, and leaves nothing to go back to.
pub proof fn law_forced_survivor_is_the_one_voter(recovered: ConfigV, durable: u64, id: NodeId)
    requires
        force_refusal(recovered, id) is None,
        recovered.version < u64::MAX,
    ensures
        ({
            let r = forced_record(recovered, durable, id);
            &&& r.position == durable && r.prev_position == durable && r.prev == r.config
            &&& r.config.version == recovered.version + 1
            &&& r.config.voters.len() == 1 && r.config.voters[0].0 == id
            &&& recovered.voters.contains(r.config.voters[0]) || recovered.learners.contains(
                r.config.voters[0],
            )
            &&& r.config.learners.len() == 0
            &&& r.config.tombstones == recovered.tombstones
        }),
{
    let all = recovered.voters + recovered.learners;
    preflight::law_own_address_is_the_first_listed(all, id);
    let m = (id, preflight::first_addr(all, id)->0);
    let k = choose|k: int| 0 <= k < all.len() && all[k] == m;
    if k < recovered.voters.len() {
        assert(recovered.voters[k] == m);
    } else {
        assert(recovered.learners[k - recovered.voters.len()] == m);
    }
}

} // verus!
