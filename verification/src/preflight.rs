//! Startup refusals.
//!
//! Every rule catches a mistake that would otherwise fail later and look
//! like something else. The first rule that a configuration breaks is the
//! one that is named.

use crate::config_file;
use crate::config_file::NodeConfig;
use crate::node::cluster;
use crate::node::cluster::{join_members, lists_id, Addr, Member, NodeId};
use crate::text;
use crate::text::{push_addr, push_decimal};
use vstd::prelude::*;
use vstd::string::StringExecFns;

verus! {

/// How many voters and learners there may be: they share the peer band.
pub const MAX_MEMBERS: usize = 8;

/// Why a configuration is refused.
#[derive(Debug, Clone, Copy, PartialEq, Eq)]
pub enum PreflightError {
    BufferNotPowerOfTwo(usize),
    PayloadTooLarge { max_payload: usize, buffer_bytes: usize },
    SelfNotAMember(NodeId),
    LearnerIsAlsoMember(NodeId),
    BindMismatch { bind: Addr, expected: Addr },
    DuplicateId(NodeId),
    TooManyMembers(usize),
    ElectionWindow { min: u64, max: u64 },
}

impl PreflightError {
    /// The refusal in words.
    pub open spec fn text(self) -> Seq<char> {
        match self {
            PreflightError::BufferNotPowerOfTwo(n) => "buffer_bytes must be a power of two, got "@
                + text::digits(n as nat),
            PreflightError::PayloadTooLarge { max_payload, buffer_bytes } => "max_payload ("@
                + text::digits(max_payload as nat) + ") must be well below buffer_bytes ("@
                + text::digits(buffer_bytes as nat) + ")"@,
            PreflightError::SelfNotAMember(id) => "this node's id ("@ + text::digits(id as nat)
                + ") appears in neither members nor learners"@,
            PreflightError::LearnerIsAlsoMember(id) =>
            "learners and members must be disjoint; id "@ + text::digits(id as nat)
                + " appears in both"@,
            PreflightError::BindMismatch { bind, expected } => "bind ("@ + text::addr_text(
                bind.0,
                bind.1,
            ) + ") must be identical to this node's own members entry ("@ + text::addr_text(
                expected.0,
                expected.1,
            )
                + ") — not a wildcard, not 0.0.0.0; a mismatch elects a leader whose followers never commit"@,
            PreflightError::DuplicateId(id) => "duplicate id "@ + text::digits(id as nat)
                + " in members/learners"@,
            PreflightError::TooManyMembers(n) => "cluster has "@ + text::digits(n as nat)
                + " total members (voters + learners); the hard cap is 8"@,
            PreflightError::ElectionWindow { min, max } => "election_timeout_min_ns ("@
                + text::digits(min as nat) + ") must be < election_timeout_max_ns ("@
                + text::digits(max as nat) + ")"@,
        }
    }

    /// The refusal in words.
    pub fn message(self) -> (s: String)
        ensures
            s@ == self.text(),
    {
        match self {
            PreflightError::BufferNotPowerOfTwo(n) => {
                let mut s = "buffer_bytes must be a power of two, got ".to_owned();
                push_decimal(&mut s, n as u128);
                s
            },
            PreflightError::PayloadTooLarge { max_payload, buffer_bytes } => {
                let mut s = "max_payload (".to_owned();
                push_decimal(&mut s, max_payload as u128);
                s.append(") must be well below buffer_bytes (");
                push_decimal(&mut s, buffer_bytes as u128);
                s.append(")");
                s
            },
            PreflightError::SelfNotAMember(id) => {
                let mut s = "this node's id (".to_owned();
                push_decimal(&mut s, id as u128);
                s.append(") appears in neither members nor learners");
                s
            },
            PreflightError::LearnerIsAlsoMember(id) => {
                let mut s = "learners and members must be disjoint; id ".to_owned();
                push_decimal(&mut s, id as u128);
                s.append(" appears in both");
                s
            },
            PreflightError::BindMismatch { bind, expected } => {
                let mut s = "bind (".to_owned();
                push_addr(&mut s, bind.0, bind.1);
                s.append(") must be identical to this node's own members entry (");
                push_addr(&mut s, expected.0, expected.1);
                s.append(
                    ") — not a wildcard, not 0.0.0.0; a mismatch elects a leader whose followers never commit",
                );
                s
            },
            PreflightError::DuplicateId(id) => {
                let mut s = "duplicate id ".to_owned();
                push_decimal(&mut s, id as u128);
                s.append(" in members/learners");
                s
            },
            PreflightError::TooManyMembers(n) => {
                let mut s = "cluster has ".to_owned();
                push_decimal(&mut s, n as u128);
                s.append(" total members (voters + learners); the hard cap is 8");
                s
            },
            PreflightError::ElectionWindow { min, max } => {
                let mut s = "election_timeout_min_ns (".to_owned();
                push_decimal(&mut s, min as u128);
                s.append(") must be < election_timeout_max_ns (");
                push_decimal(&mut s, max as u128);
                s.append(")");
                s
            },
        }
    }
}

/// Whether `n` is a power of two.
pub open spec fn power_of_two(n: nat) -> bool
    decreases n,
{
    n == 1 || (n > 1 && n % 2 == 0 && power_of_two(n / 2))
}

/// Whether `n` is a power of two.
pub fn is_power_of_two(n: usize) -> (r: bool)
    ensures
        r == power_of_two(n as nat),
    decreases n,
{
    if n <= 1 {
        n == 1
    } else if n % 2 != 0 {
        false
    } else {
        is_power_of_two(n / 2)
    }
}

/// The first id that occurs a second time.
pub open spec fn first_repeat(ids: Seq<NodeId>) -> Option<NodeId>
    decreases ids.len(),
{
    if ids.len() == 0 {
        None
    } else {
        match first_repeat(ids.drop_last()) {
            Some(id) => Some(id),
            None => if ids.drop_last().contains(ids.last()) {
                Some(ids.last())
            } else {
                None
            },
        }
    }
}

proof fn lemma_repeat_persists(ids: Seq<NodeId>, n: int)
    requires
        0 <= n <= ids.len(),
        first_repeat(ids.take(n)) is Some,
    ensures
        first_repeat(ids) == first_repeat(ids.take(n)),
    decreases ids.len(),
{
    if n == ids.len() {
        assert(ids.take(n) =~= ids);
    } else {
        assert(ids.drop_last().take(n) =~= ids.take(n));
        lemma_repeat_persists(ids.drop_last(), n);
    }
}

/// The first id of a list that occurs a second time.
pub fn find_repeat(all: &Vec<Member>) -> (r: Option<NodeId>)
    ensures
        r == first_repeat(cluster::member_ids(all@)),
{
    let ghost ids = cluster::member_ids(all@);
    assert(ids.take(0) =~= Seq::<NodeId>::empty());
    let mut i: usize = 0;
    while i < all.len()
        invariant
            i <= all.len(),
            ids == cluster::member_ids(all@),
            first_repeat(ids.take(i as int)) is None,
        decreases all.len() - i,
    {
        assert(ids.take(i as int + 1).drop_last() =~= ids.take(i as int));
        let id = all[i].0;
        let mut j: usize = 0;
        while j < i
            invariant
                j <= i < all.len(),
                ids == cluster::member_ids(all@),
                id == ids[i as int],
                ids.take(i as int + 1).drop_last() == ids.take(i as int),
                first_repeat(ids.take(i as int)) is None,
                forall|k: int| 0 <= k < j ==> ids[k] != id,
            decreases i - j,
        {
            if all[j].0 == id {
                assert(ids.take(i as int)[j as int] == id);
                assert(ids.take(i as int + 1).last() == id);
                assert(ids.take(i as int).contains(id));
                proof {
                    lemma_repeat_persists(ids, i as int + 1);
                }
                return Some(id);
            }
            j = j + 1;
        }
        assert(!ids.take(i as int).contains(id));
        i = i + 1;
    }
    assert(ids.take(i as int) =~= ids);
    None
}

/// The address of the first entry of `id`.
pub open spec fn first_addr(all: Seq<Member>, id: NodeId) -> Option<Addr>
    decreases all.len(),
{
    if all.len() == 0 {
        None
    } else if all[0].0 == id {
        Some(all[0].1)
    } else {
        first_addr(all.skip(1), id)
    }
}

/// The address of the first entry of `id`.
pub fn find_addr(all: &Vec<Member>, id: NodeId) -> (r: Option<Addr>)
    ensures
        r == first_addr(all@, id),
{
    let mut i: usize = 0;
    assert(all@.skip(0) =~= all@);
    while i < all.len()
        invariant
            i <= all.len(),
            first_addr(all@.skip(i as int), id) == first_addr(all@, id),
        decreases all.len() - i,
    {
        if all[i].0 == id {
            return Some(all[i].1);
        }
        assert(all@.skip(i as int).skip(1) =~= all@.skip(i as int + 1));
        i = i + 1;
    }
    None
}

/// The first rule that a configuration breaks.
pub open spec fn fault(cfg: NodeConfig) -> Option<PreflightError> {
    let all = cfg.members@ + cfg.learners@;
    if !power_of_two(cfg.buffer_bytes as nat) {
        Some(PreflightError::BufferNotPowerOfTwo(cfg.buffer_bytes))
    } else if cfg.max_payload > cfg.buffer_bytes / 4 {
        Some(
            PreflightError::PayloadTooLarge {
                max_payload: cfg.max_payload,
                buffer_bytes: cfg.buffer_bytes,
            },
        )
    } else if cfg.election_timeout_min_ns >= cfg.election_timeout_max_ns {
        Some(
            PreflightError::ElectionWindow {
                min: cfg.election_timeout_min_ns,
                max: cfg.election_timeout_max_ns,
            },
        )
    } else {
        match first_repeat(cluster::member_ids(all)) {
            Some(id) => if cluster::lists(cfg.members@, id) && cluster::lists(
                cfg.learners@,
                id,
            ) {
                Some(PreflightError::LearnerIsAlsoMember(id))
            } else {
                Some(PreflightError::DuplicateId(id))
            },
            None => if all.len() > MAX_MEMBERS {
                Some(PreflightError::TooManyMembers(all.len() as usize))
            } else {
                match first_addr(all, cfg.id) {
                    None => Some(PreflightError::SelfNotAMember(cfg.id)),
                    Some(own) => if own != cfg.bind {
                        Some(PreflightError::BindMismatch { bind: cfg.bind, expected: own })
                    } else {
                        None
                    },
                }
            },
        }
    }
}

/// Check a configuration's meaning. The file system is not looked at.
pub fn check_semantics(cfg: &NodeConfig) -> (r: Result<(), PreflightError>)
    ensures
        match r {
            Ok(_) => fault(*cfg) is None,
            Err(e) => fault(*cfg) == Some(e),
        },
{
    if !is_power_of_two(cfg.buffer_bytes) {
        return Err(PreflightError::BufferNotPowerOfTwo(cfg.buffer_bytes));
    }
    if cfg.max_payload > cfg.buffer_bytes / 4 {
        return Err(
            PreflightError::PayloadTooLarge {
                max_payload: cfg.max_payload,
                buffer_bytes: cfg.buffer_bytes,
            },
        );
    }
    if cfg.election_timeout_min_ns >= cfg.election_timeout_max_ns {
        return Err(
            PreflightError::ElectionWindow {
                min: cfg.election_timeout_min_ns,
                max: cfg.election_timeout_max_ns,
            },
        );
    }
    let all = join_members(&cfg.members, &cfg.learners);
    match find_repeat(&all) {
        Some(id) => {
            if lists_id(&cfg.members, id) && lists_id(&cfg.learners, id) {
                return Err(PreflightError::LearnerIsAlsoMember(id));
            }
            return Err(PreflightError::DuplicateId(id));
        },
        None => {},
    }
    if all.len() > MAX_MEMBERS {
        return Err(PreflightError::TooManyMembers(all.len()));
    }
    match find_addr(&all, cfg.id) {
        None => Err(PreflightError::SelfNotAMember(cfg.id)),
        Some(own) => {
            if own.0 != cfg.bind.0 || own.1 != cfg.bind.1 {
                return Err(PreflightError::BindMismatch { bind: cfg.bind, expected: own });
            }
            Ok(())
        },
    }
}

proof fn lemma_no_repeat(ids: Seq<NodeId>, i: int, j: int)
    requires
        first_repeat(ids) is None,
        0 <= i < j < ids.len(),
    ensures
        ids[i] != ids[j],
    decreases ids.len(),
{
    if j < ids.len() - 1 {
        lemma_no_repeat(ids.drop_last(), i, j);
    } else {
        assert(ids.drop_last()[i] == ids[i]);
        assert(!ids.drop_last().contains(ids.last()));
    }
}

proof fn lemma_first_addr_is_listed(all: Seq<Member>, id: NodeId)
    requires
        first_addr(all, id) is Some,
    ensures
        exists|i: int| 0 <= i < all.len() && #[trigger] all[i] == (id, first_addr(all, id)->0),
    decreases all.len(),
{
    if all[0].0 == id {
        assert(all[0] == (id, first_addr(all, id)->0));
    } else {
        lemma_first_addr_is_listed(all.skip(1), id);
        let i = choose|i: int|
            0 <= i < all.skip(1).len() && #[trigger] all.skip(1)[i] == (
                id,
                first_addr(all.skip(1), id)->0,
            );
        assert(all[i + 1] == (id, first_addr(all, id)->0));
    }
}

/// A configuration that passes lists every id once, voters and learners
/// apart, no more of them than the peer band holds, and this node under the
/// very address that it binds; four payloads fit its buffer.
pub proof fn law_accepted_configuration_is_sound(cfg: NodeConfig)
    requires
        fault(cfg) is None,
    ensures
        ({
            let all = cfg.members@ + cfg.learners@;
            &&& forall|i: int, j: int|
                0 <= i < j < all.len() ==> (#[trigger] all[i]).0 != (#[trigger] all[j]).0
            &&& all.len() <= MAX_MEMBERS
            &&& exists|i: int| 0 <= i < all.len() && #[trigger] all[i] == (cfg.id, cfg.bind)
            &&& 4 * cfg.max_payload <= cfg.buffer_bytes
            &&& cfg.election_timeout_min_ns < cfg.election_timeout_max_ns
        }),
{
    let all = cfg.members@ + cfg.learners@;
    let ids = cluster::member_ids(all);
    assert forall|i: int, j: int| 0 <= i < j < all.len() implies (#[trigger] all[i]).0 != (
    #[trigger] all[j]).0 by {
        lemma_no_repeat(ids, i, j);
        assert(ids[i] == all[i].0);
        assert(ids[j] == all[j].0);
    }
    lemma_first_addr_is_listed(all, cfg.id);
}

/// The defaults can be started on: a lone node that binds its own address
/// passes with every size and timeout left to its default.
pub proof fn law_defaults_pass(cfg: NodeConfig)
    requires
        cfg.members@ == seq![(cfg.id, cfg.bind)],
        cfg.learners@.len() == 0,
        cfg.buffer_bytes == config_file::DEFAULT_BUFFER_BYTES,
        cfg.max_payload == config_file::DEFAULT_MAX_PAYLOAD,
        cfg.election_timeout_min_ns == config_file::DEFAULT_ELECTION_MIN_NS,
        cfg.election_timeout_max_ns == config_file::DEFAULT_ELECTION_MAX_NS,
    ensures
        fault(cfg) is None,
{
    reveal_with_fuel(power_of_two, 28);
    assert(power_of_two(67_108_864));
    let all = cfg.members@ + cfg.learners@;
    assert(all =~= seq![(cfg.id, cfg.bind)]);
    let ids = cluster::member_ids(all);
    assert(ids.drop_last() =~= Seq::<NodeId>::empty());
    assert(first_repeat(Seq::<NodeId>::empty()) is None);
    assert(first_repeat(ids) is None);
}

/// An id's own address is that of its first entry, and there is one exactly
/// where the id is listed.
pub proof fn law_own_address_is_the_first_listed(all: Seq<Member>, id: NodeId)
    ensures
        first_addr(all, id) is Some <==> cluster::lists(all, id),
        first_addr(all, id) matches Some(a) ==> all.contains((id, a)),
        first_addr(all, id) matches Some(a) ==> exists|k: int|
            0 <= k < all.len() && #[trigger] all[k] == (id, a) && forall|j: int|
                0 <= j < k ==> (#[trigger] all[j]).0 != id,
    decreases all.len(),
{
    if all.len() > 0 {
        let rest = all.skip(1);
        law_own_address_is_the_first_listed(rest, id);
        assert(forall|j: int| 0 <= j < rest.len() ==> rest[j] == all[j + 1]);
        if all[0].0 == id {
            assert(all[0] == (id, all[0].1));
        } else {
            if cluster::lists(all, id) {
                let k = choose|k: int| 0 <= k < all.len() && (#[trigger] all[k]).0 == id;
                assert(rest[k - 1].0 == id);
            }
            if first_addr(all, id) is Some {
                let a = first_addr(all, id)->0;
                let k = choose|k: int|
                    0 <= k < rest.len() && #[trigger] rest[k] == (id, a) && forall|j: int|
                        0 <= j < k ==> (#[trigger] rest[j]).0 != id;
                assert(all[k + 1] == (id, a));
                assert forall|j: int| 0 <= j < k + 1 implies (#[trigger] all[j]).0 != id by {
                    if j > 0 {
                        assert(rest[j - 1].0 != id);
                    }
                }
            }
        }
    }
}

/// A repeat is named exactly where some id is listed twice, and is such an
/// id.
pub proof fn law_repeats_are_found(ids: Seq<NodeId>)
    ensures
        first_repeat(ids) is None <==> ids.no_duplicates(),
        first_repeat(ids) matches Some(id) ==> exists|i: int, j: int|
            0 <= i < j < ids.len() && #[trigger] ids[i] == id && #[trigger] ids[j] == id,
    decreases ids.len(),
{
    if ids.len() > 0 {
        let head = ids.drop_last();
        law_repeats_are_found(head);
        assert(forall|j: int| 0 <= j < head.len() ==> head[j] == ids[j]);
        assert(ids[ids.len() - 1] == ids.last());
        if first_repeat(head) is Some {
            let id = first_repeat(head)->0;
            let (i, j) = choose|i: int, j: int|
                0 <= i < j < head.len() && #[trigger] head[i] == id && #[trigger] head[j] == id;
            assert(ids[i] == id && ids[j] == id);
        } else if head.contains(ids.last()) {
            let i = choose|i: int| 0 <= i < head.len() && head[i] == ids.last();
            assert(ids[i] == ids.last() && ids[ids.len() - 1] == ids.last());
        } else {
            assert forall|i: int, j: int|
                0 <= i < ids.len() && 0 <= j < ids.len() && i != j implies ids[i] != ids[j] by {
                if i < head.len() && j < head.len() {
                    assert(head[i] != head[j]);
                } else if i < head.len() {
                    assert(head.contains(head[i]));
                } else {
                    assert(head.contains(head[j]));
                }
            }
        }
    }
}

/// Powers of two are 1 and whatever doubles one; nothing odd beyond 1 is, and
/// neither is 0.
pub proof fn law_powers_of_two_double(n: nat)
    ensures
        power_of_two(1),
        !power_of_two(0),
        n > 0 ==> (power_of_two(2 * n) <==> power_of_two(n)),
        n > 1 && n % 2 == 1 ==> !power_of_two(n),
{
    if n > 0 {
        assert((2 * n) / 2 == n);
        assert((2 * n) % 2 == 0);
    }
}

/// A configuration is refused exactly where its buffer is no power of two,
/// fewer than four payloads fit it, its election window is empty, some id is
/// listed twice, there are more than eight members, or this node is not listed
/// under the address it binds.
pub proof fn law_configuration_is_refused_for_a_fault(cfg: NodeConfig)
    ensures
        ({
            let all = cfg.members@ + cfg.learners@;
            fault(cfg) is None <==> {
                &&& power_of_two(cfg.buffer_bytes as nat)
                &&& 4 * cfg.max_payload <= cfg.buffer_bytes
                &&& cfg.election_timeout_min_ns < cfg.election_timeout_max_ns
                &&& cluster::member_ids(all).no_duplicates()
                &&& all.len() <= 8
                &&& first_addr(all, cfg.id) == Some(cfg.bind)
            }
        }),
{
    law_repeats_are_found(cluster::member_ids(cfg.members@ + cfg.learners@));
}

/// The fault that is named is there, with the figures it has.
pub proof fn law_named_fault_is_there(cfg: NodeConfig)
    ensures
        ({
            let all = cfg.members@ + cfg.learners@;
            match fault(cfg) {
                None => true,
                Some(PreflightError::BufferNotPowerOfTwo(n)) => n == cfg.buffer_bytes
                    && !power_of_two(n as nat),
                Some(PreflightError::PayloadTooLarge { max_payload, buffer_bytes }) => max_payload
                    == cfg.max_payload && buffer_bytes == cfg.buffer_bytes && 4 * max_payload
                    > buffer_bytes,
                Some(PreflightError::ElectionWindow { min, max }) => min
                    == cfg.election_timeout_min_ns && max == cfg.election_timeout_max_ns && min
                    >= max,
                Some(PreflightError::LearnerIsAlsoMember(id)) => cluster::lists(cfg.members@, id)
                    && cluster::lists(cfg.learners@, id),
                Some(PreflightError::DuplicateId(id)) => exists|i: int, j: int|
                    0 <= i < j < all.len() && (#[trigger] all[i]).0 == id && (#[trigger] all[j]).0
                        == id,
                Some(PreflightError::TooManyMembers(n)) => all.len() > 8 && (all.len()
                    <= usize::MAX ==> n == all.len()),
                Some(PreflightError::SelfNotAMember(id)) => id == cfg.id && !cluster::lists(
                    all,
                    id,
                ),
                Some(PreflightError::BindMismatch { bind, expected }) => bind == cfg.bind
                    && expected != bind && all.contains((cfg.id, expected)),
            }
        }),
{
    let all = cfg.members@ + cfg.learners@;
    let ids = cluster::member_ids(all);
    law_repeats_are_found(ids);
    law_own_address_is_the_first_listed(all, cfg.id);
    if let Some(PreflightError::DuplicateId(id)) = fault(cfg) {
        let (i, j) = choose|i: int, j: int|
            0 <= i < j < ids.len() && #[trigger] ids[i] == id && #[trigger] ids[j] == id;
        assert(all[i].0 == id && all[j].0 == id);
    }
}

} // verus!
