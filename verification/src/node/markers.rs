//! The durable markers: how far the output handler has come, and the snapshot
//! floor that the journal may be purged below. Both only ever move forward.

use crate::node::effects::{ArchiveCmd, EffectV, Effects, Plain};
use vstd::prelude::*;

verus! {

/// Floor on the time between two durable stores of a marker.
pub const OUTPUT_PROGRESS_FLOOR_NS: u64 = 100_000_000;

/// Journal purge policy. Off unless a deployment asks for it.
#[derive(Debug, Clone, Copy, PartialEq, Eq)]
pub enum PurgePolicy {
    Disabled,
    /// Purge journal blocks below the snapshot floor, less a margin that
    /// stays replayable.
    BelowSnapshot { slack_bytes: u64 },
}

impl Default for PurgePolicy {
    fn default() -> (p: PurgePolicy)
        ensures
            p == PurgePolicy::Disabled,
    {
        PurgePolicy::Disabled
    }
}

/// The markers as this node has stored them, and when.
#[derive(Debug, Clone, Copy, PartialEq, Eq)]
pub struct Markers {
    pub output: u64,
    pub output_stored_ns: Option<u64>,
    pub snapshot_floor: u64,
    pub snapshot_stored_ns: Option<u64>,
    pub purge: PurgePolicy,
}

/// Whether a store is due again.
pub open spec fn store_due(last: Option<u64>, now_ns: u64) -> bool {
    match last {
        Some(t) => now_ns - t >= OUTPUT_PROGRESS_FLOOR_NS,
        None => true,
    }
}

/// Whether a store is due again.
fn is_store_due(last: Option<u64>, now_ns: u64) -> (r: bool)
    ensures
        r == store_due(last, now_ns),
{
    match last {
        Some(t) => now_ns.saturating_sub(t) >= OUTPUT_PROGRESS_FLOOR_NS,
        None => true,
    }
}

/// `a` less `b`, never below 0.
pub open spec fn less(a: u64, b: u64) -> u64 {
    if a < b {
        0
    } else {
        (a - b) as u64
    }
}

impl Markers {
    /// Whether the output marker is stored now.
    pub open spec fn stores_output(self, completed: u64, now_ns: u64) -> bool {
        completed > self.output && store_due(self.output_stored_ns, now_ns)
    }

    /// The markers after the output handler's progress was sampled.
    pub open spec fn output_sampled(self, completed: u64, now_ns: u64) -> Markers {
        if self.stores_output(completed, now_ns) {
            Markers { output: completed, output_stored_ns: Some(now_ns), ..self }
        } else {
            self
        }
    }

    /// Whether the service offers a newer floor that this node's own durable
    /// frontier backs.
    pub open spec fn new_floor(self, service_pos: u64, durable: u64) -> bool {
        service_pos > self.snapshot_floor && service_pos <= durable
    }

    /// The floor after the service's snapshot position was taken up.
    pub open spec fn floor_after(self, service_pos: u64, durable: u64) -> u64 {
        if self.new_floor(service_pos, durable) {
            service_pos
        } else {
            self.snapshot_floor
        }
    }

    /// What to purge below, where the policy asks for it and it would advance
    /// the archive's first retained position.
    pub open spec fn purge_target(self, floor: u64, first_base: u64) -> Option<u64> {
        match self.purge {
            PurgePolicy::Disabled => None,
            PurgePolicy::BelowSnapshot { slack_bytes } => if less(floor, slack_bytes)
                > first_base {
                Some(less(floor, slack_bytes))
            } else {
                None
            },
        }
    }

    /// Whether sampling the snapshot position stores or purges anything.
    pub open spec fn snapshot_acts(
        self,
        service_pos: u64,
        durable: u64,
        first_base: u64,
        now_ns: u64,
    ) -> bool {
        &&& store_due(self.snapshot_stored_ns, now_ns)
        &&& self.new_floor(service_pos, durable) || self.purge_target(
            self.floor_after(service_pos, durable),
            first_base,
        ) is Some
    }

    /// The markers after the service's snapshot position was sampled.
    pub open spec fn snapshot_sampled(
        self,
        service_pos: u64,
        durable: u64,
        first_base: u64,
        now_ns: u64,
    ) -> Markers {
        if self.snapshot_acts(service_pos, durable, first_base, now_ns) {
            Markers {
                snapshot_floor: self.floor_after(service_pos, durable),
                snapshot_stored_ns: Some(now_ns),
                ..self
            }
        } else {
            self
        }
    }

    /// The effects of sampling the service's snapshot position: the floor
    /// durably first, then its mirror, then the purge it allows.
    pub open spec fn snapshot_effects(
        self,
        service_pos: u64,
        durable: u64,
        first_base: u64,
        now_ns: u64,
    ) -> Seq<EffectV> {
        if !self.snapshot_acts(service_pos, durable, first_base, now_ns) {
            Seq::empty()
        } else {
            let stored = if self.new_floor(service_pos, durable) {
                seq![
                    EffectV::Plain(Plain::StoreSnapshotFloor(service_pos)),
                    EffectV::Plain(Plain::SnapshotFloor(service_pos)),
                ]
            } else {
                Seq::empty()
            };
            match self.purge_target(self.floor_after(service_pos, durable), first_base) {
                Some(below) => stored.push(
                    EffectV::Plain(Plain::Archive(ArchiveCmd::Purge { below })),
                ),
                None => stored,
            }
        }
    }

    /// The markers of a node that has just recovered them.
    pub fn boot(output: u64, snapshot_floor: u64, purge: PurgePolicy) -> (m: Markers)
        ensures
            m == (Markers {
                output,
                output_stored_ns: None,
                snapshot_floor,
                snapshot_stored_ns: None,
                purge,
            }),
    {
        Markers { output, output_stored_ns: None, snapshot_floor, snapshot_stored_ns: None, purge }
    }

    /// Sample the output handler's progress: an increase is stored durably,
    /// then mirrored, at most once per floor interval. A lower value, such as
    /// that of a fresh page, is never stored.
    pub fn maybe_persist_output_progress(&mut self, completed: u64, now_ns: u64) -> (out: Effects)
        ensures
            *final(self) == old(self).output_sampled(completed, now_ns),
            out@ == old(self).output_effects(completed, now_ns),
    {
        let mut out = Effects::new();
        if completed <= self.output {
            return out;
        }
        if !is_store_due(self.output_stored_ns, now_ns) {
            return out;
        }
        out.plain(Plain::StoreOutputProgress(completed));
        out.plain(Plain::OutputProgress(completed));
        self.output = completed;
        self.output_stored_ns = Some(now_ns);
        out
    }

    /// Sample the service's newest snapshot position.
    pub fn maybe_persist_snapshot_floor(
        &mut self,
        service_pos: u64,
        durable: u64,
        first_base: u64,
        now_ns: u64,
    ) -> (out: Effects)
        ensures
            *final(self) == old(self).snapshot_sampled(service_pos, durable, first_base, now_ns),
            out@ == old(self).snapshot_effects(service_pos, durable, first_base, now_ns),
    {
        let mut out = Effects::new();
        let have_new_floor = service_pos > self.snapshot_floor && service_pos <= durable;
        let purge_on = match self.purge {
            PurgePolicy::Disabled => false,
            PurgePolicy::BelowSnapshot { .. } => true,
        };
        if !have_new_floor && !purge_on {
            return out;
        }
        if !is_store_due(self.snapshot_stored_ns, now_ns) {
            return out;
        }
        let mut did = false;
        if have_new_floor {
            out.plain(Plain::StoreSnapshotFloor(service_pos));
            out.plain(Plain::SnapshotFloor(service_pos));
            self.snapshot_floor = service_pos;
            did = true;
        }
        match self.purge {
            PurgePolicy::Disabled => {},
            PurgePolicy::BelowSnapshot { slack_bytes } => {
                let target: u64 = self.snapshot_floor.saturating_sub(slack_bytes);
                if target > first_base {
                    out.plain(Plain::Archive(ArchiveCmd::Purge { below: target }));
                    did = true;
                }
            },
        }
        if did {
            self.snapshot_stored_ns = Some(now_ns);
        }
        assert(out@ =~= old(self).snapshot_effects(service_pos, durable, first_base, now_ns));
        out
    }
}

/// A stored marker never moves backwards, whatever a page or a service says.
pub proof fn law_markers_never_regress(
    m: Markers,
    completed: u64,
    service_pos: u64,
    durable: u64,
    first_base: u64,
    now_ns: u64,
)
    ensures
        m.output_sampled(completed, now_ns).output >= m.output,
        m.snapshot_sampled(service_pos, durable, first_base, now_ns).snapshot_floor
            >= m.snapshot_floor,
{
}

/// A newly stored snapshot floor is a position that this node has made
/// durable itself.
pub proof fn law_new_floor_is_durable(
    m: Markers,
    service_pos: u64,
    durable: u64,
    first_base: u64,
    now_ns: u64,
)
    ensures
        ({
            let after = m.snapshot_sampled(service_pos, durable, first_base, now_ns);
            after.snapshot_floor == m.snapshot_floor || after.snapshot_floor <= durable
        }),
{
}

/// Nothing is purged unless the policy asks for it, never above the stored
/// snapshot floor less the margin, and never without advancing the archive's
/// first retained position.
pub proof fn law_purge_stays_below_the_floor(
    m: Markers,
    service_pos: u64,
    durable: u64,
    first_base: u64,
    now_ns: u64,
    i: int,
)
    ensures
        ({
            let out = m.snapshot_effects(service_pos, durable, first_base, now_ns);
            let after = m.snapshot_sampled(service_pos, durable, first_base, now_ns);
            0 <= i < out.len() ==> (out[i] matches EffectV::Plain(
                Plain::Archive(ArchiveCmd::Purge { below }),
            ) ==> {
                &&& m.purge matches PurgePolicy::BelowSnapshot { slack_bytes } && below == less(
                    after.snapshot_floor,
                    slack_bytes,
                )
                &&& below <= after.snapshot_floor
                &&& below > first_base
            })
        }),
{
}

/// Two samples within the floor interval of each other store at most once,
/// and neither does the second one purge anything.
pub proof fn law_stores_are_spaced(
    m: Markers,
    a: u64,
    b: u64,
    durable_a: u64,
    durable_b: u64,
    base_a: u64,
    base_b: u64,
    t0: u64,
    t1: u64,
)
    requires
        t1 - t0 < OUTPUT_PROGRESS_FLOOR_NS,
    ensures
        m.stores_output(a, t0) ==> !m.output_sampled(a, t0).stores_output(b, t1),
        m.snapshot_acts(a, durable_a, base_a, t0) ==> m.snapshot_sampled(
            a,
            durable_a,
            base_a,
            t0,
        ).snapshot_effects(b, durable_b, base_b, t1) == Seq::<EffectV>::empty(),
{
}

impl Markers {
    /// The effects of sampling the output handler's progress: durably first,
    /// then its mirror.
    pub open spec fn output_effects(self, completed: u64, now_ns: u64) -> Seq<EffectV> {
        if self.stores_output(completed, now_ns) {
            seq![
                EffectV::Plain(Plain::StoreOutputProgress(completed)),
                EffectV::Plain(Plain::OutputProgress(completed)),
            ]
        } else {
            Seq::empty()
        }
    }
}

/// A difference never goes below 0.
pub proof fn law_differences_stop_at_zero(a: u64, b: u64)
    ensures
        a >= b ==> less(a, b) == a - b,
        a <= b ==> less(a, b) == 0,
{
}

/// A store is due at first, and then a tenth of a second after the one
/// before.
pub proof fn law_stores_are_due_after_the_floor(t: u64, now_ns: u64)
    ensures
        store_due(None, now_ns),
        store_due(Some(t), now_ns) <==> now_ns >= t + 100_000_000,
{
}

/// Progress of the output handler is stored exactly where it is ahead of what
/// was stored and a store is due; then it is what is kept, and it is durable
/// before it is shown. The snapshot floor is left alone.
pub proof fn law_output_progress_is_stored_as_it_is(m: Markers, completed: u64, now_ns: u64)
    ensures
        ({
            let due = m.output_stored_ns is None || now_ns >= m.output_stored_ns->0 + 100_000_000;
            let a = m.output_sampled(completed, now_ns);
            let e = m.output_effects(completed, now_ns);
            &&& completed > m.output && due ==> {
                &&& a == (Markers { output: completed, output_stored_ns: Some(now_ns), ..m })
                &&& e.len() == 2
                &&& e[0] == EffectV::Plain(Plain::StoreOutputProgress(completed))
                &&& e[1] == EffectV::Plain(Plain::OutputProgress(completed))
            }
            &&& !(completed > m.output && due) ==> a == m && e.len() == 0
        }),
{
}

/// A floor that the service offers is taken exactly where it is ahead of the
/// stored one, this node's own log is durable to it and a store is due. It is
/// durable before it is shown, and shown before anything below it is purged.
pub proof fn law_offered_floor_is_stored_first(
    m: Markers,
    service_pos: u64,
    durable: u64,
    first_base: u64,
    now_ns: u64,
)
    ensures
        ({
            let due = m.snapshot_stored_ns is None || now_ns >= m.snapshot_stored_ns->0
                + 100_000_000;
            let news = service_pos > m.snapshot_floor && service_pos <= durable;
            let a = m.snapshot_sampled(service_pos, durable, first_base, now_ns);
            let e = m.snapshot_effects(service_pos, durable, first_base, now_ns);
            &&& a.output == m.output && a.output_stored_ns == m.output_stored_ns && a.purge
                == m.purge
            &&& !due ==> a == m && e.len() == 0
            &&& due && news ==> {
                &&& a.snapshot_floor == service_pos && a.snapshot_stored_ns == Some(now_ns)
                &&& e.len() >= 2
                &&& e[0] == EffectV::Plain(Plain::StoreSnapshotFloor(service_pos))
                &&& e[1] == EffectV::Plain(Plain::SnapshotFloor(service_pos))
            }
            &&& !news ==> a.snapshot_floor == m.snapshot_floor
            &&& !news && e.len() == 0 ==> a == m
        }),
{
}

/// Where purging is asked for and a store is due, blocks are purged below the
/// floor then in force less the margin, exactly where that drops something.
/// Where it is not asked for nothing ever is.
pub proof fn law_purge_follows_the_floor(
    m: Markers,
    service_pos: u64,
    durable: u64,
    first_base: u64,
    now_ns: u64,
    slack: u64,
)
    ensures
        ({
            let e = m.snapshot_effects(service_pos, durable, first_base, now_ns);
            let due = m.snapshot_stored_ns is None || now_ns >= m.snapshot_stored_ns->0
                + 100_000_000;
            let floor: int = if service_pos > m.snapshot_floor && service_pos <= durable {
                service_pos as int
            } else {
                m.snapshot_floor as int
            };
            &&& m.purge is Disabled ==> forall|i: int|
                0 <= i < e.len() ==> !(#[trigger] e[i] matches EffectV::Plain(
                    Plain::Archive(ArchiveCmd::Purge { .. }),
                ))
            &&& m.purge == (PurgePolicy::BelowSnapshot { slack_bytes: slack }) && due && floor
                - slack > first_base ==> e.len() >= 1 && e.last() == EffectV::Plain(
                Plain::Archive(ArchiveCmd::Purge { below: (floor - slack) as u64 }),
            )
            &&& m.purge == (PurgePolicy::BelowSnapshot { slack_bytes: slack }) && floor - slack
                <= first_base ==> forall|i: int|
                0 <= i < e.len() ==> !(#[trigger] e[i] matches EffectV::Plain(
                    Plain::Archive(ArchiveCmd::Purge { .. }),
                ))
        }),
{
}

} // verus!
