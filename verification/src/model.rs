//! The registry as a mathematical value, and its operations as functions on it.
//!
//! The contracts of the executable registry are stated over this model, and the
//! laws of the registry are proved of it.

use crate::instance::VmInfo;
use crate::status::StartError;
use crate::status::Status;
use crate::Cid;
use crate::FIRST_GUEST_CID;
use vstd::prelude::*;

verus! {

/// The items of `items` whose mark in `keep` is set, in their order. An item
/// without a mark is dropped.
pub open spec fn kept<T>(items: Seq<T>, keep: Seq<bool>) -> Seq<T>
    decreases items.len(),
{
    if items.len() == 0 {
        Seq::empty()
    } else {
        let last = items.len() - 1;
        let before = kept(items.take(last), keep);
        if last < keep.len() && keep[last] {
            before.push(items[last])
        } else {
            before
        }
    }
}

/// The instances that are there, in their order: what is left of `upgraded`
/// when the absent ones are dropped.
pub open spec fn present(upgraded: Seq<Option<VmInfo>>) -> Seq<VmInfo>
    decreases upgraded.len(),
{
    if upgraded.len() == 0 {
        Seq::empty()
    } else {
        let before = present(upgraded.drop_last());
        match upgraded.last() {
            Some(vm) => before.push(vm),
            None => before,
        }
    }
}

/// Whether each instance of `upgraded` that is there is the item of `vms` at its
/// position: what comes of trying to reach every instance of `vms`.
pub open spec fn reached(vms: Seq<VmInfo>, upgraded: Seq<Option<VmInfo>>) -> bool {
    &&& upgraded.len() == vms.len()
    &&& forall|i: int| 0 <= i < vms.len() ==> (#[trigger] upgraded[i] matches Some(vm) ==> vm == vms[i])
}

/// The marks of the instances that are there.
pub open spec fn marks(upgraded: Seq<Option<VmInfo>>) -> Seq<bool> {
    upgraded.map_values(|vm: Option<VmInfo>| vm is Some)
}

/// The position of the first instance in `vms` whose identity is `cid`, or the
/// length of `vms` if there is none.
pub open spec fn first_position(vms: Seq<VmInfo>, cid: Cid) -> int
    decreases vms.len(),
{
    if vms.len() == 0 {
        0
    } else {
        let earlier = first_position(vms.drop_last(), cid);
        if earlier < vms.len() - 1 {
            earlier
        } else if vms.last().cid == cid {
            vms.len() - 1
        } else {
            vms.len() as int
        }
    }
}

/// The first instance in `vms` whose identity is `cid`, if there is one.
pub open spec fn first_with_cid(vms: Seq<VmInfo>, cid: Cid) -> Option<VmInfo> {
    if first_position(vms, cid) < vms.len() {
        Some(vms[first_position(vms, cid)])
    } else {
        None
    }
}

/// `held` without the item at `pos`; the last item takes its place.
pub open spec fn swap_removed(held: Seq<VmInfo>, pos: int) -> Seq<VmInfo>
    recommends
        0 <= pos < held.len(),
{
    held.update(pos, held.last()).drop_last()
}

/// The state of the registry.
pub struct StateView {
    /// The identity that the next start attempt consumes.
    pub next_cid: Cid,
    /// The targets of the non-owning references, in the order of registration.
    /// Some may have been destroyed already.
    pub vms: Seq<VmInfo>,
    /// The instances kept alive on behalf of debugging callers.
    pub debug_held_vms: Seq<VmInfo>,
}

impl StateView {
    /// The registry of a manager that has just come up.
    pub open spec fn fresh() -> StateView {
        StateView {
            next_cid: FIRST_GUEST_CID,
            vms: Seq::empty(),
            debug_held_vms: Seq::empty(),
        }
    }

    /// Whether every identity has been consumed.
    pub open spec fn exhausted(self) -> bool {
        self.next_cid == Cid::MAX
    }

    /// The registry after an attempt to allocate an identity: the counter moves
    /// one up unless the identities are exhausted.
    pub open spec fn allocate(self) -> StateView {
        if self.exhausted() {
            self
        } else {
            StateView { next_cid: (self.next_cid + 1) as Cid, ..self }
        }
    }

    /// The instances that a snapshot returns when `alive` marks the tracked
    /// instances that still live.
    pub open spec fn snapshot(self, alive: Seq<bool>) -> Seq<VmInfo> {
        kept(self.vms, alive)
    }

    /// The running machine with identity `cid`, when `alive` marks the tracked
    /// instances that still live: the first such instance in a snapshot.
    pub open spec fn running(self, alive: Seq<bool>, cid: Cid) -> Option<VmInfo> {
        first_with_cid(self.snapshot(alive), cid)
    }

    /// The registry after the references whose mark in `alive` is not set have
    /// been discarded.
    pub open spec fn purge(self, alive: Seq<bool>) -> StateView {
        StateView { vms: kept(self.vms, alive), ..self }
    }

    /// The registry after `vm` has been registered: the stale references are
    /// discarded first, then the new one is appended.
    pub open spec fn register(self, alive: Seq<bool>, vm: VmInfo) -> StateView {
        StateView { vms: kept(self.vms, alive).push(vm), ..self }
    }

    /// The registry after `vm` has been put into the debug store.
    pub open spec fn hold(self, vm: VmInfo) -> StateView {
        StateView { debug_held_vms: self.debug_held_vms.push(vm), ..self }
    }

    /// Whether the debug store holds an instance with identity `cid`.
    pub open spec fn holds(self, cid: Cid) -> bool {
        first_position(self.debug_held_vms, cid) < self.debug_held_vms.len()
    }

    /// What taking `cid` from the debug store returns: the first instance held
    /// under that identity.
    pub open spec fn taken(self, cid: Cid) -> Option<VmInfo> {
        first_with_cid(self.debug_held_vms, cid)
    }

    /// The registry after `cid` has been taken from the debug store.
    pub open spec fn take(self, cid: Cid) -> StateView {
        if self.holds(cid) {
            StateView {
                debug_held_vms: swap_removed(
                    self.debug_held_vms,
                    first_position(self.debug_held_vms, cid),
                ),
                ..self
            }
        } else {
            self
        }
    }

    /// What a start attempt returns when the work outside the registry ends in
    /// `outcome`.
    pub open spec fn start_result(self, outcome: Result<VmInfo, StartError>) -> Result<
        VmInfo,
        Status,
    > {
        if self.exhausted() {
            Err(Status::ResourceExhausted)
        } else {
            match outcome {
                Ok(vm) => Ok(vm),
                Err(e) => Err(e.spec_status()),
            }
        }
    }

    /// The registry after a start attempt whose work outside the registry ends
    /// in `outcome`, when `alive` marks the tracked instances that still live.
    /// The identity is consumed whether the machine comes up or not.
    pub open spec fn start(self, outcome: Result<VmInfo, StartError>, alive: Seq<bool>) -> StateView {
        if self.exhausted() {
            self
        } else {
            match outcome {
                Ok(vm) => self.allocate().register(alive, vm),
                Err(_) => self.allocate(),
            }
        }
    }
}

/// One operation on the registry, with what decides its effect: the outcome of
/// the work outside the registry and the instances that still live.
pub enum Operation {
    /// An attempt to start a machine.
    Start { outcome: Result<VmInfo, StartError>, alive: Seq<bool> },
    /// A listing of the running machines, or a debug operation that was denied.
    Observe,
    /// A handle is put into the debug store.
    Hold { vm: VmInfo },
    /// The first handle with an identity is taken out of the debug store.
    Take { cid: Cid },
}

impl StateView {
    /// The registry after `op`.
    pub open spec fn apply(self, op: Operation) -> StateView {
        match op {
            Operation::Start { outcome, alive } => self.start(outcome, alive),
            Operation::Observe => self,
            Operation::Hold { vm } => self.hold(vm),
            Operation::Take { cid } => self.take(cid),
        }
    }

    /// The registry after the operations `ops`, one after the other.
    pub open spec fn run(self, ops: Seq<Operation>) -> StateView
        decreases ops.len(),
    {
        if ops.len() == 0 {
            self
        } else {
            self.run(ops.drop_last()).apply(ops.last())
        }
    }

    /// Whether the counter is at a guest identity and the tracked instances
    /// carry guest identities in the order in which the registry gave them out,
    /// all of them below the counter. It holds of a registry whose launcher
    /// tags each instance with the identity that it was handed.
    pub open spec fn in_order(self) -> bool {
        &&& FIRST_GUEST_CID <= self.next_cid
        &&& identities_in_order(self.vms, self.next_cid as int)
    }

    /// The identity that a start attempt hands to the launcher, if there is one
    /// left.
    pub open spec fn next_identity(self) -> Option<Cid> {
        if self.exhausted() {
            None
        } else {
            Some(self.next_cid)
        }
    }
}

/// `kept` reads only the marks of the items that are there.
pub proof fn lemma_kept_reads_prefix<T>(items: Seq<T>, keep: Seq<bool>, other: Seq<bool>)
    requires
        forall|i: int|
            0 <= i < items.len() ==> (i < keep.len() && keep[i]) == (i < other.len() && other[i]),
    ensures
        kept(items, keep) == kept(items, other),
    decreases items.len(),
{
    if items.len() > 0 {
        lemma_kept_reads_prefix(items.take(items.len() - 1), keep, other);
    }
}

/// The instances that could be reached are the instances that are marked as
/// reached.
pub proof fn lemma_present_is_kept(vms: Seq<VmInfo>, upgraded: Seq<Option<VmInfo>>)
    requires
        reached(vms, upgraded),
    ensures
        present(upgraded) == kept(vms, marks(upgraded)),
    decreases vms.len(),
{
    if vms.len() > 0 {
        let last = vms.len() - 1;
        assert(upgraded.drop_last() == upgraded.take(last));
        assert(reached(vms.take(last), upgraded.take(last)));
        lemma_present_is_kept(vms.take(last), upgraded.take(last));
        lemma_kept_reads_prefix(vms.take(last), marks(upgraded), marks(upgraded.take(last)));
    }
}

/// Every kept item is an item whose mark is set, and no more are kept than
/// there are items.
pub proof fn lemma_kept_is_selection<T>(items: Seq<T>, keep: Seq<bool>)
    ensures
        kept(items, keep).len() <= items.len(),
        forall|k: int|
            0 <= k < kept(items, keep).len() ==> exists|j: int|
                0 <= j < items.len() && j < keep.len() && keep[j] && items[j] == #[trigger] kept(
                    items,
                    keep,
                )[k],
    decreases items.len(),
{
    if items.len() > 0 {
        let last = items.len() - 1;
        let front = items.take(last);
        lemma_kept_is_selection(front, keep);
        assert forall|k: int| 0 <= k < kept(items, keep).len() implies exists|j: int|
            0 <= j < items.len() && j < keep.len() && keep[j] && items[j] == #[trigger] kept(
                items,
                keep,
            )[k] by {
            if k < kept(front, keep).len() {
                let j = choose|j: int|
                    0 <= j < front.len() && j < keep.len() && keep[j] && front[j] == kept(
                        front,
                        keep,
                    )[k];
                assert(items[j] == kept(items, keep)[k]);
            } else {
                assert(items[last] == kept(items, keep)[k]);
            }
        }
    }
}

/// Every item whose mark is set is kept.
pub proof fn lemma_marked_is_kept<T>(items: Seq<T>, keep: Seq<bool>, j: int)
    requires
        0 <= j < items.len(),
        j < keep.len(),
        keep[j],
    ensures
        kept(items, keep).contains(items[j]),
    decreases items.len(),
{
    let last = items.len() - 1;
    let front = items.take(last);
    if j < last {
        lemma_marked_is_kept(front, keep, j);
        let k = choose|k: int| 0 <= k < kept(front, keep).len() && kept(front, keep)[k] == front[j];
        assert(kept(items, keep)[k] == items[j]);
    } else {
        assert(kept(items, keep)[kept(front, keep).len() as int] == items[j]);
    }
}

/// Whether the identities of `vms` are guest identities, go up from each
/// instance to the next and stay below `bound`.
pub open spec fn identities_in_order(vms: Seq<VmInfo>, bound: int) -> bool {
    &&& forall|i: int| 0 <= i < vms.len() ==> FIRST_GUEST_CID <= (#[trigger] vms[i]).cid < bound
    &&& forall|i: int, j: int| 0 <= i < j < vms.len() ==> (#[trigger] vms[i]).cid < (#[trigger] vms[j]).cid
}

/// Discarding instances leaves the identities of the others in order.
pub proof fn lemma_kept_in_order(vms: Seq<VmInfo>, keep: Seq<bool>, bound: int)
    requires
        identities_in_order(vms, bound),
    ensures
        identities_in_order(kept(vms, keep), bound),
    decreases vms.len(),
{
    if vms.len() > 0 {
        let last = vms.len() - 1;
        let front = vms.take(last);
        assert(identities_in_order(front, vms[last].cid as int));
        lemma_kept_in_order(front, keep, vms[last].cid as int);
    }
}

/// What `first_position` returns is the least position with the identity, and
/// the length where no position has it.
pub proof fn lemma_first_position(vms: Seq<VmInfo>, cid: Cid)
    ensures
        0 <= first_position(vms, cid) <= vms.len(),
        forall|i: int| 0 <= i < first_position(vms, cid) ==> vms[i].cid != cid,
        first_position(vms, cid) < vms.len() ==> vms[first_position(vms, cid)].cid == cid,
    decreases vms.len(),
{
    if vms.len() > 0 {
        let front = vms.drop_last();
        lemma_first_position(front, cid);
        assert forall|i: int| 0 <= i < first_position(vms, cid) implies vms[i].cid != cid by {
            if i < front.len() {
                assert(front[i] == vms[i]);
            }
        }
    }
}

/// A position with the identity before which no position has it is the one that
/// `first_position` returns.
pub proof fn lemma_position_is(vms: Seq<VmInfo>, cid: Cid, pos: int)
    requires
        0 <= pos <= vms.len(),
        forall|i: int| 0 <= i < pos ==> vms[i].cid != cid,
        pos < vms.len() ==> vms[pos].cid == cid,
    ensures
        first_position(vms, cid) == pos,
{
    lemma_first_position(vms, cid);
}

} // verus!
