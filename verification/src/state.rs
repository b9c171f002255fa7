//! The mutable state of the manager: the identity counter, the liveness tracker
//! and the debug store.

use crate::instance::handle_view;
use crate::instance::instance_view;
use crate::instance::share;
use crate::instance::weak_target;
use crate::instance::VirtualMachine;
use crate::instance::VmInfo;
use crate::instance::VmInstance;
use crate::instance::WeakVm;
use crate::model::first_with_cid;
use crate::model::kept;
use crate::model::lemma_position_is;
use crate::model::lemma_present_is_kept;
use crate::model::marks;
use crate::model::present;
use crate::model::reached;
use crate::model::swap_removed;
use crate::model::StateView;
use crate::status::Status;
use crate::Cid;
use crate::FIRST_GUEST_CID;
use std::sync::Arc;
use vstd::prelude::*;

verus! {

/// What the owning references in `vms` refer to.
pub open spec fn instance_views(vms: Seq<Arc<VmInstance>>) -> Seq<VmInfo> {
    vms.map_values(|vm: Arc<VmInstance>| vm@)
}

/// What comes of trying to reach each instance, as the registry reads it.
pub open spec fn upgraded_views(upgraded: Seq<Option<Arc<VmInstance>>>) -> Seq<Option<VmInfo>> {
    upgraded.map_values(|vm: Option<Arc<VmInstance>>| instance_view(vm))
}

/// The owning references that are there in `upgraded`, in their order. This is
/// the snapshot, given what came of trying to reach each tracked instance.
pub fn collect_running(upgraded: &Vec<Option<Arc<VmInstance>>>) -> (running: Vec<Arc<VmInstance>>)
    ensures
        instance_views(running@) == present(upgraded_views(upgraded@)),
{
    let mut running: Vec<Arc<VmInstance>> = Vec::new();
    let mut i: usize = 0;
    while i < upgraded.len()
        invariant
            i <= upgraded.len(),
            instance_views(running@) == present(upgraded_views(upgraded@).take(i as int)),
        decreases upgraded.len() - i,
    {
        let ghost views = instance_views(running@);
        assert(upgraded_views(upgraded@).take(i + 1).drop_last() == upgraded_views(upgraded@).take(
            i as int,
        ));
        if let Some(vm) = &upgraded[i] {
            running.push(share(vm));
            assert(instance_views(running@) == views.push(vm@));
        }
        i += 1;
    }
    assert(upgraded_views(upgraded@).take(i as int) == upgraded_views(upgraded@));
    running
}

/// An owning reference to the first instance of `running` whose identity is
/// `cid`, if there is one.
pub fn first_running(running: &Vec<Arc<VmInstance>>, cid: Cid) -> (found: Option<Arc<VmInstance>>)
    ensures
        instance_view(found) == first_with_cid(instance_views(running@), cid),
{
    let mut pos: usize = 0;
    while pos < running.len() && running[pos].cid != cid
        invariant
            pos <= running.len(),
            forall|i: int| 0 <= i < pos ==> instance_views(running@)[i].cid != cid,
        decreases running.len() - pos,
    {
        pos += 1;
    }
    proof {
        lemma_position_is(instance_views(running@), cid, pos as int);
    }
    if pos < running.len() {
        Some(share(&running[pos]))
    } else {
        None
    }
}

/// The marks of the instances that still have an owner, by their counts of
/// owning references.
pub open spec fn referenced(strong_counts: Seq<usize>) -> Seq<bool> {
    strong_counts.map_values(|count: usize| count > 0)
}

/// The mutable state of the manager. There should only be one per process.
#[derive(Debug)]
pub struct State {
    /// The next identity that has not been used.
    next_cid: Cid,
    /// The machines that have been started. The references do not keep them
    /// alive: once every handle to a machine is gone its reference here goes
    /// stale, and is discarded the next time a machine is added.
    vms: Vec<WeakVm>,
    /// Handles held on behalf of callers that cannot hold them themselves.
    /// Used for debugging only.
    debug_held_vms: Vec<VirtualMachine>,
}

impl View for State {
    type V = StateView;

    closed spec fn view(&self) -> StateView {
        StateView {
            next_cid: self.next_cid,
            vms: self.vms@.map_values(|vm: WeakVm| weak_target(vm)),
            debug_held_vms: self.debug_held_vms@.map_values(|vm: VirtualMachine| vm@),
        }
    }
}

impl State {
    /// The state of a manager that has started no machine yet.
    pub fn new() -> (state: State)
        ensures
            state@ == StateView::fresh(),
    {
        State::starting_at(FIRST_GUEST_CID)
    }

    /// An empty state whose first identity is `next_cid`, which is a guest
    /// identity: the identities below the first guest identity are reserved.
    pub fn starting_at(next_cid: Cid) -> (state: State)
        requires
            next_cid >= FIRST_GUEST_CID,
        ensures
            state@ == (StateView {
                next_cid,
                vms: Seq::empty(),
                debug_held_vms: Seq::empty(),
            }),
    {
        let state = State { next_cid, vms: Vec::new(), debug_held_vms: Vec::new() };
        assert(state@.vms =~= Seq::empty());
        assert(state@.debug_held_vms =~= Seq::empty());
        state
    }

    /// Returns the next identity and moves the counter one up. Fails, and
    /// changes nothing, where the counter cannot move up.
    pub fn allocate_next(&mut self) -> (allocated: Result<Cid, Status>)
        ensures
            final(self)@ == old(self)@.allocate(),
            allocated == if old(self)@.exhausted() {
                Err::<Cid, Status>(Status::ResourceExhausted)
            } else {
                Ok::<Cid, Status>(old(self)@.next_cid)
            },
    {
        let cid = self.next_cid;
        match cid.checked_add(1) {
            Some(next) => {
                self.next_cid = next;
                Ok(cid)
            },
            None => Err(Status::ResourceExhausted),
        }
    }

    /// What comes of trying to reach each tracked instance, as of now: an
    /// owning reference to it, or nothing where it has been destroyed.
    fn upgrade_all(&self) -> (upgraded: Vec<Option<Arc<VmInstance>>>)
        ensures
            reached(self@.vms, upgraded_views(upgraded@)),
    {
        let mut upgraded: Vec<Option<Arc<VmInstance>>> = Vec::new();
        let mut i: usize = 0;
        while i < self.vms.len()
            invariant
                i <= self.vms.len(),
                upgraded.len() == i,
                forall|j: int|
                    0 <= j < i ==> (#[trigger] upgraded@[j] matches Some(vm) ==> vm@ == self@.vms[j]),
            decreases self.vms.len() - i,
        {
            upgraded.push(self.vms[i].upgrade());
            i += 1;
        }
        upgraded
    }

    /// The machines that are running now: an owning reference to each tracked
    /// instance that could still be had. An instance that is destroyed
    /// meanwhile is left out.
    pub fn vms(&self) -> (running: Vec<Arc<VmInstance>>)
        ensures
            exists|alive: Seq<bool>|
                alive.len() == self@.vms.len() && instance_views(running@) == #[trigger] self@.snapshot(
                    alive,
                ),
    {
        let upgraded = self.upgrade_all();
        let running = collect_running(&upgraded);
        proof {
            let alive = marks(upgraded_views(upgraded@));
            lemma_present_is_kept(self@.vms, upgraded_views(upgraded@));
            assert(instance_views(running@) == self@.snapshot(alive));
        }
        running
    }

    /// An owning reference to the running machine with identity `cid`, if
    /// there is one and it could still be had.
    pub fn running_vm(&self, cid: Cid) -> (found: Option<Arc<VmInstance>>)
        ensures
            exists|alive: Seq<bool>|
                alive.len() == self@.vms.len() && instance_view(found) == #[trigger] self@.running(
                    alive,
                    cid,
                ),
    {
        let running = self.vms();
        let found = first_running(&running, cid);
        proof {
            let alive = choose|alive: Seq<bool>|
                alive.len() == self@.vms.len() && instance_views(running@) == #[trigger] self@.snapshot(
                    alive,
                );
            assert(instance_view(found) == self@.running(alive, cid));
        }
        found
    }

    /// Discards the references to the instances that have no owner left, by
    /// `strong_counts`, which holds for each tracked instance its number of
    /// owners. A reference without a count is discarded.
    pub fn retain_referenced(&mut self, strong_counts: &Vec<usize>)
        ensures
            final(self)@ == old(self)@.purge(referenced(strong_counts@)),
    {
        let ghost known = self@.vms;
        let ghost alive = referenced(strong_counts@);
        let total = self.vms.len();
        let mut seen: usize = 0;
        let mut at: usize = 0;
        while seen < total
            invariant
                seen <= total,
                total == known.len(),
                at <= seen,
                alive == referenced(strong_counts@),
                self@.vms == kept(known.take(seen as int), alive) + known.skip(seen as int),
                at == kept(known.take(seen as int), alive).len(),
                self@.next_cid == old(self)@.next_cid,
                self@.debug_held_vms == old(self)@.debug_held_vms,
            decreases total - seen,
        {
            let ghost before = self@.vms;
            let ghost front = kept(known.take(seen as int), alive);
            assert(known.take(seen + 1).take(seen as int) == known.take(seen as int));
            assert(self.vms@.len() == before.len());
            if seen < strong_counts.len() && strong_counts[seen] > 0 {
                at += 1;
            } else {
                let _ = self.vms.remove(at);
                assert(before.remove(at as int) == front + known.skip(seen + 1));
            }
            seen += 1;
        }
        assert(known.take(seen as int) == known);
    }

    /// The number of owners of each tracked instance, as of now.
    fn strong_counts(&self) -> (counts: Vec<usize>)
        ensures
            counts.len() == self@.vms.len(),
    {
        let mut counts: Vec<usize> = Vec::new();
        let mut i: usize = 0;
        while i < self.vms.len()
            invariant
                i <= self.vms.len(),
                counts.len() == i,
            decreases self.vms.len() - i,
        {
            counts.push(self.vms[i].strong_count());
            i += 1;
        }
        counts
    }

    /// Adds a machine to the tracked ones, by a reference that does not keep it
    /// alive. The references that have gone stale are discarded first; this is
    /// the only place where that happens.
    pub fn add_vm(&mut self, vm: &Arc<VmInstance>)
        ensures
            exists|alive: Seq<bool>|
                alive.len() == old(self)@.vms.len() && final(self)@ == #[trigger] old(
                    self,
                )@.register(alive, vm@),
    {
        let counts = self.strong_counts();
        self.retain_referenced(&counts);
        let ghost purged = self@.vms;
        self.vms.push(WeakVm::downgrade(vm));
        assert(self@.vms == purged.push(vm@));
        assert(self@ == old(self)@.register(referenced(counts@), vm@));
    }

    /// Puts a handle into the debug store. A machine may be held more than once.
    pub fn debug_hold_vm(&mut self, vm: VirtualMachine)
        ensures
            final(self)@ == old(self)@.hold(vm@),
    {
        let ghost held = self@.debug_held_vms;
        self.debug_held_vms.push(vm);
        assert(self@.debug_held_vms == held.push(vm@));
    }

    /// Takes the first handle with identity `cid` out of the debug store, if
    /// there is one.
    pub fn debug_drop_vm(&mut self, cid: Cid) -> (vm: Option<VirtualMachine>)
        ensures
            final(self)@ == old(self)@.take(cid),
            handle_view(vm) == old(self)@.taken(cid),
    {
        let ghost held = self@.debug_held_vms;
        let mut pos: usize = 0;
        while pos < self.debug_held_vms.len() && self.debug_held_vms[pos].getCid() != cid
            invariant
                pos <= self.debug_held_vms.len(),
                *self == *old(self),
                held == self@.debug_held_vms,
                forall|i: int| 0 <= i < pos ==> held[i].cid != cid,
            decreases self.debug_held_vms.len() - pos,
        {
            pos += 1;
        }
        proof {
            lemma_position_is(held, cid, pos as int);
        }
        if pos < self.debug_held_vms.len() {
            let handle = self.debug_held_vms.swap_remove(pos);
            assert(self@.debug_held_vms == swap_removed(held, pos as int));
            Some(handle)
        } else {
            None
        }
    }
}

impl Default for State {
    fn default() -> (state: State)
        ensures
            state@ == StateView::fresh(),
    {
        State::new()
    }
}

} // verus!
