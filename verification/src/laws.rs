//! What holds of the registry whatever its clients do, proved of the model that
//! the contracts of the operations are stated over.

use crate::instance::VmInfo;
use crate::model::identities_in_order;
use crate::model::kept;
use crate::model::lemma_first_position;
use crate::model::lemma_position_is;
use crate::model::lemma_kept_in_order;
use crate::model::lemma_kept_is_selection;
use crate::model::lemma_kept_reads_prefix;
use crate::model::lemma_marked_is_kept;
use crate::model::Operation;
use crate::model::StateView;
use crate::status::StartError;
use crate::status::Status;
use crate::Cid;
use crate::FIRST_GUEST_CID;
use vstd::prelude::*;

verus! {

/// No operation moves the identity counter back, and no operation but a start
/// attempt moves it at all. A start attempt moves it one up unless the
/// identities are exhausted.
pub proof fn lemma_counter_steps(state: StateView, op: Operation)
    ensures
        state.apply(op).next_cid >= state.next_cid,
        op is Start && !state.exhausted() ==> state.apply(op).next_cid == state.next_cid + 1,
        !(op is Start) || state.exhausted() ==> state.apply(op).next_cid == state.next_cid,
{
}

/// The identity counter never wraps: whatever operations run, it does not go
/// back, and once the identities are exhausted they stay so.
pub proof fn lemma_counter_never_goes_back(state: StateView, ops: Seq<Operation>)
    ensures
        state.run(ops).next_cid >= state.next_cid,
        state.exhausted() ==> state.run(ops).exhausted(),
    decreases ops.len(),
{
    if ops.len() > 0 {
        lemma_counter_never_goes_back(state, ops.drop_last());
        lemma_counter_steps(state.run(ops.drop_last()), ops.last());
    }
}

/// Where no identity is left, a start attempt reports that the identities are
/// exhausted, whatever the launcher would have answered, and changes nothing.
pub proof fn lemma_exhausted_start(
    state: StateView,
    outcome: Result<VmInfo, StartError>,
    alive: Seq<bool>,
)
    requires
        state.exhausted(),
    ensures
        state.start_result(outcome) == Err::<VmInfo, Status>(Status::ResourceExhausted),
        state.start(outcome, alive) == state,
        state.next_identity().is_none(),
{
}

/// Identities are never given out twice: an identity that a start attempt has
/// consumed, whether the machine came up or not, is below the identity of every
/// later attempt, whatever operations lie between the two.
pub proof fn lemma_identities_increase(
    state: StateView,
    outcome: Result<VmInfo, StartError>,
    alive: Seq<bool>,
    between: Seq<Operation>,
)
    requires
        !state.exhausted(),
    ensures
        state.start(outcome, alive).run(between).next_cid > state.next_cid,
        state.start(outcome, alive).run(between).next_identity() matches Some(later)
            ==> state.next_identity() matches Some(earlier) && earlier < later,
{
    lemma_counter_never_goes_back(state.start(outcome, alive), between);
}

/// A machine that has come up is returned to the caller and tracked from then
/// on, behind the machines that were tracked before it and still live. The
/// debug store is as it was.
pub proof fn lemma_started_is_tracked(state: StateView, vm: VmInfo, alive: Seq<bool>)
    requires
        !state.exhausted(),
    ensures
        state.start_result(Ok(vm)) == Ok::<VmInfo, Status>(vm),
        state.start(Ok(vm), alive).vms == state.snapshot(alive).push(vm),
        state.start(Ok(vm), alive).next_cid == state.next_cid + 1,
        state.start(Ok(vm), alive).debug_held_vms == state.debug_held_vms,
{
}

/// A start attempt that fails outside the registry is reported under the code
/// of the step that failed, and tracks nothing.
pub proof fn lemma_failed_start_tracks_nothing(state: StateView, e: StartError, alive: Seq<bool>)
    requires
        !state.exhausted(),
    ensures
        state.start_result(Err(e)) == Err::<VmInfo, Status>(e.spec_status()),
        e.spec_status() == Status::InvalidArgument <==> e == StartError::Config,
        e.spec_status() == Status::Internal <==> e != StartError::Config,
        state.start(Err(e), alive).vms == state.vms,
        state.start(Err(e), alive).debug_held_vms == state.debug_held_vms,
{
}

/// A start attempt that the loader rejects is reported as an invalid argument,
/// and still consumes its identity: the counter has moved one up, and nothing
/// else has changed.
pub proof fn lemma_rejected_start_consumes_identity(state: StateView, alive: Seq<bool>)
    requires
        !state.exhausted(),
    ensures
        state.start_result(Err(StartError::Config)) == Err::<VmInfo, Status>(
            Status::InvalidArgument,
        ),
        state.start(Err(StartError::Config), alive) == (StateView {
            next_cid: (state.next_cid + 1) as Cid,
            ..state
        }),
{
}

/// The start attempts `ops`, all of them.
pub open spec fn all_starts(ops: Seq<Operation>) -> bool {
    forall|i: int| 0 <= i < ops.len() ==> (#[trigger] ops[i]) is Start
}

/// On a manager that has just come up, the start attempts get the identities
/// from the first guest identity on, one after the other: after `ops.len()`
/// attempts the next one gets the first guest identity plus `ops.len()`.
pub proof fn lemma_fresh_starts_count_up(ops: Seq<Operation>)
    requires
        all_starts(ops),
        FIRST_GUEST_CID + ops.len() < Cid::MAX,
    ensures
        StateView::fresh().run(ops).next_identity() == Some((FIRST_GUEST_CID + ops.len()) as Cid),
    decreases ops.len(),
{
    if ops.len() > 0 {
        assert(all_starts(ops.drop_last()));
        lemma_fresh_starts_count_up(ops.drop_last());
    }
}

/// A handle that is put into the debug store can be taken out again by its
/// identity: what comes back has that identity, and it is the handle that was
/// held longest under it.
pub proof fn lemma_held_can_be_taken(state: StateView, vm: VmInfo)
    ensures
        state.hold(vm).holds(vm.cid),
        state.hold(vm).taken(vm.cid) matches Some(back) && back.cid == vm.cid,
        state.holds(vm.cid) ==> state.hold(vm).taken(vm.cid) == state.taken(vm.cid),
        !state.holds(vm.cid) ==> state.hold(vm).taken(vm.cid) == Some(vm),
{
    let held = state.debug_held_vms;
    lemma_first_position(held, vm.cid);
    assert(held.push(vm).drop_last() == held);
}

/// Hold, then drop: where the debug store holds nothing under the identity of
/// `vm`, putting `vm` in and taking its identity out returns `vm` and leaves the
/// store as it was, and taking the identity out once more returns nothing.
pub proof fn lemma_hold_then_drop(state: StateView, vm: VmInfo)
    requires
        !state.holds(vm.cid),
    ensures
        state.hold(vm).taken(vm.cid) == Some(vm),
        state.hold(vm).take(vm.cid) == state,
        state.hold(vm).take(vm.cid).taken(vm.cid).is_none(),
        state.hold(vm).take(vm.cid).take(vm.cid) == state,
{
    let held = state.debug_held_vms;
    lemma_first_position(held, vm.cid);
    lemma_position_is(held.push(vm), vm.cid, held.len() as int);
    assert(held.push(vm).update(held.len() as int, vm).drop_last() == held);
}

/// Taking an identity that the debug store does not hold returns nothing, which
/// is no error, and changes nothing.
pub proof fn lemma_drop_never_held(state: StateView, cid: Cid)
    requires
        forall|i: int| 0 <= i < state.debug_held_vms.len() ==> state.debug_held_vms[i].cid != cid,
    ensures
        !state.holds(cid),
        state.taken(cid).is_none(),
        state.take(cid) == state,
{
    lemma_position_is(state.debug_held_vms, cid, state.debug_held_vms.len() as int);
}

/// Taking an identity out of the debug store removes one handle and no more:
/// the store is one shorter where something came back, and every handle that it
/// still has was in it before.
pub proof fn lemma_take_removes_one(state: StateView, cid: Cid)
    requires
        state.holds(cid),
    ensures
        state.take(cid).debug_held_vms.len() == state.debug_held_vms.len() - 1,
        forall|i: int|
            0 <= i < state.take(cid).debug_held_vms.len() ==> state.debug_held_vms.contains(
                #[trigger] state.take(cid).debug_held_vms[i],
            ),
        state.take(cid).next_cid == state.next_cid,
        state.take(cid).vms == state.vms,
{
    lemma_first_position(state.debug_held_vms, cid);
}

/// Where every instance still lives, the snapshot is all that is tracked.
pub proof fn lemma_snapshot_of_the_living<T>(items: Seq<T>, alive: Seq<bool>)
    requires
        alive.len() == items.len(),
        forall|i: int| 0 <= i < alive.len() ==> alive[i],
    ensures
        kept(items, alive) == items,
    decreases items.len(),
{
    if items.len() > 0 {
        let last = items.len() - 1;
        lemma_snapshot_of_the_living(items.take(last), alive.take(last));
        lemma_kept_reads_prefix(items.take(last), alive, alive.take(last));
    }
}

/// Whether the launcher has tagged the instance of `op`, if `op` started one,
/// with the identity that a start attempt on `state` hands to it.
pub open spec fn tags_with_identity(state: StateView, op: Operation) -> bool {
    op matches Operation::Start { outcome: Ok(vm), .. } ==> vm.cid == state.next_cid
}

/// No identity is tracked twice, and none that is reserved: where the launcher
/// tags each instance with the identity that it was handed, every operation
/// leaves the tracked identities in the order in which they were given out,
/// from the first guest identity on and below the counter.
pub proof fn lemma_operation_keeps_order(state: StateView, op: Operation)
    requires
        state.in_order(),
        tags_with_identity(state, op),
    ensures
        state.apply(op).in_order(),
{
    match op {
        Operation::Start { outcome, alive } => {
            if !state.exhausted() {
                lemma_kept_in_order(state.vms, alive, state.next_cid as int);
            }
        },
        _ => {},
    }
}

/// The same of a manager that has just come up and of every run of operations
/// on it: the tracked identities are in order, and neither the counter nor a
/// tracked identity is below the first guest identity.
pub proof fn lemma_run_keeps_order(ops: Seq<Operation>)
    requires
        forall|n: int|
            0 <= n < ops.len() ==> tags_with_identity(
                #[trigger] StateView::fresh().run(ops.take(n)),
                ops[n],
            ),
    ensures
        StateView::fresh().run(ops).in_order(),
        StateView::fresh().run(ops).next_cid >= FIRST_GUEST_CID,
        forall|i: int|
            0 <= i < StateView::fresh().run(ops).vms.len() ==> (#[trigger] StateView::fresh().run(
                ops,
            ).vms[i]).cid >= FIRST_GUEST_CID,
    decreases ops.len(),
{
    if ops.len() > 0 {
        let last = ops.len() - 1;
        let earlier = ops.drop_last();
        assert forall|n: int| 0 <= n < earlier.len() implies tags_with_identity(
            #[trigger] StateView::fresh().run(earlier.take(n)),
            earlier[n],
        ) by {
            assert(earlier.take(n) == ops.take(n));
        }
        lemma_run_keeps_order(earlier);
        lemma_operation_keeps_order(StateView::fresh().run(earlier), ops.last());
    }
}

/// A listing names guest identities only and none of them twice, and names an
/// instance that still lives; an instance that has been destroyed is not in it,
/// though nobody has removed it from the registry.
pub proof fn lemma_listing(state: StateView, alive: Seq<bool>)
    requires
        state.in_order(),
        alive.len() == state.vms.len(),
    ensures
        identities_in_order(state.snapshot(alive), state.next_cid as int),
        forall|k: int|
            0 <= k < state.snapshot(alive).len() ==> (#[trigger] state.snapshot(alive)[k]).cid
                >= FIRST_GUEST_CID,
        forall|i: int|
            0 <= i < state.vms.len() && alive[i] ==> state.snapshot(alive).contains(
                #[trigger] state.vms[i],
            ),
        forall|i: int, k: int|
            0 <= i < state.vms.len() && !alive[i] && 0 <= k < state.snapshot(alive).len()
                ==> (#[trigger] state.snapshot(alive)[k]).cid != (#[trigger] state.vms[i]).cid,
{
    let listed = state.snapshot(alive);
    lemma_kept_in_order(state.vms, alive, state.next_cid as int);
    lemma_kept_is_selection(state.vms, alive);
    assert forall|i: int| 0 <= i < state.vms.len() && alive[i] implies listed.contains(
        #[trigger] state.vms[i],
    ) by {
        lemma_marked_is_kept(state.vms, alive, i);
    }
    assert forall|i: int, k: int|
        0 <= i < state.vms.len() && !alive[i] && 0 <= k < listed.len() implies (#[trigger] listed[k]).cid
        != (#[trigger] state.vms[i]).cid by {
        let j = choose|j: int|
            0 <= j < state.vms.len() && j < alive.len() && alive[j] && state.vms[j] == listed[k];
        assert(j != i);
    }
}

/// Registering discards what has been destroyed: after it the registry tracks
/// the instances that were marked as living, then the new one, and no other.
pub proof fn lemma_register_discards_the_dead(state: StateView, alive: Seq<bool>, vm: VmInfo)
    requires
        alive.len() == state.vms.len(),
    ensures
        state.register(alive, vm).vms.last() == vm,
        state.register(alive, vm).vms.drop_last() == state.snapshot(alive),
        state.register(alive, vm).vms.len() <= state.vms.len() + 1,
        state.register(alive, vm).next_cid == state.next_cid,
        state.register(alive, vm).debug_held_vms == state.debug_held_vms,
{
    lemma_kept_is_selection(state.vms, alive);
}

/// Two machines that are started on a manager that has just come up, and that
/// both still live, are what a listing names, each with the identity and the
/// configuration that the launcher gave it.
pub proof fn lemma_two_living_are_listed(first: VmInfo, second: VmInfo)
    ensures
        StateView::fresh().start(Ok(first), seq![]).start(Ok(second), seq![true]).snapshot(
            seq![true, true],
        ) == seq![first, second],
{
    let one = StateView::fresh().start(Ok(first), seq![]);
    assert(one.vms == seq![first]);
    lemma_snapshot_of_the_living(one.vms, seq![true]);
    let two = one.start(Ok(second), seq![true]);
    assert(two.vms == seq![first, second]);
    lemma_snapshot_of_the_living(two.vms, seq![true, true]);
}

/// A machine that has been destroyed is in no listing, without anybody removing
/// it: where no tracked instance is marked as living the listing is empty, and
/// the stale references are all still tracked.
pub proof fn lemma_destroyed_are_not_listed(state: StateView, alive: Seq<bool>)
    requires
        forall|i: int| 0 <= i < alive.len() ==> !alive[i],
    ensures
        state.snapshot(alive) == Seq::<VmInfo>::empty(),
        state.apply(Operation::Observe).vms == state.vms,
{
    lemma_kept_is_selection(state.vms, alive);
    if kept(state.vms, alive).len() > 0 {
        let marked = choose|j: int|
            0 <= j < state.vms.len() && j < alive.len() && alive[j] && state.vms[j] == kept(
                state.vms,
                alive,
            )[0];
        assert(!alive[marked]);
    }
}

/// The next start discards what has been destroyed: of two tracked machines of
/// which the first is gone, a start that comes up leaves the second and the new
/// one tracked, and those two are what a listing names while both live.
pub proof fn lemma_start_discards_the_destroyed(state: StateView, started: VmInfo)
    requires
        state.vms.len() == 2,
        !state.exhausted(),
    ensures
        state.start(Ok(started), seq![false, true]).vms == seq![state.vms[1], started],
        state.start(Ok(started), seq![false, true]).snapshot(seq![true, true]) == seq![
            state.vms[1],
            started,
        ],
{
    reveal_with_fuel(kept, 3);
    let after = state.start(Ok(started), seq![false, true]);
    assert(state.vms.take(1).take(0) == Seq::<VmInfo>::empty());
    assert(kept(state.vms, seq![false, true]) == seq![state.vms[1]]);
    assert(after.vms == seq![state.vms[1], started]);
    lemma_snapshot_of_the_living(after.vms, seq![true, true]);
}

} // verus!
