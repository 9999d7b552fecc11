//! What holds across operations.
//!
//! The functions of this module are proofs, stated over the same models as the contracts of the
//! operations.

use vstd::prelude::*;

use crate::reflect::{
    buffer_handle, handles, handles_in, handles_in_fields, is_buffer, part_of, part_of_any,
    part_of_fields, Reflected, ReflectedField,
};
use crate::shm_bytes::{granted_or, refusal};
use crate::transfer::Leg;
use crate::var_slot_pool::{PoolView, SlotId, SlotState, SlotView, VarFreeError, VarSlotHandle};

verus! {

/// The slots that two handles name in a pool are the same.
pub open spec fn same_slot(a: VarSlotHandle, b: VarSlotHandle) -> bool {
    a.class_idx == b.class_idx && a.slot_idx == b.slot_idx
}

/// `handle` names a slot that is allocated or in flight.
pub open spec fn is_live(pool: PoolView, handle: VarSlotHandle) -> bool {
    pool.is_in(handle, SlotState::Allocated) || pool.is_in(handle, SlotState::InFlight)
}

/// The peer that owns the slot of `handle`.
pub open spec fn owner_of(pool: PoolView, handle: VarSlotHandle) -> u8 {
    pool.slots[(handle.class_idx as int, handle.slot_idx as int)].owner
}

/// An allocation gives a slot that was free, now allocated to the asking peer, with room for the
/// bytes asked for, and of which no other live handle knows.
pub proof fn law_allocation(
    pool: PoolView,
    size: nat,
    owner: u8,
    handle: VarSlotHandle,
    next: PoolView,
)
    requires
        pool.wf(),
        pool.allocates(size, owner, handle, next),
    ensures
        next.wf(),
        next.is_in(handle, SlotState::Allocated),
        owner_of(next, handle) == owner,
        next.payload(handle, size) is Some,
        size <= u32::MAX,
        forall|other: VarSlotHandle|
            #![trigger is_live(pool, other)]
            is_live(pool, other) ==> {
                &&& !same_slot(other, handle)
                &&& next.locate(other) == pool.locate(other)
                &&& next.slots[pool.locate(other)->Ok_0] == pool.slots[pool.locate(other)->Ok_0]
            },
{
}

/// A buffer that is sent and received changes owner and keeps its bytes, which stay where they
/// are; no other slot changes.
pub proof fn law_transfer(pool: PoolView, handle: VarSlotHandle, len: nat, owner: u8)
    requires
        pool.is_in(handle, SlotState::Allocated),
    ensures
        pool.marked_in_flight(handle) is Ok,
        ({
            let sent = pool.marked_in_flight(handle)->Ok_0;
            &&& sent.is_in(handle, SlotState::InFlight)
            &&& owner_of(sent, handle) == owner_of(pool, handle)
            &&& sent.payload(handle, len) == pool.payload(handle, len)
            &&& sent.claimed(handle, owner) is Ok
            &&& {
                let received = sent.claimed(handle, owner)->Ok_0;
                &&& received.is_in(handle, SlotState::Allocated)
                &&& owner_of(received, handle) == owner
                &&& received.payload(handle, len) == pool.payload(handle, len)
                &&& received == pool.with_slot(
                    pool.locate(handle)->Ok_0,
                    SlotView { owner, ..pool.slots[pool.locate(handle)->Ok_0] },
                )
            }
        }),
{
    let id = pool.locate(handle)->Ok_0;
    let sent = pool.marked_in_flight(handle)->Ok_0;
    let received = sent.claimed(handle, owner)->Ok_0;
    assert(received.slots =~= pool.slots.insert(id, SlotView { owner, ..pool.slots[id] }));
}

/// While a buffer is in flight its sender can neither free it nor send it again, so dropping it
/// leaves it to the receiver.
pub proof fn law_in_flight_is_the_receivers(pool: PoolView, handle: VarSlotHandle)
    requires
        pool.is_in(handle, SlotState::InFlight),
    ensures
        pool.freed_allocated(handle) == Err::<PoolView, VarFreeError>(VarFreeError::InvalidState),
        pool.marked_in_flight(handle) == Err::<PoolView, VarFreeError>(VarFreeError::InvalidState),
        granted_or(pool.freed_allocated(handle), pool) == pool,
{
}

/// A buffer that is not in flight cannot be claimed.
pub proof fn law_claim_needs_flight(pool: PoolView, handle: VarSlotHandle, owner: u8)
    requires
        !pool.is_in(handle, SlotState::InFlight),
    ensures
        pool.claimed(handle, owner) is Err,
        granted_or(pool.claimed(handle, owner), pool) == pool,
{
}

/// A freed buffer cannot be freed, sent, claimed or read.
pub proof fn law_freed_is_gone(pool: PoolView, handle: VarSlotHandle, len: nat, owner: u8)
    requires
        pool.freed_allocated(handle) is Ok,
    ensures
        ({
            let next = pool.freed_allocated(handle)->Ok_0;
            &&& next.is_in(handle, SlotState::Free)
            &&& next.freed_allocated(handle) is Err
            &&& next.freed_in_flight(handle) is Err
            &&& next.marked_in_flight(handle) is Err
            &&& next.claimed(handle, owner) is Err
            &&& next.payload(handle, len) is None
        }),
{
}

/// The slot of a buffer that was freed or dropped can be allocated again.
pub proof fn law_free_makes_room(pool: PoolView, handle: VarSlotHandle, size: nat)
    requires
        pool.wf(),
        pool.freed_allocated(handle) is Ok,
        pool.payload(handle, size) is Some,
    ensures
        refusal(pool.freed_allocated(handle)->Ok_0, size) is None,
{
    let next = pool.freed_allocated(handle)->Ok_0;
    let id = pool.locate(handle)->Ok_0;
    assert(next.slots.contains_key(id));
    assert(next.available(id, size));
    assert(next.slot_sizes[id.0] >= size);
}

/// Once the slot of a handle was allocated again, the handle is refused by everything.
pub proof fn law_stale_handle(
    pool: PoolView,
    size: nat,
    owner: u8,
    handle: VarSlotHandle,
    next: PoolView,
    stale: VarSlotHandle,
    len: nat,
    peer: u8,
)
    requires
        pool.wf(),
        pool.allocates(size, owner, handle, next),
        pool.locate(stale) is Ok,
        same_slot(stale, handle),
    ensures
        next.locate(stale) == Err::<SlotId, VarFreeError>(VarFreeError::GenerationMismatch),
        next.freed_allocated(stale) is Err,
        next.freed_in_flight(stale) is Err,
        next.marked_in_flight(stale) is Err,
        next.claimed(stale, peer) is Err,
        next.payload(stale, len) is None,
{
}

/// What was written to a buffer is what is read from it, and no other buffer changes.
pub proof fn law_write_then_read(
    pool: PoolView,
    handle: VarSlotHandle,
    bytes: Seq<u8>,
    other: VarSlotHandle,
    len: nat,
)
    requires
        pool.payload(handle, bytes.len()) is Some,
    ensures
        pool.with_payload(handle, bytes).payload(handle, bytes.len()) == Some(bytes),
        !same_slot(other, handle) ==> pool.with_payload(handle, bytes).payload(other, len)
            == pool.payload(other, len),
        pool.with_payload(handle, bytes).locate(other) == pool.locate(other),
{
    assert(pool.with_payload(handle, bytes).payload(handle, bytes.len())->0 =~= bytes);
}

/// After the recovery of a peer, none of its slots is in use, every other slot is as before, and
/// what a slot of the peer could hold can be allocated.
pub proof fn law_recovery(pool: PoolView, peer: u8, handle: VarSlotHandle, size: nat)
    requires
        pool.wf(),
    ensures
        pool.recovered(peer).wf(),
        forall|id: SlotId| #[trigger]
            pool.slots.contains_key(id) ==> {
                let slot = pool.recovered(peer).slots[id];
                if pool.slots[id].owner == peer {
                    slot.state == SlotState::Free
                } else {
                    slot == pool.slots[id]
                }
            },
        is_live(pool, handle) && owner_of(pool, handle) == peer && pool.payload(handle, size) is Some
            ==> refusal(pool.recovered(peer), size) is None,
{
    let next = pool.recovered(peer);
    if is_live(pool, handle) && owner_of(pool, handle) == peer && pool.payload(handle, size) is Some {
        let id = pool.locate(handle)->Ok_0;
        assert(next.slots.contains_key(id));
        assert(next.available(id, size));
        assert(next.slot_sizes[id.0] >= size);
    }
}

/// `id` is named by one of `handles`.
pub open spec fn names(pool: PoolView, handles: Seq<VarSlotHandle>, id: SlotId) -> bool {
    exists|i: int|
        0 <= i < handles.len() && pool.locate(#[trigger] handles[i]) == Ok::<SlotId, VarFreeError>(id)
}

/// A leg of a transfer takes every slot that is named and in the right state to its new state,
/// and leaves every other slot, all handles and all bytes as they were.
pub proof fn law_leg(pool: PoolView, leg: Leg, handles: Seq<VarSlotHandle>)
    ensures
        ({
            let next = leg.steps(pool, handles);
            &&& next.slot_sizes == pool.slot_sizes
            &&& next.slots.dom() == pool.slots.dom()
            &&& forall|handle: VarSlotHandle| #[trigger]
                next.locate(handle) == pool.locate(handle)
            &&& forall|id: SlotId| #[trigger]
                pool.slots.contains_key(id) ==> next.slots[id] == if names(pool, handles, id)
                    && pool.slots[id].state == leg.from() {
                    leg.after(pool.slots[id])
                } else {
                    pool.slots[id]
                }
        }),
    decreases handles.len(),
{
    if handles.len() > 0 {
        let earlier = handles.drop_last();
        let last = handles.last();
        law_leg(pool, leg, earlier);
        let before = leg.steps(pool, earlier);
        let next = leg.steps(pool, handles);
        assert(before.locate(last) == pool.locate(last));
        assert forall|id: SlotId|
            names(pool, handles, id) == (names(pool, earlier, id) || pool.locate(last) == Ok::<
                SlotId,
                VarFreeError,
            >(id)) by {
            if names(pool, handles, id) {
                let i = choose|i: int|
                    0 <= i < handles.len() && pool.locate(#[trigger] handles[i]) == Ok::<
                        SlotId,
                        VarFreeError,
                    >(id);
                if i < earlier.len() {
                    assert(earlier[i] == handles[i]);
                }
            }
            if names(pool, earlier, id) {
                let i = choose|i: int|
                    0 <= i < earlier.len() && pool.locate(#[trigger] earlier[i]) == Ok::<
                        SlotId,
                        VarFreeError,
                    >(id);
                assert(handles[i] == earlier[i]);
            }
            if pool.locate(last) == Ok::<SlotId, VarFreeError>(id) {
                assert(handles[handles.len() - 1] == last);
            }
        }
        assert(next.slots.dom() =~= pool.slots.dom());
        assert forall|handle: VarSlotHandle| #[trigger]
            next.locate(handle) == pool.locate(handle) by {
            assert(before.locate(handle) == pool.locate(handle));
        }
    }
}

/// A slot whose handle is among `handles` is named by them.
proof fn lemma_named(pool: PoolView, handles: Seq<VarSlotHandle>, handle: VarSlotHandle)
    requires
        handles.contains(handle),
        pool.locate(handle) is Ok,
    ensures
        names(pool, handles, pool.locate(handle)->Ok_0),
{
    let i = choose|i: int| 0 <= i < handles.len() && handles[i] == handle;
    assert(pool.locate(handles[i]) == pool.locate(handle));
}

/// A leg changes nothing in which slots are named.
proof fn lemma_names_stay(pool: PoolView, leg: Leg, handles: Seq<VarSlotHandle>, id: SlotId)
    ensures
        names(leg.steps(pool, handles), handles, id) == names(pool, handles, id),
{
    let next = leg.steps(pool, handles);
    law_leg(pool, leg, handles);
    assert forall|i: int| 0 <= i < handles.len() implies pool.locate(#[trigger] handles[i])
        == next.locate(handles[i]) by {
        assert(next.locate(handles[i]) == pool.locate(handles[i]));
    }
}

/// Sending a value takes every allocated buffer that is a part of it into flight.
///
/// Parts are what a walk enters: references, counted pointers, locks, maps and sets have none.
pub proof fn law_all_sent(pool: PoolView, whole: Reflected, part: Reflected)
    requires
        part_of(part, whole),
        is_buffer(part),
        buffer_handle(part) is Some,
        pool.is_in(buffer_handle(part)->0, SlotState::Allocated),
    ensures
        Leg::Send.steps(pool, handles(whole)).is_in(buffer_handle(part)->0, SlotState::InFlight),
{
    let handle = buffer_handle(part)->0;
    let next = Leg::Send.steps(pool, handles(whole));
    law_walk_finds_all(whole, part);
    law_leg(pool, Leg::Send, handles(whole));
    assert(next.locate(handle) == pool.locate(handle));
    lemma_named(pool, handles(whole), handle);
}

/// Receiving a value claims every buffer that is a part of it and in flight for the receiver, with
/// its bytes. Parts are as in [`law_all_sent`].
pub proof fn law_all_received(
    pool: PoolView,
    whole: Reflected,
    part: Reflected,
    owner: u8,
    len: nat,
)
    requires
        part_of(part, whole),
        is_buffer(part),
        buffer_handle(part) is Some,
        pool.is_in(buffer_handle(part)->0, SlotState::InFlight),
    ensures
        ({
            let handle = buffer_handle(part)->0;
            let next = (Leg::Receive { owner }).steps(pool, handles(whole));
            &&& next.is_in(handle, SlotState::Allocated)
            &&& owner_of(next, handle) == owner
            &&& next.payload(handle, len) == pool.payload(handle, len)
        }),
{
    let leg = Leg::Receive { owner };
    let handle = buffer_handle(part)->0;
    let next = leg.steps(pool, handles(whole));
    law_walk_finds_all(whole, part);
    law_leg(pool, leg, handles(whole));
    assert(next.locate(handle) == pool.locate(handle));
    lemma_named(pool, handles(whole), handle);
}

/// Sending takes exactly those slots into flight that are allocated and named by one of the
/// handles. Owners, generations and bytes stay.
pub proof fn law_send_slots(pool: PoolView, handles: Seq<VarSlotHandle>)
    ensures
        ({
            let next = Leg::Send.steps(pool, handles);
            &&& next.slot_sizes == pool.slot_sizes
            &&& next.slots.dom() == pool.slots.dom()
            &&& forall|id: SlotId| #[trigger]
                pool.slots.contains_key(id) ==> {
                    let sent = pool.slots[id].state == SlotState::Allocated && exists|k: int|
                        0 <= k < handles.len() && (#[trigger] handles[k]).class_idx == id.0
                            && handles[k].slot_idx == id.1 && handles[k].extent_idx == 0
                            && handles[k].class_idx < pool.slot_sizes.len()
                            && handles[k].generation == pool.slots[id].generation;
                    &&& next.slots[id].state == if sent {
                        SlotState::InFlight
                    } else {
                        pool.slots[id].state
                    }
                    &&& next.slots[id].owner == pool.slots[id].owner
                    &&& next.slots[id].generation == pool.slots[id].generation
                    &&& next.slots[id].data == pool.slots[id].data
                }
        }),
{
    law_leg(pool, Leg::Send, handles);
    assert forall|id: SlotId| #[trigger] pool.slots.contains_key(id) implies (names(
        pool,
        handles,
        id,
    ) <==> exists|k: int|
        0 <= k < handles.len() && (#[trigger] handles[k]).class_idx == id.0 && handles[k].slot_idx
            == id.1 && handles[k].extent_idx == 0 && handles[k].class_idx < pool.slot_sizes.len()
            && handles[k].generation == pool.slots[id].generation) by {
        lemma_names(pool, handles, id);
    }
}

/// Receiving makes exactly those slots the receiver's that are in flight and named by one of the
/// handles. All other owners, and the generations and bytes of all slots, stay.
pub proof fn law_receive_slots(pool: PoolView, handles: Seq<VarSlotHandle>, owner: u8)
    ensures
        ({
            let next = (Leg::Receive { owner }).steps(pool, handles);
            &&& next.slot_sizes == pool.slot_sizes
            &&& next.slots.dom() == pool.slots.dom()
            &&& forall|id: SlotId| #[trigger]
                pool.slots.contains_key(id) ==> {
                    let received = pool.slots[id].state == SlotState::InFlight && exists|k: int|
                        0 <= k < handles.len() && (#[trigger] handles[k]).class_idx == id.0
                            && handles[k].slot_idx == id.1 && handles[k].extent_idx == 0
                            && handles[k].class_idx < pool.slot_sizes.len()
                            && handles[k].generation == pool.slots[id].generation;
                    &&& next.slots[id].state == if received {
                        SlotState::Allocated
                    } else {
                        pool.slots[id].state
                    }
                    &&& next.slots[id].owner == if received {
                        owner
                    } else {
                        pool.slots[id].owner
                    }
                    &&& next.slots[id].generation == pool.slots[id].generation
                    &&& next.slots[id].data == pool.slots[id].data
                }
        }),
{
    law_leg(pool, Leg::Receive { owner }, handles);
    assert forall|id: SlotId| #[trigger] pool.slots.contains_key(id) implies (names(
        pool,
        handles,
        id,
    ) <==> exists|k: int|
        0 <= k < handles.len() && (#[trigger] handles[k]).class_idx == id.0 && handles[k].slot_idx
            == id.1 && handles[k].extent_idx == 0 && handles[k].class_idx < pool.slot_sizes.len()
            && handles[k].generation == pool.slots[id].generation) by {
        lemma_names(pool, handles, id);
    }
}

/// A slot is named by the handles that have its class, its index and its generation.
proof fn lemma_names(pool: PoolView, handles: Seq<VarSlotHandle>, id: SlotId)
    requires
        pool.slots.contains_key(id),
    ensures
        names(pool, handles, id) <==> exists|k: int|
            0 <= k < handles.len() && (#[trigger] handles[k]).class_idx == id.0
                && handles[k].slot_idx == id.1 && handles[k].extent_idx == 0 && handles[k].class_idx
                < pool.slot_sizes.len() && handles[k].generation == pool.slots[id].generation,
{
    if names(pool, handles, id) {
        let k = choose|k: int|
            0 <= k < handles.len() && pool.locate(#[trigger] handles[k]) == Ok::<
                SlotId,
                VarFreeError,
            >(id);
        assert(handles[k].class_idx == id.0);
    }
    if exists|k: int|
        0 <= k < handles.len() && (#[trigger] handles[k]).class_idx == id.0 && handles[k].slot_idx
            == id.1 && handles[k].extent_idx == 0 && handles[k].class_idx < pool.slot_sizes.len()
            && handles[k].generation == pool.slots[id].generation {
        let k = choose|k: int|
            0 <= k < handles.len() && (#[trigger] handles[k]).class_idx == id.0
                && handles[k].slot_idx == id.1 && handles[k].extent_idx == 0 && handles[k].class_idx
                < pool.slot_sizes.len() && handles[k].generation == pool.slots[id].generation;
        assert(id == (handles[k].class_idx as int, handles[k].slot_idx as int));
        assert(pool.locate(handles[k]) == Ok::<SlotId, VarFreeError>(id));
    }
}

/// One more handle adds to the refusals exactly if the pool cannot move its slot: it names none,
/// its slot was not in the right state to begin with, or the same handle came before. The reason
/// is the first thing that is wrong. Without handles nothing is refused.
pub proof fn law_refused_next(
    pool: PoolView,
    leg: Leg,
    handles: Seq<VarSlotHandle>,
    handle: VarSlotHandle,
)
    ensures
        leg.refusals(pool, Seq::empty()).len() == 0,
        ({
            let id: SlotId = (handle.class_idx as int, handle.slot_idx as int);
            let class = handle.class_idx < pool.slot_sizes.len();
            let extent = handle.extent_idx == 0;
            let slot = pool.slots.contains_key(id);
            let generation = pool.slots[id].generation == handle.generation;
            let start = match leg {
                Leg::Send => SlotState::Allocated,
                Leg::Receive { .. } => SlotState::InFlight,
            };
            let moved = class && extent && slot && generation && pool.slots[id].state == start
                && !handles.contains(handle);
            let earlier = leg.refusals(pool, handles);
            let all = leg.refusals(pool, handles.push(handle));
            if moved {
                all == earlier
            } else {
                &&& all.len() == earlier.len() + 1
                &&& all.drop_last() == earlier
                &&& all.last().handle == handle
                &&& (all.last().error == VarFreeError::InvalidClass <==> !class)
                &&& (all.last().error == VarFreeError::InvalidExtent <==> class && !extent)
                &&& (all.last().error == VarFreeError::InvalidSlot <==> class && extent && !slot)
                &&& (all.last().error == VarFreeError::GenerationMismatch <==> class && extent
                    && slot && !generation)
                &&& (all.last().error == VarFreeError::InvalidState <==> class && extent && slot
                    && generation)
            }
        }),
{
    let id: SlotId = (handle.class_idx as int, handle.slot_idx as int);
    let before = leg.steps(pool, handles);
    law_leg(pool, leg, handles);
    assert(handles.push(handle).drop_last() =~= handles);
    assert(before.locate(handle) == pool.locate(handle));
    if pool.locate(handle) is Ok {
        assert(pool.slots.contains_key(id));
        assert(names(pool, handles, id) == handles.contains(handle)) by {
            lemma_names(pool, handles, id);
            if handles.contains(handle) {
                lemma_named(pool, handles, handle);
            }
            if names(pool, handles, id) {
                let k = choose|k: int|
                    0 <= k < handles.len() && pool.locate(#[trigger] handles[k]) == Ok::<
                        SlotId,
                        VarFreeError,
                    >(id);
                assert(handles[k] == handle);
            }
        }
    }
    let all = leg.refusals(pool, handles.push(handle));
    if all.len() > leg.refusals(pool, handles).len() {
        assert(all.drop_last() =~= leg.refusals(pool, handles));
    }
}

/// A second round of a leg changes nothing, whoever receives in it.
proof fn lemma_leg_once(pool: PoolView, first: Leg, second: Leg, handles: Seq<VarSlotHandle>)
    requires
        first.from() == second.from(),
    ensures
        second.steps(first.steps(pool, handles), handles) == first.steps(pool, handles),
{
    let once = first.steps(pool, handles);
    let twice = second.steps(once, handles);
    law_leg(pool, first, handles);
    law_leg(once, second, handles);
    assert forall|id: SlotId| once.slots.contains_key(id) implies #[trigger] twice.slots[id]
        == once.slots[id] by {
        assert(pool.slots.contains_key(id));
        lemma_names_stay(pool, first, handles, id);
    }
    assert(twice.slots =~= once.slots);
}

/// Sending what is in flight already changes nothing.
pub proof fn law_sent_once(pool: PoolView, handles: Seq<VarSlotHandle>)
    ensures
        Leg::Send.steps(Leg::Send.steps(pool, handles), handles) == Leg::Send.steps(pool, handles),
{
    lemma_leg_once(pool, Leg::Send, Leg::Send, handles);
}

/// Receiving what was received already changes nothing, also if another peer does: the first
/// receiver stays the owner.
pub proof fn law_received_once(
    pool: PoolView,
    handles: Seq<VarSlotHandle>,
    owner: u8,
    other: u8,
)
    ensures
        ({
            let received = (Leg::Receive { owner }).steps(pool, handles);
            (Leg::Receive { owner: other }).steps(received, handles) == received
        }),
{
    lemma_leg_once(pool, Leg::Receive { owner }, Leg::Receive { owner: other }, handles);
}

/// A buffer that is a part of a value, as in [`law_all_sent`], arrives with it: after the value was
/// sent and received, the buffer is allocated to the receiver with the bytes it had.
pub proof fn law_value_arrives(
    pool: PoolView,
    whole: Reflected,
    part: Reflected,
    owner: u8,
    len: nat,
)
    requires
        part_of(part, whole),
        is_buffer(part),
        buffer_handle(part) is Some,
        pool.is_in(buffer_handle(part)->0, SlotState::Allocated),
    ensures
        ({
            let handle = buffer_handle(part)->0;
            let sent = Leg::Send.steps(pool, handles(whole));
            let received = (Leg::Receive { owner }).steps(sent, handles(whole));
            &&& received.is_in(handle, SlotState::Allocated)
            &&& owner_of(received, handle) == owner
            &&& received.payload(handle, len) == pool.payload(handle, len)
        }),
{
    let handle = buffer_handle(part)->0;
    let sent = Leg::Send.steps(pool, handles(whole));
    law_all_sent(pool, whole, part);
    law_leg(pool, Leg::Send, handles(whole));
    assert(sent.locate(handle) == pool.locate(handle));
    law_all_received(sent, whole, part, owner, len);
}

/// A slot that no buffer of a value names is left alone when the value is sent and received.
pub proof fn law_others_stay(pool: PoolView, whole: Reflected, owner: u8, id: SlotId)
    requires
        pool.slots.contains_key(id),
        !names(pool, handles(whole), id),
    ensures
        ({
            let sent = Leg::Send.steps(pool, handles(whole));
            let received = (Leg::Receive { owner }).steps(sent, handles(whole));
            &&& sent.slots[id] == pool.slots[id]
            &&& received.slots[id] == pool.slots[id]
        }),
{
    let sent = Leg::Send.steps(pool, handles(whole));
    law_leg(pool, Leg::Send, handles(whole));
    law_leg(sent, Leg::Receive { owner }, handles(whole));
    lemma_names_stay(pool, Leg::Send, handles(whole), id);
}

/// Nothing is refused if every handle names a slot of its own in the right state.
pub proof fn law_nothing_refused(pool: PoolView, leg: Leg, handles: Seq<VarSlotHandle>)
    requires
        forall|i: int| 0 <= i < handles.len() ==> pool.is_in(#[trigger] handles[i], leg.from()),
        forall|i: int, j: int|
            0 <= i < j < handles.len() ==> !same_slot(#[trigger] handles[i], #[trigger] handles[j]),
    ensures
        leg.refusals(pool, handles).len() == 0,
    decreases handles.len(),
{
    if handles.len() > 0 {
        let earlier = handles.drop_last();
        let last = handles.last();
        assert forall|i: int| 0 <= i < earlier.len() implies pool.is_in(
            #[trigger] earlier[i],
            leg.from(),
        ) by {
            assert(earlier[i] == handles[i]);
        }
        assert forall|i: int, j: int| 0 <= i < j < earlier.len() implies !same_slot(
            #[trigger] earlier[i],
            #[trigger] earlier[j],
        ) by {
            assert(earlier[i] == handles[i] && earlier[j] == handles[j]);
        }
        law_nothing_refused(pool, leg, earlier);
        law_leg(pool, leg, earlier);
        let before = leg.steps(pool, earlier);
        assert(before.locate(last) == pool.locate(last));
        assert(handles[handles.len() - 1] == last);
        assert(pool.is_in(last, leg.from()));
        let at = pool.locate(last)->Ok_0;
        assert(!names(pool, earlier, at)) by {
            if names(pool, earlier, at) {
                let i = choose|i: int|
                    0 <= i < earlier.len() && pool.locate(#[trigger] earlier[i]) == Ok::<
                        SlotId,
                        VarFreeError,
                    >(at);
                assert(earlier[i] == handles[i]);
                assert(same_slot(handles[i], handles[handles.len() - 1]));
            }
        }
    }
}

/// A walk finds every `ShmBytes` that is a part of a value, as in [`law_all_sent`].
pub proof fn law_walk_finds_all(whole: Reflected, part: Reflected)
    requires
        part_of(part, whole),
        is_buffer(part),
        buffer_handle(part) is Some,
    ensures
        handles(whole).contains(buffer_handle(part)->0),
    decreases whole, 0nat,
{
    if part == whole {
        assert(handles(whole)[0] == buffer_handle(part)->0);
    } else if let Some(option) = whole.option {
        law_walk_finds_all(*option->0, part);
    } else if let Some(inner) = whole.result {
        law_walk_finds_all(*inner, part);
    } else if let Some(inner) = whole.boxed {
        law_walk_finds_all(*inner, part);
    } else if let Some(fields) = whole.fields {
        lemma_finds_all_in_fields(fields@, fields@.len(), part);
    } else if let Some(variant) = whole.variant {
        lemma_finds_all_in(variant@, variant@.len(), part);
    } else if let Some(items) = whole.items {
        lemma_finds_all_in(items@, items@.len(), part);
    }
}

/// A walk over values finds every `ShmBytes` in them.
proof fn lemma_finds_all_in(values: Seq<Reflected>, n: nat, part: Reflected)
    requires
        part_of_any(part, values, n),
        is_buffer(part),
        buffer_handle(part) is Some,
    ensures
        handles_in(values, n).contains(buffer_handle(part)->0),
    decreases values, n,
{
    let earlier = handles_in(values, (n - 1) as nat);
    let last = handles(values[n - 1]);
    let handle = buffer_handle(part)->0;
    if part_of(part, values[n - 1]) {
        law_walk_finds_all(values[n - 1], part);
        let k = choose|k: int| 0 <= k < last.len() && last[k] == handle;
        assert((earlier + last)[earlier.len() + k] == handle);
    } else {
        lemma_finds_all_in(values, (n - 1) as nat, part);
        let k = choose|k: int| 0 <= k < earlier.len() && earlier[k] == handle;
        assert((earlier + last)[k] == handle);
    }
}

/// A walk over fields finds every `ShmBytes` in them.
proof fn lemma_finds_all_in_fields(fields: Seq<ReflectedField>, n: nat, part: Reflected)
    requires
        part_of_fields(part, fields, n),
        is_buffer(part),
        buffer_handle(part) is Some,
    ensures
        handles_in_fields(fields, n).contains(buffer_handle(part)->0),
    decreases fields, n,
{
    let earlier = handles_in_fields(fields, (n - 1) as nat);
    let last = handles(fields[n - 1].value);
    let handle = buffer_handle(part)->0;
    if part_of(part, fields[n - 1].value) {
        law_walk_finds_all(fields[n - 1].value, part);
        let k = choose|k: int| 0 <= k < last.len() && last[k] == handle;
        assert((earlier + last)[earlier.len() + k] == handle);
    } else {
        lemma_finds_all_in_fields(fields, (n - 1) as nat, part);
        let k = choose|k: int| 0 <= k < earlier.len() && earlier[k] == handle;
        assert((earlier + last)[k] == handle);
    }
}

/// A walk finds nothing but the handles of the `ShmBytes` that are parts of a value.
pub proof fn law_walk_finds_only(whole: Reflected, handle: VarSlotHandle)
    requires
        handles(whole).contains(handle),
    ensures
        exists|part: Reflected| #[trigger]
            part_of(part, whole) && is_buffer(part) && buffer_handle(part) == Some(handle),
{
    let part = lemma_source(whole, handle);
    assert(part_of(part, whole));
}

/// The `ShmBytes` from which a walk has `handle`.
proof fn lemma_source(whole: Reflected, handle: VarSlotHandle) -> (part: Reflected)
    requires
        handles(whole).contains(handle),
    ensures
        part_of(part, whole),
        is_buffer(part),
        buffer_handle(part) == Some(handle),
    decreases whole, 0nat,
{
    if is_buffer(whole) {
        whole
    } else if let Some(option) = whole.option {
        lemma_source(*option->0, handle)
    } else if let Some(inner) = whole.result {
        lemma_source(*inner, handle)
    } else if let Some(inner) = whole.boxed {
        lemma_source(*inner, handle)
    } else if let Some(fields) = whole.fields {
        lemma_source_in_fields(fields@, fields@.len(), handle)
    } else if let Some(variant) = whole.variant {
        lemma_source_in(variant@, variant@.len(), handle)
    } else {
        lemma_source_in(whole.items->0@, whole.items->0@.len(), handle)
    }
}

/// The `ShmBytes` from which a walk over values has `handle`.
proof fn lemma_source_in(values: Seq<Reflected>, n: nat, handle: VarSlotHandle) -> (part: Reflected)
    requires
        handles_in(values, n).contains(handle),
    ensures
        part_of_any(part, values, n),
        is_buffer(part),
        buffer_handle(part) == Some(handle),
    decreases values, n,
{
    let earlier = handles_in(values, (n - 1) as nat);
    let last = handles(values[n - 1]);
    let k = choose|k: int| 0 <= k < (earlier + last).len() && (earlier + last)[k] == handle;
    if k < earlier.len() {
        assert(earlier[k] == handle);
        lemma_source_in(values, (n - 1) as nat, handle)
    } else {
        assert(last[k - earlier.len()] == handle);
        lemma_source(values[n - 1], handle)
    }
}

/// The `ShmBytes` from which a walk over fields has `handle`.
proof fn lemma_source_in_fields(
    fields: Seq<ReflectedField>,
    n: nat,
    handle: VarSlotHandle,
) -> (part: Reflected)
    requires
        handles_in_fields(fields, n).contains(handle),
    ensures
        part_of_fields(part, fields, n),
        is_buffer(part),
        buffer_handle(part) == Some(handle),
    decreases fields, n,
{
    let earlier = handles_in_fields(fields, (n - 1) as nat);
    let last = handles(fields[n - 1].value);
    let k = choose|k: int| 0 <= k < (earlier + last).len() && (earlier + last)[k] == handle;
    if k < earlier.len() {
        assert(earlier[k] == handle);
        lemma_source_in_fields(fields, (n - 1) as nat, handle)
    } else {
        assert(last[k - earlier.len()] == handle);
        lemma_source(fields[n - 1].value, handle)
    }
}

} // verus!
