//! What the operations on a pool do, slot by slot.
//!
//! Each law says of one operation when it succeeds, what the slot of its handle is afterwards, and
//! that every other slot is what it was. The laws speak of the record and the bytes of slots, so
//! that they can be read without the definitions of the operations.

use vstd::prelude::*;

use crate::layout::SizeClass;
use crate::shm_bytes::{granted_or, outcome, peer_or_host, refusal, ShmError};
use crate::var_slot_pool::{
    PoolView, SlotId, SlotState, SlotView, VarFreeError, VarSlotHandle,
};

verus! {

/// A handle names the slot of its class and index, if there is one and the generations agree. If
/// it names none, the first thing that is wrong with it is the reason.
pub proof fn law_handle_names(pool: PoolView, handle: VarSlotHandle)
    ensures
        ({
            let id: SlotId = (handle.class_idx as int, handle.slot_idx as int);
            let class = handle.class_idx < pool.slot_sizes.len();
            let extent = handle.extent_idx == 0;
            let slot = pool.slots.contains_key(id);
            let generation = pool.slots[id].generation == handle.generation;
            &&& (pool.locate(handle) is Ok <==> class && extent && slot && generation)
            &&& pool.locate(handle) matches Ok(found) ==> found.0 == handle.class_idx && found.1
                == handle.slot_idx
            &&& pool.locate(handle) matches Err(e) ==> {
                &&& (e == VarFreeError::InvalidClass <==> !class)
                &&& (e == VarFreeError::InvalidExtent <==> class && !extent)
                &&& (e == VarFreeError::InvalidSlot <==> class && extent && !slot)
                &&& (e == VarFreeError::GenerationMismatch <==> class && extent && slot
                    && !generation)
                &&& e != VarFreeError::InvalidState
            }
            &&& forall|state: SlotState| #[trigger]
                pool.is_in(handle, state) <==> class && extent && slot && generation
                    && pool.slots[id].state == state
        }),
{
}

/// Taking a slot into flight succeeds exactly if its handle names an allocated slot. The slot is
/// then in flight with the owner, generation and bytes that it had, and no other slot changes.
pub proof fn law_mark(pool: PoolView, handle: VarSlotHandle)
    ensures
        ({
            let id: SlotId = (handle.class_idx as int, handle.slot_idx as int);
            &&& pool.marked_in_flight(handle) is Ok <==> {
                &&& handle.class_idx < pool.slot_sizes.len()
                &&& handle.extent_idx == 0
                &&& pool.slots.contains_key(id)
                &&& pool.slots[id].generation == handle.generation
                &&& pool.slots[id].state == SlotState::Allocated
            }
            &&& pool.marked_in_flight(handle) matches Ok(next) ==> {
                &&& next.slots[id].state == SlotState::InFlight
                &&& next.slots[id].owner == pool.slots[id].owner
                &&& next.slots[id].generation == pool.slots[id].generation
                &&& next.slots[id].data == pool.slots[id].data
                &&& next.slot_sizes == pool.slot_sizes
                &&& next.slots.dom() == pool.slots.dom()
                &&& forall|other: SlotId|
                    pool.slots.contains_key(other) && other != id ==> #[trigger] next.slots[other]
                        == pool.slots[other]
            }
        }),
{
    if let Ok(next) = pool.marked_in_flight(handle) {
        assert(next.slots.dom() =~= pool.slots.dom());
    }
}

/// Claiming a slot succeeds exactly if its handle names a slot in flight. The slot is then
/// allocated to the claiming peer with the generation and bytes that it had, and no other slot
/// changes.
pub proof fn law_claim(pool: PoolView, handle: VarSlotHandle, owner: u8)
    ensures
        ({
            let id: SlotId = (handle.class_idx as int, handle.slot_idx as int);
            &&& pool.claimed(handle, owner) is Ok <==> {
                &&& handle.class_idx < pool.slot_sizes.len()
                &&& handle.extent_idx == 0
                &&& pool.slots.contains_key(id)
                &&& pool.slots[id].generation == handle.generation
                &&& pool.slots[id].state == SlotState::InFlight
            }
            &&& pool.claimed(handle, owner) matches Ok(next) ==> {
                &&& next.slots[id].state == SlotState::Allocated
                &&& next.slots[id].owner == owner
                &&& next.slots[id].generation == pool.slots[id].generation
                &&& next.slots[id].data == pool.slots[id].data
                &&& next.slot_sizes == pool.slot_sizes
                &&& next.slots.dom() == pool.slots.dom()
                &&& forall|other: SlotId|
                    pool.slots.contains_key(other) && other != id ==> #[trigger] next.slots[other]
                        == pool.slots[other]
            }
        }),
{
    if let Ok(next) = pool.claimed(handle, owner) {
        assert(next.slots.dom() =~= pool.slots.dom());
    }
}

/// Freeing a buffer succeeds exactly if its handle names an allocated slot. The slot is then free
/// with the owner, generation and bytes that it had, and no other slot changes.
pub proof fn law_free_allocated(pool: PoolView, handle: VarSlotHandle)
    ensures
        ({
            let id: SlotId = (handle.class_idx as int, handle.slot_idx as int);
            &&& pool.freed_allocated(handle) is Ok <==> {
                &&& handle.class_idx < pool.slot_sizes.len()
                &&& handle.extent_idx == 0
                &&& pool.slots.contains_key(id)
                &&& pool.slots[id].generation == handle.generation
                &&& pool.slots[id].state == SlotState::Allocated
            }
            &&& pool.freed_allocated(handle) matches Ok(next) ==> {
                &&& next.slots[id].state == SlotState::Free
                &&& next.slots[id].owner == pool.slots[id].owner
                &&& next.slots[id].generation == pool.slots[id].generation
                &&& next.slots[id].data == pool.slots[id].data
                &&& next.slot_sizes == pool.slot_sizes
                &&& next.slots.dom() == pool.slots.dom()
                &&& forall|other: SlotId|
                    pool.slots.contains_key(other) && other != id ==> #[trigger] next.slots[other]
                        == pool.slots[other]
            }
        }),
{
    if let Ok(next) = pool.freed_allocated(handle) {
        assert(next.slots.dom() =~= pool.slots.dom());
    }
}

/// Freeing in transit succeeds exactly if the handle names a slot in flight. The slot is then free
/// with the owner, generation and bytes that it had, and no other slot changes.
pub proof fn law_free_in_flight(pool: PoolView, handle: VarSlotHandle)
    ensures
        ({
            let id: SlotId = (handle.class_idx as int, handle.slot_idx as int);
            &&& pool.freed_in_flight(handle) is Ok <==> {
                &&& handle.class_idx < pool.slot_sizes.len()
                &&& handle.extent_idx == 0
                &&& pool.slots.contains_key(id)
                &&& pool.slots[id].generation == handle.generation
                &&& pool.slots[id].state == SlotState::InFlight
            }
            &&& pool.freed_in_flight(handle) matches Ok(next) ==> {
                &&& next.slots[id].state == SlotState::Free
                &&& next.slots[id].owner == pool.slots[id].owner
                &&& next.slots[id].generation == pool.slots[id].generation
                &&& next.slots[id].data == pool.slots[id].data
                &&& next.slot_sizes == pool.slot_sizes
                &&& next.slots.dom() == pool.slots.dom()
                &&& forall|other: SlotId|
                    pool.slots.contains_key(other) && other != id ==> #[trigger] next.slots[other]
                        == pool.slots[other]
            }
        }),
{
    if let Ok(next) = pool.freed_in_flight(handle) {
        assert(next.slots.dom() =~= pool.slots.dom());
    }
}

/// An operation that is refused says why: the first thing that is wrong with the handle, or that
/// the slot is in another state than the one that the operation starts from.
pub proof fn law_refusal_reasons(pool: PoolView, handle: VarSlotHandle, owner: u8, error: VarFreeError)
    requires
        ({
            ||| pool.marked_in_flight(handle) == Err::<PoolView, VarFreeError>(error)
            ||| pool.claimed(handle, owner) == Err::<PoolView, VarFreeError>(error)
            ||| pool.freed_allocated(handle) == Err::<PoolView, VarFreeError>(error)
            ||| pool.freed_in_flight(handle) == Err::<PoolView, VarFreeError>(error)
        }),
    ensures
        ({
            let id: SlotId = (handle.class_idx as int, handle.slot_idx as int);
            let class = handle.class_idx < pool.slot_sizes.len();
            let extent = handle.extent_idx == 0;
            let slot = pool.slots.contains_key(id);
            let generation = pool.slots[id].generation == handle.generation;
            &&& (error == VarFreeError::InvalidClass <==> !class)
            &&& (error == VarFreeError::InvalidExtent <==> class && !extent)
            &&& (error == VarFreeError::InvalidSlot <==> class && extent && !slot)
            &&& (error == VarFreeError::GenerationMismatch <==> class && extent && slot
                && !generation)
            &&& (error == VarFreeError::InvalidState <==> class && extent && slot && generation)
        }),
{
}

/// An allocation takes one slot: the first, in the order of classes and indices, that is free and
/// large enough. The slot is then allocated to the asking peer, its generation is one further
/// (after the last comes 0), and its bytes are what they were. The handle names it. No other slot
/// changes, be it free or in use.
pub proof fn law_allocate(
    pool: PoolView,
    size: nat,
    owner: u8,
    handle: VarSlotHandle,
    next: PoolView,
)
    requires
        pool.wf(),
        pool.allocates(size, owner, handle, next),
    ensures
        ({
            let id: SlotId = (handle.class_idx as int, handle.slot_idx as int);
            let before = pool.slots[id];
            let after = next.slots[id];
            &&& pool.slots.contains_key(id)
            &&& before.state == SlotState::Free
            &&& before.data.len() >= size
            &&& after.state == SlotState::Allocated
            &&& after.owner == owner
            &&& after.generation == if before.generation == 0xffff_ffff {
                0int
            } else {
                before.generation + 1
            }
            &&& after.data == before.data
            &&& handle.extent_idx == 0
            &&& handle.generation == after.generation
            &&& next.slot_sizes == pool.slot_sizes
            &&& next.slots.dom() == pool.slots.dom()
            &&& forall|other: SlotId|
                pool.slots.contains_key(other) && other != id ==> #[trigger] next.slots[other]
                    == pool.slots[other]
            &&& forall|other: SlotId| #[trigger]
                pool.slots.contains_key(other) && pool.slots[other].state == SlotState::Free
                    && pool.slots[other].data.len() >= size ==> id.0 < other.0 || (id.0 == other.0
                    && id.1 <= other.1)
        }),
{
    let id: SlotId = choose|id: SlotId|
        #![trigger pool.first_available(id, size)]
        {
            &&& pool.first_available(id, size)
            &&& handle == pool.fresh_handle(id)
            &&& next == pool.allocated(id, owner)
        };
    assert(pool.slots.contains_key(id));
    assert(next.slots.dom() =~= pool.slots.dom());
    assert forall|other: SlotId| #[trigger]
        pool.slots.contains_key(other) && pool.slots[other].state == SlotState::Free
            && pool.slots[other].data.len() >= size implies id.0 < other.0 || (id.0 == other.0
        && id.1 <= other.1) by {
        assert(pool.available(other, size));
    }
}

/// Allocating gives the same slot and the same pool whenever it is asked for the same.
pub proof fn law_allocate_is_determined(
    pool: PoolView,
    size: nat,
    owner: u8,
    handle: VarSlotHandle,
    next: PoolView,
    other_handle: VarSlotHandle,
    other_next: PoolView,
)
    requires
        pool.wf(),
        pool.allocates(size, owner, handle, next),
        pool.allocates(size, owner, other_handle, other_next),
    ensures
        handle == other_handle,
        next == other_next,
{
    law_allocate(pool, size, owner, handle, next);
    law_allocate(pool, size, owner, other_handle, other_next);
    let id: SlotId = (handle.class_idx as int, handle.slot_idx as int);
    let other: SlotId = (other_handle.class_idx as int, other_handle.slot_idx as int);
    assert(pool.slots.contains_key(id) && pool.slots.contains_key(other));
    assert(next.slots =~= other_next.slots);
}

/// A buffer can be allocated exactly if some slot is free and large enough. If not, the size is too
/// large if it exceeds the slots of every class, and the pool is exhausted otherwise.
pub proof fn law_refusal(pool: PoolView, size: nat)
    requires
        pool.wf(),
    ensures
        ({
            let room = exists|id: SlotId| #[trigger]
                pool.slots.contains_key(id) && pool.slots[id].state == SlotState::Free
                    && pool.slots[id].data.len() >= size;
            let fits = exists|c: int|
                0 <= c < pool.slot_sizes.len() && #[trigger] pool.slot_sizes[c] >= size;
            &&& pool.has_room(size) <==> room
            &&& pool.oversize(size) <==> pool.slot_sizes.len() > 0 && !fits
            &&& refusal(pool, size) is None <==> room
            &&& refusal(pool, size) == Some(ShmError::SizeTooLarge) <==> pool.slot_sizes.len() > 0
                && !fits
            &&& refusal(pool, size) == Some(ShmError::SlotExhausted) <==> !room && (
            pool.slot_sizes.len() == 0 || fits)
        }),
{
    let room = exists|id: SlotId| #[trigger]
        pool.slots.contains_key(id) && pool.slots[id].state == SlotState::Free
            && pool.slots[id].data.len() >= size;
    if room {
        let id = choose|id: SlotId| #[trigger]
            pool.slots.contains_key(id) && pool.slots[id].state == SlotState::Free
                && pool.slots[id].data.len() >= size;
        assert(pool.available(id, size));
        assert(pool.slot_sizes[id.0] >= size);
    }
    if pool.has_room(size) {
        let id = choose|id: SlotId| pool.available(id, size);
        assert(pool.slots.contains_key(id));
        assert(pool.slot_sizes[id.0] >= size);
    }
}

/// Reading gives the first `len` bytes of the slot that the handle names, if the slot is in use and
/// has as many; it gives nothing otherwise.
pub proof fn law_read(pool: PoolView, handle: VarSlotHandle, len: nat)
    ensures
        ({
            let id: SlotId = (handle.class_idx as int, handle.slot_idx as int);
            &&& pool.payload(handle, len) is Some <==> {
                &&& handle.class_idx < pool.slot_sizes.len()
                &&& handle.extent_idx == 0
                &&& pool.slots.contains_key(id)
                &&& pool.slots[id].generation == handle.generation
                &&& pool.slots[id].state != SlotState::Free
                &&& len <= pool.slots[id].data.len()
            }
            &&& pool.payload(handle, len) matches Some(bytes) ==> {
                &&& bytes.len() == len
                &&& forall|i: int| 0 <= i < len ==> #[trigger] bytes[i] == pool.slots[id].data[i]
            }
        }),
{
}

/// Writing to a buffer replaces its bytes one for one. The bytes of the slot after them, its
/// record, and every other slot are what they were.
pub proof fn law_write(pool: PoolView, handle: VarSlotHandle, bytes: Seq<u8>)
    requires
        pool.payload(handle, bytes.len()) is Some,
    ensures
        ({
            let id: SlotId = (handle.class_idx as int, handle.slot_idx as int);
            let next = pool.with_payload(handle, bytes);
            &&& next.slots[id].data.len() == pool.slots[id].data.len()
            &&& forall|i: int|
                0 <= i < pool.slots[id].data.len() ==> #[trigger] next.slots[id].data[i] == if i
                    < bytes.len() {
                    bytes[i]
                } else {
                    pool.slots[id].data[i]
                }
            &&& next.slots[id].state == pool.slots[id].state
            &&& next.slots[id].owner == pool.slots[id].owner
            &&& next.slots[id].generation == pool.slots[id].generation
            &&& next.slot_sizes == pool.slot_sizes
            &&& next.slots.dom() == pool.slots.dom()
            &&& forall|other: SlotId|
                pool.slots.contains_key(other) && other != id ==> #[trigger] next.slots[other]
                    == pool.slots[other]
        }),
{
    assert(pool.with_payload(handle, bytes).slots.dom() =~= pool.slots.dom());
}

/// A new pool has the slots that its classes say, each free, of generation 0, owned by the host,
/// and as many zero bytes long as its class says; and it has no others.
pub proof fn law_new_pool(classes: Seq<SizeClass>)
    ensures
        ({
            let pool = PoolView::fresh(classes);
            &&& pool.slot_sizes.len() == classes.len()
            &&& forall|c: int|
                0 <= c < classes.len() ==> #[trigger] pool.slot_sizes[c] == classes[c].slot_size
            &&& forall|id: SlotId| #[trigger]
                pool.slots.contains_key(id) <==> 0 <= id.0 < classes.len() && 0 <= id.1
                    < classes[id.0].slot_count
            &&& forall|id: SlotId| #[trigger]
                pool.slots.contains_key(id) ==> {
                    &&& pool.slots[id].state == SlotState::Free
                    &&& pool.slots[id].owner == 0
                    &&& pool.slots[id].generation == 0
                    &&& pool.slots[id].data.len() == classes[id.0].slot_size
                    &&& forall|i: int|
                        0 <= i < pool.slots[id].data.len() ==> #[trigger] pool.slots[id].data[i]
                            == 0
                }
        }),
{
}

/// Recovery of a peer frees the slots that the peer owns, and does nothing else: owners,
/// generations and bytes stay, and so do the slots of all others.
pub proof fn law_recover(pool: PoolView, peer: u8)
    ensures
        ({
            let next = pool.recovered(peer);
            &&& next.slot_sizes == pool.slot_sizes
            &&& next.slots.dom() == pool.slots.dom()
            &&& forall|id: SlotId| #[trigger]
                pool.slots.contains_key(id) ==> {
                    &&& next.slots[id].state == if pool.slots[id].owner == peer {
                        SlotState::Free
                    } else {
                        pool.slots[id].state
                    }
                    &&& next.slots[id].owner == pool.slots[id].owner
                    &&& next.slots[id].generation == pool.slots[id].generation
                    &&& next.slots[id].data == pool.slots[id].data
                }
        }),
{
    assert(pool.recovered(peer).slots.dom() =~= pool.slots.dom());
}

/// The record of a slot is its state, its owner and its generation.
pub proof fn law_record(slot: SlotView)
    ensures
        slot.meta().state == slot.state,
        slot.meta().owner == slot.owner,
        slot.meta().generation == slot.generation,
{
}

/// A pool is valid exactly if there are no more classes than a handle can name, every slot is in a
/// class and has an index that a handle can name, and is as long as its class says.
pub proof fn law_validity(pool: PoolView)
    ensures
        pool.wf() <==> pool.slot_sizes.len() <= 256 && forall|id: SlotId| #[trigger]
            pool.slots.contains_key(id) ==> {
                &&& 0 <= id.0 < pool.slot_sizes.len()
                &&& 0 <= id.1 <= 0xffff_ffff
                &&& pool.slots[id].data.len() == pool.slot_sizes[id.0]
            },
{
}

/// A task acts as the peer whose id it has, whichever that is, and as the host, peer 0, if it has
/// none.
pub proof fn law_local_peer(peer: u8)
    ensures
        peer_or_host(Some(peer)) == peer,
        peer_or_host(None) == 0,
{
}

/// A buffer that is claimed under a peer id belongs to that very peer, and to the host without one.
pub proof fn law_claimed_by_local_peer(
    pool: PoolView,
    handle: VarSlotHandle,
    local_peer_id: Option<u8>,
    next: PoolView,
)
    requires
        pool.claimed(handle, peer_or_host(local_peer_id)) == Ok::<PoolView, VarFreeError>(next),
    ensures
        local_peer_id matches Some(peer) ==> next.slots[(
            handle.class_idx as int,
            handle.slot_idx as int,
        )].owner == peer,
        local_peer_id is None ==> next.slots[(
            handle.class_idx as int,
            handle.slot_idx as int,
        )].owner == 0,
{
}

/// A buffer that is allocated under a peer id belongs to that very peer, and to the host without
/// one.
pub proof fn law_allocated_by_local_peer(
    pool: PoolView,
    size: nat,
    local_peer_id: Option<u8>,
    handle: VarSlotHandle,
    next: PoolView,
)
    requires
        pool.wf(),
        pool.allocates(size, peer_or_host(local_peer_id), handle, next),
    ensures
        local_peer_id matches Some(peer) ==> next.slots[(
            handle.class_idx as int,
            handle.slot_idx as int,
        )].owner == peer,
        local_peer_id is None ==> next.slots[(
            handle.class_idx as int,
            handle.slot_idx as int,
        )].owner == 0,
{
    law_allocate(pool, size, peer_or_host(local_peer_id), handle, next);
}

/// A buffer operation succeeds exactly if the pool grants it, and hands on the pool's reason if
/// not. What the pool refuses leaves it as it was.
pub proof fn law_answers(pool: PoolView, next: PoolView, error: VarFreeError)
    ensures
        outcome(Ok(next)) == Ok::<(), ShmError>(()),
        outcome(Err(error)) == Err::<(), ShmError>(ShmError::FreeError(error)),
        granted_or(Ok(next), pool) == next,
        granted_or(Err(error), pool) == pool,
        <ShmError as vstd::std_specs::convert::FromSpec<VarFreeError>>::from_spec(error)
            == ShmError::FreeError(error),
        <ShmError as vstd::std_specs::convert::FromSpec<VarFreeError>>::obeys_from_spec(),
{
}

} // verus!
