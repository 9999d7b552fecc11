//! Passing all buffers of a value between peers.
//!
//! Before a value is sent, [`mark_shm_bytes_in_flight`] takes every `ShmBytes` that a walk finds in
//! it into flight. After a value was received, [`patch_shm_bytes`] claims every `ShmBytes` that a
//! walk finds in it. Turning a buffer into its wire form does neither, so a value can be printed
//! without touching the pool.
//!
//! A walk enters structs, tuples, options, `Result`, boxes, the active variants of enums, lists,
//! arrays and slices. It does not enter references, counted pointers, locks, maps and sets.
//!
//! A slot that the pool refuses to move does not stop the others: the refusals are returned.

use vstd::prelude::*;

use crate::facet_view::{peek_contents, poke_contents, poke_into_peek, FacetView};
use crate::reflect::{find_handles, handles, Inspect};
use crate::shm_bytes::{granted_or, peer_or_host};
use crate::var_slot_pool::{
    PoolView, SlotState, SlotView, VarFreeError, VarSlotHandle, VarSlotPool,
};

verus! {

/// One half of a transfer.
#[derive(Debug, Clone, Copy, PartialEq, Eq, Structural)]
pub enum Leg {
    /// The sender takes slots into flight.
    Send,
    /// The receiver claims slots for itself.
    Receive {
        /// The receiving peer.
        owner: u8,
    },
}

/// A slot that the pool did not move, and why.
#[derive(Debug, Clone, Copy, PartialEq, Eq, Structural)]
pub struct Refused {
    /// The handle of the slot.
    pub handle: VarSlotHandle,
    /// The reason.
    pub error: VarFreeError,
}

impl Leg {
    /// The pool after this leg for one slot.
    pub open spec fn step(self, pool: PoolView, handle: VarSlotHandle) -> Result<
        PoolView,
        VarFreeError,
    > {
        match self {
            Leg::Send => pool.marked_in_flight(handle),
            Leg::Receive { owner } => pool.claimed(handle, owner),
        }
    }

    /// The state in which a slot has to be for this leg.
    pub open spec fn from(self) -> SlotState {
        match self {
            Leg::Send => SlotState::Allocated,
            Leg::Receive { .. } => SlotState::InFlight,
        }
    }

    /// A slot after this leg.
    pub open spec fn after(self, slot: SlotView) -> SlotView {
        match self {
            Leg::Send => SlotView { state: SlotState::InFlight, ..slot },
            Leg::Receive { owner } => SlotView { state: SlotState::Allocated, owner, ..slot },
        }
    }

    /// The pool after this leg for each of `handles` in turn, passing over those that it refuses.
    pub open spec fn steps(self, pool: PoolView, handles: Seq<VarSlotHandle>) -> PoolView
        decreases handles.len(),
    {
        if handles.len() == 0 {
            pool
        } else {
            let before = self.steps(pool, handles.drop_last());
            granted_or(self.step(before, handles.last()), before)
        }
    }

    /// The handles that the pool refuses in `steps`, in order, each with the reason.
    pub open spec fn refusals(self, pool: PoolView, handles: Seq<VarSlotHandle>) -> Seq<Refused>
        decreases handles.len(),
    {
        if handles.len() == 0 {
            Seq::empty()
        } else {
            let earlier = self.refusals(pool, handles.drop_last());
            match self.step(self.steps(pool, handles.drop_last()), handles.last()) {
                Ok(_) => earlier,
                Err(error) => earlier.push(Refused { handle: handles.last(), error }),
            }
        }
    }
}

/// Takes each of `handles` through a leg, and returns those that the pool refused.
pub fn move_all(leg: Leg, handles: &Vec<VarSlotHandle>, pool: &mut VarSlotPool) -> (refused: Vec<
    Refused,
>)
    requires
        old(pool).wf(),
    ensures
        final(pool).wf(),
        final(pool)@ == leg.steps(old(pool)@, handles@),
        refused@ == leg.refusals(old(pool)@, handles@),
{
    let mut refused: Vec<Refused> = Vec::new();
    let mut i: usize = 0;
    while i < handles.len()
        invariant
            i <= handles@.len(),
            pool.wf(),
            pool@ == leg.steps(old(pool)@, handles@.take(i as int)),
            refused@ == leg.refusals(old(pool)@, handles@.take(i as int)),
        decreases handles@.len() - i,
    {
        let handle: VarSlotHandle = handles[i];
        assert(handles@.take(i + 1).drop_last() =~= handles@.take(i as int));
        assert(handles@.take(i + 1).last() == handle);
        let done = match leg {
            Leg::Send => pool.mark_in_flight(handle),
            Leg::Receive { owner } => pool.claim_in_flight(handle, owner),
        };
        if let Err(error) = done {
            refused.push(Refused { handle, error });
        }
        i += 1;
    }
    assert(handles@.take(i as int) =~= handles@);
    refused
}

/// Takes every `ShmBytes` that a walk finds in `data` into flight, before `data` is sent.
///
/// What is behind a reference, counted pointer or lock, or in a map or set, is not found.
///
/// Does nothing if there is no pool.
pub fn mark_shm_bytes_in_flight<V: Inspect>(data: &V, pool: Option<&mut VarSlotPool>) -> (refused:
    Vec<Refused>)
    requires
        pool matches Some(p) ==> p.wf(),
    ensures
        match pool {
            None => refused@ == Seq::<Refused>::empty(),
            Some(p) => {
                &&& final(p).wf()
                &&& final(p)@ == Leg::Send.steps(p@, handles(data.contents()))
                &&& refused@ == Leg::Send.refusals(p@, handles(data.contents()))
            },
        },
{
    match pool {
        None => Vec::new(),
        Some(p) => {
            let mut found: Vec<VarSlotHandle> = Vec::new();
            find_handles(data, &mut found);
            assert(found@ =~= handles(data.contents()));
            move_all(Leg::Send, &found, p)
        },
    }
}

/// `mark_shm_bytes_in_flight` for a value that `facet` looks at, in which handles are of the type
/// `handle_shape`.
pub fn mark_shm_bytes_in_flight_hook(
    peek: facet::Peek<'_, '_>,
    handle_shape: &'static facet::Shape,
    pool: Option<&mut VarSlotPool>,
) -> (refused: Vec<Refused>)
    requires
        pool matches Some(p) ==> p.wf(),
    ensures
        match pool {
            None => refused@ == Seq::<Refused>::empty(),
            Some(p) => {
                let found = handles(peek_contents(peek, handle_shape));
                &&& final(p).wf()
                &&& final(p)@ == Leg::Send.steps(p@, found)
                &&& refused@ == Leg::Send.refusals(p@, found)
            },
        },
{
    mark_shm_bytes_in_flight(&FacetView { peek, handle_shape }, pool)
}

/// Claims every `ShmBytes` that a walk finds in `data` for the local peer, after `data` was
/// received.
///
/// What is behind a reference, counted pointer or lock, or in a map or set, is not found.
///
/// The lengths came with the wire form and are left alone. Does nothing if there is no pool.
pub fn patch_shm_bytes<V: Inspect>(
    data: &V,
    pool: Option<&mut VarSlotPool>,
    local_peer_id: Option<u8>,
) -> (refused: Vec<Refused>)
    requires
        pool matches Some(p) ==> p.wf(),
    ensures
        match pool {
            None => refused@ == Seq::<Refused>::empty(),
            Some(p) => {
                let leg = Leg::Receive { owner: peer_or_host(local_peer_id) };
                &&& final(p).wf()
                &&& final(p)@ == leg.steps(p@, handles(data.contents()))
                &&& refused@ == leg.refusals(p@, handles(data.contents()))
            },
        },
{
    let owner: u8 = local_peer_id.unwrap_or(0);
    match pool {
        None => Vec::new(),
        Some(p) => {
            let mut found: Vec<VarSlotHandle> = Vec::new();
            find_handles(data, &mut found);
            assert(found@ =~= handles(data.contents()));
            move_all(Leg::Receive { owner }, &found, p)
        },
    }
}

/// `patch_shm_bytes` for a value that `facet` looks at, in which handles are of the type
/// `handle_shape`.
pub fn patch_shm_bytes_hook(
    poke: facet::Poke<'_, '_>,
    handle_shape: &'static facet::Shape,
    pool: Option<&mut VarSlotPool>,
    local_peer_id: Option<u8>,
) -> (refused: Vec<Refused>)
    requires
        pool matches Some(p) ==> p.wf(),
    ensures
        match pool {
            None => refused@ == Seq::<Refused>::empty(),
            Some(p) => {
                let leg = Leg::Receive { owner: peer_or_host(local_peer_id) };
                let found = handles(poke_contents(poke, handle_shape));
                &&& final(p).wf()
                &&& final(p)@ == leg.steps(p@, found)
                &&& refused@ == leg.refusals(p@, found)
            },
        },
{
    let peek = poke_into_peek(poke);
    patch_shm_bytes(&FacetView { peek, handle_shape }, pool, local_peer_id)
}

} // verus!
