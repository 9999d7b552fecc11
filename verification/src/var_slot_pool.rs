//! A pool of variable-size slots.
//!
//! The pool is a list of size classes, each a fixed array of equally sized slots. A slot is
//! `Free`, `Allocated` to a peer, or `InFlight` between two peers, and is named by a
//! [`VarSlotHandle`]. Every operation on a handle checks the handle against the slot first, so
//! a handle that was freed and whose slot was allocated again is refused.

use vstd::prelude::*;

use crate::layout::SizeClass;

verus! {

/// Where a slot is in its life.
#[derive(Debug, Clone, Copy, PartialEq, Eq, Structural)]
pub enum SlotState {
    /// In the pool, ready to be allocated.
    Free,
    /// Owned by a peer.
    Allocated,
    /// Sent by its owner and not claimed by the receiver yet.
    InFlight,
}

/// The name of a slot, as it crosses the wire.
#[derive(Debug, Clone, Copy, PartialEq, Eq, Structural)]
pub struct VarSlotHandle {
    /// Index of the size class.
    pub class_idx: u8,
    /// Index of the extent within the class. A class of this pool has the one extent 0.
    pub extent_idx: u8,
    /// Index of the slot within the extent.
    pub slot_idx: u32,
    /// Generation of the slot at allocation.
    pub generation: u32,
}

/// Why an operation on a handle was refused.
#[derive(Debug, Clone, Copy, PartialEq, Eq, Structural)]
pub enum VarFreeError {
    /// The pool has no such size class.
    InvalidClass,
    /// The class has no such extent.
    InvalidExtent,
    /// The extent has no such slot.
    InvalidSlot,
    /// The slot was allocated again since the handle was made.
    GenerationMismatch,
    /// The slot is not in the state that the operation starts from.
    InvalidState,
}

/// What a slot records beside its payload.
#[derive(Debug, Clone, Copy, PartialEq, Eq, Structural)]
pub struct SlotMeta {
    /// Current state.
    pub state: SlotState,
    /// Peer that allocated or claimed the slot last.
    pub owner: u8,
    /// Number of allocations so far, modulo 2^32.
    pub generation: u32,
}

impl SlotMeta {
    /// The state of the slot.
    pub fn state(&self) -> (state: SlotState)
        ensures
            state == self.state,
    {
        self.state
    }

    /// The peer that allocated or claimed the slot last.
    pub fn owner(&self) -> (owner: u8)
        ensures
            owner == self.owner,
    {
        self.owner
    }
}

/// A slot by its class and its index in the class.
pub type SlotId = (int, int);

/// One slot: its record and its payload bytes.
pub struct SlotView {
    pub state: SlotState,
    pub owner: u8,
    pub generation: u32,
    pub data: Seq<u8>,
}

/// A pool: the slot size of each class, and the slots.
pub struct PoolView {
    pub slot_sizes: Seq<u32>,
    pub slots: Map<SlotId, SlotView>,
}

/// The generation after `generation`.
pub open spec fn next_generation(generation: u32) -> u32 {
    if generation == u32::MAX {
        0
    } else {
        (generation + 1) as u32
    }
}

/// `a` comes before `b`, or is `b`: classes in their order, slots of a class by index.
pub open spec fn id_le(a: SlotId, b: SlotId) -> bool {
    a.0 < b.0 || (a.0 == b.0 && a.1 <= b.1)
}

impl SlotView {
    /// The slot's record.
    pub open spec fn meta(self) -> SlotMeta {
        SlotMeta { state: self.state, owner: self.owner, generation: self.generation }
    }
}

impl PoolView {
    /// Classes and slots can be named by handles, and a slot holds as many bytes as its class
    /// says.
    pub open spec fn wf(self) -> bool {
        &&& self.slot_sizes.len() <= 0x100
        &&& forall|id: SlotId| #[trigger]
            self.slots.contains_key(id) ==> {
                &&& 0 <= id.0 < self.slot_sizes.len()
                &&& 0 <= id.1 <= u32::MAX
                &&& self.slots[id].data.len() == self.slot_sizes[id.0]
            }
    }

    /// The pool of `classes` before anything was allocated: zeroed, all free.
    pub open spec fn fresh(classes: Seq<SizeClass>) -> PoolView {
        PoolView {
            slot_sizes: Seq::new(classes.len(), |c: int| classes[c].slot_size),
            slots: Map::new(
                |id: SlotId|
                    0 <= id.0 < classes.len() && 0 <= id.1 < classes[id.0].slot_count,
                |id: SlotId|
                    SlotView {
                        state: SlotState::Free,
                        owner: 0,
                        generation: 0,
                        data: Seq::new(classes[id.0].slot_size as nat, |i: int| 0u8),
                    },
            ),
        }
    }

    /// The pool with slot `id` replaced.
    pub open spec fn with_slot(self, id: SlotId, slot: SlotView) -> PoolView {
        PoolView { slots: self.slots.insert(id, slot), ..self }
    }

    /// The slot that `handle` names, or why it names none.
    pub open spec fn locate(self, handle: VarSlotHandle) -> Result<SlotId, VarFreeError> {
        let id = (handle.class_idx as int, handle.slot_idx as int);
        if handle.class_idx >= self.slot_sizes.len() {
            Err(VarFreeError::InvalidClass)
        } else if handle.extent_idx != 0 {
            Err(VarFreeError::InvalidExtent)
        } else if !self.slots.contains_key(id) {
            Err(VarFreeError::InvalidSlot)
        } else if self.slots[id].generation != handle.generation {
            Err(VarFreeError::GenerationMismatch)
        } else {
            Ok(id)
        }
    }

    /// `handle` names a slot that is in state `state`.
    pub open spec fn is_in(self, handle: VarSlotHandle, state: SlotState) -> bool {
        self.locate(handle) matches Ok(id) && self.slots[id].state == state
    }

    /// The slot of `handle` taken from state `from` to state `to`, with a new owner if there
    /// is one, or why it cannot be.
    pub open spec fn moved(
        self,
        handle: VarSlotHandle,
        from: SlotState,
        to: SlotState,
        owner: Option<u8>,
    ) -> Result<PoolView, VarFreeError> {
        match self.locate(handle) {
            Err(e) => Err(e),
            Ok(id) => if self.slots[id].state != from {
                Err(VarFreeError::InvalidState)
            } else {
                Ok(
                    self.with_slot(
                        id,
                        SlotView {
                            state: to,
                            owner: match owner {
                                Some(peer) => peer,
                                None => self.slots[id].owner,
                            },
                            ..self.slots[id]
                        },
                    ),
                )
            },
        }
    }

    /// Sending: `Allocated` to `InFlight`.
    pub open spec fn marked_in_flight(self, handle: VarSlotHandle) -> Result<
        PoolView,
        VarFreeError,
    > {
        self.moved(handle, SlotState::Allocated, SlotState::InFlight, None)
    }

    /// Receiving: `InFlight` to `Allocated`, owned by `owner`.
    pub open spec fn claimed(self, handle: VarSlotHandle, owner: u8) -> Result<
        PoolView,
        VarFreeError,
    > {
        self.moved(handle, SlotState::InFlight, SlotState::Allocated, Some(owner))
    }

    /// Release by the owner: `Allocated` to `Free`.
    pub open spec fn freed_allocated(self, handle: VarSlotHandle) -> Result<
        PoolView,
        VarFreeError,
    > {
        self.moved(handle, SlotState::Allocated, SlotState::Free, None)
    }

    /// Release in transit: `InFlight` to `Free`.
    pub open spec fn freed_in_flight(self, handle: VarSlotHandle) -> Result<
        PoolView,
        VarFreeError,
    > {
        self.moved(handle, SlotState::InFlight, SlotState::Free, None)
    }

    /// Slot `id` is free and holds at least `size` bytes.
    pub open spec fn available(self, id: SlotId, size: nat) -> bool {
        &&& self.slots.contains_key(id)
        &&& self.slots[id].state == SlotState::Free
        &&& self.slot_sizes[id.0] >= size
    }

    /// Some slot is free and holds at least `size` bytes.
    pub open spec fn has_room(self, size: nat) -> bool {
        exists|id: SlotId| self.available(id, size)
    }

    /// `id` is the first slot that is free and holds at least `size` bytes.
    pub open spec fn first_available(self, id: SlotId, size: nat) -> bool {
        &&& self.available(id, size)
        &&& forall|other: SlotId| #[trigger] self.available(other, size) ==> id_le(id, other)
    }

    /// The handle that an allocation of slot `id` gives out.
    pub open spec fn fresh_handle(self, id: SlotId) -> VarSlotHandle {
        VarSlotHandle {
            class_idx: id.0 as u8,
            extent_idx: 0,
            slot_idx: id.1 as u32,
            generation: next_generation(self.slots[id].generation),
        }
    }

    /// The pool with slot `id` allocated to `owner`.
    pub open spec fn allocated(self, id: SlotId, owner: u8) -> PoolView {
        self.with_slot(
            id,
            SlotView {
                state: SlotState::Allocated,
                owner,
                generation: next_generation(self.slots[id].generation),
                data: self.slots[id].data,
            },
        )
    }

    /// `handle` and `next` are what allocating `size` bytes for `owner` gives.
    pub open spec fn allocates(
        self,
        size: nat,
        owner: u8,
        handle: VarSlotHandle,
        next: PoolView,
    ) -> bool {
        exists|id: SlotId|
            #![trigger self.first_available(id, size)]
            {
                &&& self.first_available(id, size)
                &&& handle == self.fresh_handle(id)
                &&& next == self.allocated(id, owner)
            }
    }

    /// `size` exceeds the slot size of every class.
    pub open spec fn oversize(self, size: nat) -> bool {
        &&& self.slot_sizes.len() > 0
        &&& forall|c: int| 0 <= c < self.slot_sizes.len() ==> (#[trigger] self.slot_sizes[c]) < size
    }

    /// The first `len` payload bytes of the slot that `handle` names, if it is not free and
    /// holds as many.
    pub open spec fn payload(self, handle: VarSlotHandle, len: nat) -> Option<Seq<u8>> {
        match self.locate(handle) {
            Ok(id) => if self.slots[id].state != SlotState::Free && len
                <= self.slots[id].data.len() {
                Some(self.slots[id].data.take(len as int))
            } else {
                None
            },
            Err(_) => None,
        }
    }

    /// The pool with the leading payload bytes of the slot of `handle` replaced by `bytes`.
    pub open spec fn with_payload(self, handle: VarSlotHandle, bytes: Seq<u8>) -> PoolView {
        let id = (handle.class_idx as int, handle.slot_idx as int);
        self.with_slot(
            id,
            SlotView {
                data: bytes + self.slots[id].data.skip(bytes.len() as int),
                ..self.slots[id]
            },
        )
    }

    /// The pool with every slot of peer `peer` free.
    pub open spec fn recovered(self, peer: u8) -> PoolView {
        PoolView {
            slots: self.slots.map_values(
                |slot: SlotView|
                    if slot.owner == peer {
                        SlotView { state: SlotState::Free, ..slot }
                    } else {
                        slot
                    },
            ),
            ..self
        }
    }
}

/// Slot in memory.
struct Slot {
    state: SlotState,
    owner: u8,
    generation: u32,
    data: Vec<u8>,
}

impl Slot {
    closed spec fn view(&self) -> SlotView {
        SlotView {
            state: self.state,
            owner: self.owner,
            generation: self.generation,
            data: self.data@,
        }
    }
}

/// Slots of one size class.
struct ClassSlots {
    slot_size: u32,
    slots: Vec<Slot>,
}

impl ClassSlots {
    /// The index of the first free slot.
    fn first_free(&self) -> (found: Option<usize>)
        ensures
            match found {
                Some(slot) => {
                    &&& slot < self.slots@.len()
                    &&& self.slots@[slot as int].state == SlotState::Free
                    &&& forall|s: int|
                        0 <= s < slot ==> (#[trigger] self.slots@[s]).state != SlotState::Free
                },
                None => forall|s: int|
                    0 <= s < self.slots@.len() ==> (#[trigger] self.slots@[s]).state
                        != SlotState::Free,
            },
    {
        let mut slot: usize = 0;
        while slot < self.slots.len()
            invariant
                slot <= self.slots@.len(),
                forall|s: int|
                    0 <= s < slot ==> (#[trigger] self.slots@[s]).state != SlotState::Free,
            decreases self.slots@.len() - slot,
        {
            if self.slots[slot].state == SlotState::Free {
                return Some(slot);
            }
            slot += 1;
        }
        None
    }
}

/// The first `len` bytes of `data`, by `slice::get_mut` of the range `..len`.
///
/// What is believed of it: it gives `None` and changes nothing if `data` is shorter; else it
/// gives the leading bytes, and what is written through them ends up at the front of `data`,
/// with the bytes after them untouched. A slice reference cannot change its length.
#[verifier::external_body]
fn leading_mut(data: &mut [u8], len: usize) -> (leading: Option<&mut [u8]>)
    ensures
        match leading {
            Some(bytes) => {
                &&& len <= old(data)@.len()
                &&& bytes@ == old(data)@.take(len as int)
                &&& final(bytes)@.len() == len
                &&& final(data)@ == final(bytes)@ + old(data)@.skip(len as int)
            },
            None => len > old(data)@.len() && final(data)@ == old(data)@,
        },
{
    data.get_mut(..len)
}

/// A pool of slots in several size classes.
pub struct VarSlotPool {
    classes: Vec<ClassSlots>,
}

impl View for VarSlotPool {
    type V = PoolView;

    closed spec fn view(&self) -> PoolView {
        PoolView {
            slot_sizes: Seq::new(self.classes@.len(), |c: int| self.classes@[c].slot_size),
            slots: Map::new(
                |id: SlotId|
                    0 <= id.0 < self.classes@.len() && 0 <= id.1
                        < self.classes@[id.0].slots@.len(),
                |id: SlotId| self.classes@[id.0].slots@[id.1].view(),
            ),
        }
    }
}

impl VarSlotPool {
    /// Validity of a pool, kept by every operation.
    pub open spec fn wf(&self) -> bool {
        self@.wf()
    }

    /// A pool with the given size classes, all slots free and zeroed.
    ///
    /// A handle has one byte for the class, so there can be 256 classes.
    pub fn new(classes: Vec<SizeClass>) -> (pool: Self)
        requires
            classes@.len() <= 0x100,
        ensures
            pool.wf(),
            pool@ == PoolView::fresh(classes@),
    {
        let mut made: Vec<ClassSlots> = Vec::new();
        let mut c: usize = 0;
        while c < classes.len()
            invariant
                c <= classes@.len(),
                made@.len() == c,
                forall|k: int|
                    0 <= k < c ==> {
                        &&& (#[trigger] made@[k]).slot_size == classes@[k].slot_size
                        &&& made@[k].slots@.len() == classes@[k].slot_count
                        &&& forall|s: int|
                            0 <= s < made@[k].slots@.len() ==> (
                            #[trigger] made@[k].slots@[s]).view() == (SlotView {
                                state: SlotState::Free,
                                owner: 0,
                                generation: 0,
                                data: Seq::new(classes@[k].slot_size as nat, |i: int| 0u8),
                            })
                    },
            decreases classes@.len() - c,
        {
            let class: SizeClass = classes[c];
            let mut slots: Vec<Slot> = Vec::new();
            let mut s: u32 = 0;
            while s < class.slot_count
                invariant
                    s <= class.slot_count,
                    slots@.len() == s,
                    forall|j: int|
                        0 <= j < s ==> (#[trigger] slots@[j]).view() == (SlotView {
                            state: SlotState::Free,
                            owner: 0,
                            generation: 0,
                            data: Seq::new(class.slot_size as nat, |i: int| 0u8),
                        }),
                decreases class.slot_count - s,
            {
                let data: Vec<u8> = vec![0u8; class.slot_size as usize];
                assert(data@ =~= Seq::new(class.slot_size as nat, |i: int| 0u8));
                slots.push(Slot { state: SlotState::Free, owner: 0, generation: 0, data });
                s += 1;
            }
            made.push(ClassSlots { slot_size: class.slot_size, slots });
            c += 1;
        }
        let pool = VarSlotPool { classes: made };
        assert(pool@.slot_sizes =~= PoolView::fresh(classes@).slot_sizes);
        assert(pool@.slots =~= PoolView::fresh(classes@).slots);
        pool
    }

    /// The slot that `handle` names.
    fn locate(&self, handle: VarSlotHandle) -> (at: Result<(usize, usize), VarFreeError>)
        ensures
            match at {
                Ok(at) => self@.locate(handle) == Ok::<SlotId, VarFreeError>(
                    (at.0 as int, at.1 as int),
                ),
                Err(e) => self@.locate(handle) == Err::<SlotId, VarFreeError>(e),
            },
    {
        let class: usize = handle.class_idx as usize;
        let slot: usize = handle.slot_idx as usize;
        if class >= self.classes.len() {
            return Err(VarFreeError::InvalidClass);
        }
        if handle.extent_idx != 0 {
            return Err(VarFreeError::InvalidExtent);
        }
        if slot >= self.classes[class].slots.len() {
            return Err(VarFreeError::InvalidSlot);
        }
        if self.classes[class].slots[slot].generation != handle.generation {
            return Err(VarFreeError::GenerationMismatch);
        }
        Ok((class, slot))
    }

    /// Takes the slot of `handle` from one state to another.
    fn transition(
        &mut self,
        handle: VarSlotHandle,
        from: SlotState,
        to: SlotState,
        owner: Option<u8>,
    ) -> (done: Result<(), VarFreeError>)
        requires
            old(self).wf(),
        ensures
            final(self).wf(),
            match old(self)@.moved(handle, from, to, owner) {
                Ok(next) => done == Ok::<(), VarFreeError>(()) && final(self)@ == next,
                Err(e) => done == Err::<(), VarFreeError>(e) && final(self)@ == old(self)@,
            },
    {
        let (class, slot) = self.locate(handle)?;
        if self.classes[class].slots[slot].state != from {
            return Err(VarFreeError::InvalidState);
        }
        self.classes[class].slots[slot].state = to;
        if let Some(owner) = owner {
            self.classes[class].slots[slot].owner = owner;
        }
        proof {
            let next = old(self)@.moved(handle, from, to, owner)->Ok_0;
            assert(self@.slots =~= next.slots);
            assert(self@.slot_sizes =~= next.slot_sizes);
        }
        Ok(())
    }

    /// Whether `size` exceeds the slot size of every class.
    pub fn is_oversize(&self, size: usize) -> (over: bool)
        ensures
            over == self@.oversize(size as nat),
    {
        let mut c: usize = 0;
        while c < self.classes.len()
            invariant
                c <= self.classes@.len(),
                forall|k: int| 0 <= k < c ==> (#[trigger] self@.slot_sizes[k]) < size,
            decreases self.classes@.len() - c,
        {
            if self.classes[c].slot_size as usize >= size {
                assert(self@.slot_sizes[c as int] >= size);
                return false;
            }
            c += 1;
        }
        c > 0
    }

    /// Allocates the first free slot that holds `size` bytes, for peer `owner`.
    ///
    /// Gives `None`, and changes nothing, if no such slot is free.
    pub fn allocate(&mut self, size: u32, owner: u8) -> (handle: Option<VarSlotHandle>)
        requires
            old(self).wf(),
        ensures
            final(self).wf(),
            match handle {
                Some(h) => old(self)@.allocates(size as nat, owner, h, final(self)@),
                None => !old(self)@.has_room(size as nat) && final(self)@ == old(self)@,
            },
    {
        let mut c: usize = 0;
        while c < self.classes.len()
            invariant
                c <= self.classes@.len(),
                self.wf(),
                *self == *old(self),
                forall|id: SlotId| #[trigger] self@.available(id, size as nat) ==> id.0 >= c,
            decreases self.classes@.len() - c,
        {
            if self.classes[c].slot_size >= size {
                if let Some(s) = self.classes[c].first_free() {
                    let ghost id: SlotId = (c as int, s as int);
                    assert(self@.slots.contains_key(id));
                    assert(self@.first_available(id, size as nat));
                    let generation: u32 = self.classes[c].slots[s].generation.wrapping_add(1);
                    self.classes[c].slots[s].state = SlotState::Allocated;
                    self.classes[c].slots[s].owner = owner;
                    self.classes[c].slots[s].generation = generation;
                    assert(self@.slots =~= old(self)@.allocated(id, owner).slots);
                    assert(self@.slot_sizes =~= old(self)@.slot_sizes);
                    return Some(
                        VarSlotHandle {
                            class_idx: c as u8,
                            extent_idx: 0,
                            slot_idx: s as u32,
                            generation,
                        },
                    );
                }
            }
            c += 1;
        }
        None
    }

    /// Takes an allocated slot into flight.
    pub fn mark_in_flight(&mut self, handle: VarSlotHandle) -> (done: Result<(), VarFreeError>)
        requires
            old(self).wf(),
        ensures
            final(self).wf(),
            match old(self)@.marked_in_flight(handle) {
                Ok(next) => done == Ok::<(), VarFreeError>(()) && final(self)@ == next,
                Err(e) => done == Err::<(), VarFreeError>(e) && final(self)@ == old(self)@,
            },
    {
        self.transition(handle, SlotState::Allocated, SlotState::InFlight, None)
    }

    /// Takes a slot out of flight, for its new owner.
    pub fn claim_in_flight(&mut self, handle: VarSlotHandle, owner: u8) -> (done: Result<
        (),
        VarFreeError,
    >)
        requires
            old(self).wf(),
        ensures
            final(self).wf(),
            match old(self)@.claimed(handle, owner) {
                Ok(next) => done == Ok::<(), VarFreeError>(()) && final(self)@ == next,
                Err(e) => done == Err::<(), VarFreeError>(e) && final(self)@ == old(self)@,
            },
    {
        self.transition(handle, SlotState::InFlight, SlotState::Allocated, Some(owner))
    }

    /// Frees a slot that is in flight.
    pub fn free(&mut self, handle: VarSlotHandle) -> (done: Result<(), VarFreeError>)
        requires
            old(self).wf(),
        ensures
            final(self).wf(),
            match old(self)@.freed_in_flight(handle) {
                Ok(next) => done == Ok::<(), VarFreeError>(()) && final(self)@ == next,
                Err(e) => done == Err::<(), VarFreeError>(e) && final(self)@ == old(self)@,
            },
    {
        self.transition(handle, SlotState::InFlight, SlotState::Free, None)
    }

    /// Frees a slot that is allocated.
    pub fn free_allocated(&mut self, handle: VarSlotHandle) -> (done: Result<(), VarFreeError>)
        requires
            old(self).wf(),
        ensures
            final(self).wf(),
            match old(self)@.freed_allocated(handle) {
                Ok(next) => done == Ok::<(), VarFreeError>(()) && final(self)@ == next,
                Err(e) => done == Err::<(), VarFreeError>(e) && final(self)@ == old(self)@,
            },
    {
        self.transition(handle, SlotState::Allocated, SlotState::Free, None)
    }

    /// Frees every slot that peer `peer` owns, as after its death.
    pub fn recover_peer(&mut self, peer: u8)
        requires
            old(self).wf(),
        ensures
            final(self).wf(),
            final(self)@ == old(self)@.recovered(peer),
    {
        let ghost before = self@;
        let mut c: usize = 0;
        while c < self.classes.len()
            invariant
                c <= self.classes@.len(),
                before.wf(),
                self@.slot_sizes == before.slot_sizes,
                self@.slots.dom() == before.slots.dom(),
                forall|id: SlotId| #[trigger]
                    self@.slots.contains_key(id) ==> self@.slots[id] == if id.0 < c {
                        before.recovered(peer).slots[id]
                    } else {
                        before.slots[id]
                    },
            decreases self.classes@.len() - c,
        {
            let mut s: usize = 0;
            while s < self.classes[c].slots.len()
                invariant
                    c < self.classes@.len(),
                    s <= self.classes@[c as int].slots@.len(),
                    before.wf(),
                    self@.slot_sizes == before.slot_sizes,
                    self@.slots.dom() == before.slots.dom(),
                    forall|id: SlotId| #[trigger]
                        self@.slots.contains_key(id) ==> self@.slots[id] == if id.0 < c || (id.0
                            == c && id.1 < s) {
                            before.recovered(peer).slots[id]
                        } else {
                            before.slots[id]
                        },
                decreases self.classes@[c as int].slots@.len() - s,
            {
                let ghost here = self@;
                let ghost at: SlotId = (c as int, s as int);
                assert(here.slots.contains_key(at));
                if self.classes[c].slots[s].owner == peer {
                    self.classes[c].slots[s].state = SlotState::Free;
                    assert(self@.slots =~= here.slots.insert(
                        at,
                        SlotView { state: SlotState::Free, ..here.slots[at] },
                    ));
                    assert(self@.slot_sizes =~= here.slot_sizes);
                }
                s += 1;
            }
            c += 1;
        }
        assert(self@.slots =~= before.recovered(peer).slots);
    }

    /// The record of a slot, if there is one at these indices.
    pub fn slot_meta_ext(&self, class: usize, extent: usize, slot: u32) -> (meta: Option<
        SlotMeta,
    >)
        ensures
            meta == if extent == 0 && self@.slots.contains_key((class as int, slot as int)) {
                Some(self@.slots[(class as int, slot as int)].meta())
            } else {
                None
            },
    {
        if class >= self.classes.len() || extent != 0 {
            return None;
        }
        if slot as usize >= self.classes[class].slots.len() {
            return None;
        }
        let found: &Slot = &self.classes[class].slots[slot as usize];
        Some(
            SlotMeta {
                state: found.state,
                owner: found.owner,
                generation: found.generation,
            },
        )
    }

    /// The first `len` payload bytes of a slot that is not free.
    pub fn payload(&self, handle: VarSlotHandle, len: usize) -> (bytes: Option<&[u8]>)
        requires
            self.wf(),
        ensures
            match bytes {
                Some(bytes) => self@.payload(handle, len as nat) == Some(bytes@),
                None => self@.payload(handle, len as nat) is None,
            },
    {
        match self.locate(handle) {
            Err(_) => None,
            Ok((class, slot)) => {
                let found: &Slot = &self.classes[class].slots[slot];
                if found.state == SlotState::Free || len > found.data.len() {
                    None
                } else {
                    Some(vstd::slice::slice_subrange(found.data.as_slice(), 0, len))
                }
            },
        }
    }

    /// The first `len` payload bytes of a slot that is not free, for writing.
    pub fn payload_mut(&mut self, handle: VarSlotHandle, len: usize) -> (bytes: Option<&mut [u8]>)
        requires
            old(self).wf(),
        ensures
            final(self).wf(),
            match bytes {
                Some(bytes) => {
                    &&& old(self)@.payload(handle, len as nat) == Some(bytes@)
                    &&& final(bytes)@.len() == len
                    &&& final(self)@ == old(self)@.with_payload(handle, final(bytes)@)
                },
                None => old(self)@.payload(handle, len as nat) is None && final(self)@ == old(
                    self,
                )@,
            },
    {
        match self.locate(handle) {
            Err(_) => None,
            Ok((class, slot)) => {
                if self.classes[class].slots[slot].state == SlotState::Free {
                    return None;
                }
                let ghost before = self@;
                let ghost after = final(self)@;
                let bytes = leading_mut(self.classes[class].slots[slot].data.as_mut_slice(), len);
                assert(after.slot_sizes =~= before.slot_sizes);
                assert(bytes matches Some(b) ==> after.slots =~= before.with_payload(
                    handle,
                    final(b)@,
                ).slots);
                assert(bytes is None ==> after.slots =~= before.slots);
                bytes
            },
        }
    }
}

} // verus!
