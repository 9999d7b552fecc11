//! The buffer type.
//!
//! A `ShmBytes` is a handle to a pool slot and a length. The bytes stay in the slot; passing the
//! buffer to another peer passes the handle and the length.
//!
//! - A `ShmBytes` is move-only.
//! - The sender takes the slot into flight; the receiver claims it and becomes the owner.
//! - Dropping a buffer gives the slot back to the pool, if there is a pool at hand.
//!
//! The pool of the transport that a task runs under, and the peer id of that task, are
//! parameters: `None` stands for a task that runs under no shared memory transport, or that has
//! no peer id.

use vstd::prelude::*;

use crate::var_slot_pool::{PoolView, VarFreeError, VarSlotHandle, VarSlotPool};

verus! {

/// Wire form of a `ShmBytes`: the handle and the data length.
#[derive(Debug, Clone, Copy, PartialEq, Eq, Structural)]
pub struct ShmBytesWire {
    /// The slot that holds the data.
    pub handle: VarSlotHandle,
    /// Length of the data, which may be less than the slot holds.
    pub len: u32,
}

/// Errors of `ShmBytes` operations.
#[derive(Debug, Clone, PartialEq, Eq, Structural)]
pub enum ShmError {
    /// There is no pool: the task runs under no shared memory transport.
    NoContext,
    /// No slot is available in the pool.
    SlotExhausted,
    /// The requested size exceeds the maximum slot size.
    SizeTooLarge,
    /// The pool refused the handle.
    FreeError(VarFreeError),
}

/// What `ShmError::message` gives.
pub open spec fn error_message(error: ShmError) -> Seq<char> {
    match error {
        ShmError::NoContext => "not in SHM transport context"@,
        ShmError::SlotExhausted => "no SHM slots available"@,
        ShmError::SizeTooLarge => "requested size exceeds maximum slot size"@,
        ShmError::FreeError(e) => match e {
            VarFreeError::InvalidClass => "failed to free SHM slot: InvalidClass"@,
            VarFreeError::InvalidExtent => "failed to free SHM slot: InvalidExtent"@,
            VarFreeError::InvalidSlot => "failed to free SHM slot: InvalidSlot"@,
            VarFreeError::GenerationMismatch => "failed to free SHM slot: GenerationMismatch"@,
            VarFreeError::InvalidState => "failed to free SHM slot: InvalidState"@,
        },
    }
}

impl ShmError {
    /// The error in words.
    pub fn message(&self) -> (text: String)
        ensures
            text@ == error_message(*self),
    {
        match self {
            ShmError::NoContext => "not in SHM transport context".to_owned(),
            ShmError::SlotExhausted => "no SHM slots available".to_owned(),
            ShmError::SizeTooLarge => "requested size exceeds maximum slot size".to_owned(),
            ShmError::FreeError(e) => match e {
                VarFreeError::InvalidClass => "failed to free SHM slot: InvalidClass".to_owned(),
                VarFreeError::InvalidExtent => "failed to free SHM slot: InvalidExtent".to_owned(),
                VarFreeError::InvalidSlot => "failed to free SHM slot: InvalidSlot".to_owned(),
                VarFreeError::GenerationMismatch => {
                    "failed to free SHM slot: GenerationMismatch".to_owned()
                },
                VarFreeError::InvalidState => "failed to free SHM slot: InvalidState".to_owned(),
            },
        }
    }
}

impl From<VarFreeError> for ShmError {
    fn from(e: VarFreeError) -> (error: Self)
        ensures
            error == ShmError::FreeError(e),
    {
        ShmError::FreeError(e)
    }
}

impl vstd::std_specs::convert::FromSpecImpl<VarFreeError> for ShmError {
    open spec fn obeys_from_spec() -> bool {
        true
    }

    open spec fn from_spec(e: VarFreeError) -> Self {
        ShmError::FreeError(e)
    }
}

/// A buffer: the slot that holds it, and its length.
pub struct BufferView {
    pub handle: VarSlotHandle,
    pub len: usize,
}

/// A buffer in shared memory.
#[derive(Debug)]
pub struct ShmBytes {
    handle: VarSlotHandle,
    len: usize,
}

impl View for ShmBytes {
    type V = BufferView;

    closed spec fn view(&self) -> BufferView {
        BufferView { handle: self.handle, len: self.len }
    }
}

/// The peer that a task without a peer id counts as: the host.
pub open spec fn peer_or_host(local_peer_id: Option<u8>) -> u8 {
    match local_peer_id {
        Some(peer) => peer,
        None => 0,
    }
}

/// Why a buffer of `size` bytes cannot be allocated from `pool`.
pub open spec fn refusal(pool: PoolView, size: nat) -> Option<ShmError> {
    if pool.oversize(size) {
        Some(ShmError::SizeTooLarge)
    } else if !pool.has_room(size) {
        Some(ShmError::SlotExhausted)
    } else {
        None
    }
}

/// `next` if the pool granted it, else the pool as it was.
pub open spec fn granted_or(next: Result<PoolView, VarFreeError>, pool: PoolView) -> PoolView {
    match next {
        Ok(next) => next,
        Err(_) => pool,
    }
}

/// What a buffer operation returns for what the pool answered.
pub open spec fn outcome(next: Result<PoolView, VarFreeError>) -> Result<(), ShmError> {
    match next {
        Ok(_) => Ok(()),
        Err(e) => Err(ShmError::FreeError(e)),
    }
}

impl ShmBytes {
    /// A buffer from its handle and length, as when one was received.
    pub fn from_handle(handle: VarSlotHandle, len: usize) -> (bytes: Self)
        ensures
            bytes@ == (BufferView { handle, len }),
    {
        ShmBytes { handle, len }
    }

    /// Allocates a buffer of `size` bytes, owned by the local peer.
    pub fn allocate(
        size: usize,
        pool: Option<&mut VarSlotPool>,
        local_peer_id: Option<u8>,
    ) -> (made: Result<Self, ShmError>)
        requires
            pool matches Some(p) ==> p.wf(),
        ensures
            match pool {
                None => made == Err::<ShmBytes, ShmError>(ShmError::NoContext),
                Some(p) => {
                    &&& final(p).wf()
                    &&& match refusal(p@, size as nat) {
                        Some(e) => made == Err::<ShmBytes, ShmError>(e) && final(p)@ == p@,
                        None => {
                            &&& made matches Ok(bytes)
                            &&& bytes@.len == size
                            &&& p@.allocates(
                                size as nat,
                                peer_or_host(local_peer_id),
                                bytes@.handle,
                                final(p)@,
                            )
                        },
                    }
                },
            },
    {
        let owner: u8 = local_peer_id.unwrap_or(0);
        match pool {
            None => Err(ShmError::NoContext),
            Some(p) => {
                if p.is_oversize(size) {
                    return Err(ShmError::SizeTooLarge);
                }
                let ghost before = p@;
                assert(size <= u32::MAX || before.slot_sizes.len() == 0);
                match p.allocate(size as u32, owner) {
                    None => Err(ShmError::SlotExhausted),
                    Some(handle) => Ok(ShmBytes { handle, len: size }),
                }
            },
        }
    }

    /// The handle of the buffer.
    pub fn handle(&self) -> (handle: VarSlotHandle)
        ensures
            handle == self@.handle,
    {
        self.handle
    }

    /// The length of the buffer in bytes.
    pub fn len(&self) -> (len: usize)
        ensures
            len == self@.len,
    {
        self.len
    }

    /// Whether the buffer has no bytes.
    pub fn is_empty(&self) -> (empty: bool)
        ensures
            empty == (self@.len == 0),
    {
        self.len == 0
    }

    /// The bytes of the buffer.
    ///
    /// `None` if there is no pool, if the pool does not know the handle or the slot is free, or
    /// if the slot is shorter than the buffer claims to be.
    pub fn as_slice<'a>(&'a self, pool: Option<&'a VarSlotPool>) -> (bytes: Option<&'a [u8]>)
        requires
            pool matches Some(p) ==> p.wf(),
        ensures
            match pool {
                None => bytes is None,
                Some(p) => match bytes {
                    Some(bytes) => p@.payload(self@.handle, self@.len as nat) == Some(bytes@),
                    None => p@.payload(self@.handle, self@.len as nat) is None,
                },
            },
    {
        match pool {
            None => None,
            Some(p) => p.payload(self.handle, self.len),
        }
    }

    /// The bytes of the buffer, for writing. `None` as for `as_slice`.
    pub fn as_mut_slice<'a>(&'a mut self, pool: Option<&'a mut VarSlotPool>) -> (bytes: Option<
        &'a mut [u8],
    >)
        requires
            pool matches Some(p) ==> p.wf(),
        ensures
            final(self)@ == old(self)@,
            match pool {
                None => bytes is None,
                Some(p) => {
                    &&& final(p).wf()
                    &&& match bytes {
                        Some(bytes) => {
                            &&& p@.payload(old(self)@.handle, old(self)@.len as nat) == Some(bytes@)
                            &&& final(bytes)@.len() == old(self)@.len
                            &&& final(p)@ == p@.with_payload(old(self)@.handle, final(bytes)@)
                        },
                        None => {
                            &&& p@.payload(old(self)@.handle, old(self)@.len as nat) is None
                            &&& final(p)@ == p@
                        },
                    }
                },
            },
    {
        match pool {
            None => None,
            Some(p) => p.payload_mut(self.handle, self.len),
        }
    }

    /// The bytes of the buffer, or no bytes where `as_slice` gives `None`.
    pub fn deref<'a>(&'a self, pool: Option<&'a VarSlotPool>) -> (bytes: &'a [u8])
        requires
            pool matches Some(p) ==> p.wf(),
        ensures
            bytes@ == match pool {
                None => Seq::<u8>::empty(),
                Some(p) => match p@.payload(self@.handle, self@.len as nat) {
                    Some(bytes) => bytes,
                    None => Seq::<u8>::empty(),
                },
            },
    {
        self.as_slice(pool).unwrap_or(&[])
    }

    /// Gives the slot back to the pool, and says if that failed.
    ///
    /// Fails if there is no pool, or if the pool does not hold the slot as allocated under this
    /// handle.
    pub fn free(self, pool: Option<&mut VarSlotPool>) -> (done: Result<(), ShmError>)
        requires
            pool matches Some(p) ==> p.wf(),
        ensures
            match pool {
                None => done == Err::<(), ShmError>(ShmError::NoContext),
                Some(p) => {
                    &&& final(p).wf()
                    &&& done == outcome(p@.freed_allocated(self@.handle))
                    &&& final(p)@ == granted_or(p@.freed_allocated(self@.handle), p@)
                },
            },
    {
        match pool {
            None => Err(ShmError::NoContext),
            Some(p) => match p.free_allocated(self.handle) {
                Ok(()) => Ok(()),
                Err(e) => Err(ShmError::FreeError(e)),
            },
        }
    }

    /// Gives the slot back to the pool if that can be done, and does nothing otherwise.
    ///
    /// This is what happens to a buffer that goes out of scope. A slot that was taken into
    /// flight stays so, and without a pool the slot is left to `VarSlotPool::recover_peer`.
    pub fn drop_into(self, pool: Option<&mut VarSlotPool>)
        requires
            pool matches Some(p) ==> p.wf(),
        ensures
            pool matches Some(p) ==> {
                &&& final(p).wf()
                &&& final(p)@ == granted_or(p@.freed_allocated(self@.handle), p@)
            },
    {
        if let Some(p) = pool {
            let _ = p.free_allocated(self.handle);
        }
    }

    /// Takes the slot into flight, before the buffer is sent.
    ///
    /// The receiver is then the one to free the slot.
    pub fn mark_in_flight(&self, pool: Option<&mut VarSlotPool>) -> (done: Result<(), ShmError>)
        requires
            pool matches Some(p) ==> p.wf(),
        ensures
            match pool {
                None => done == Err::<(), ShmError>(ShmError::NoContext),
                Some(p) => {
                    &&& final(p).wf()
                    &&& done == outcome(p@.marked_in_flight(self@.handle))
                    &&& final(p)@ == granted_or(p@.marked_in_flight(self@.handle), p@)
                },
            },
    {
        match pool {
            None => Err(ShmError::NoContext),
            Some(p) => match p.mark_in_flight(self.handle) {
                Ok(()) => Ok(()),
                Err(e) => Err(ShmError::FreeError(e)),
            },
        }
    }

    /// Claims the slot for the local peer, after the buffer was received.
    pub fn claim_in_flight(
        &self,
        pool: Option<&mut VarSlotPool>,
        local_peer_id: Option<u8>,
    ) -> (done: Result<(), ShmError>)
        requires
            pool matches Some(p) ==> p.wf(),
        ensures
            match pool {
                None => done == Err::<(), ShmError>(ShmError::NoContext),
                Some(p) => {
                    &&& final(p).wf()
                    &&& done == outcome(
                        p@.claimed(self@.handle, peer_or_host(local_peer_id)),
                    )
                    &&& final(p)@ == granted_or(
                        p@.claimed(self@.handle, peer_or_host(local_peer_id)),
                        p@,
                    )
                },
            },
    {
        let owner: u8 = local_peer_id.unwrap_or(0);
        match pool {
            None => Err(ShmError::NoContext),
            Some(p) => match p.claim_in_flight(self.handle, owner) {
                Ok(()) => Ok(()),
                Err(e) => Err(ShmError::FreeError(e)),
            },
        }
    }
}

/// The wire form of a buffer. It reads no pool and changes none.
impl TryFrom<&ShmBytes> for ShmBytesWire {
    type Error = std::convert::Infallible;

    fn try_from(bytes: &ShmBytes) -> (wire: Result<Self, Self::Error>)
        ensures
            wire matches Ok(wire) && wire.handle == bytes@.handle && wire.len == bytes@.len as u32,
    {
        Ok(ShmBytesWire { handle: bytes.handle, len: bytes.len as u32 })
    }
}

impl vstd::std_specs::convert::TryFromSpecImpl<&ShmBytes> for ShmBytesWire {
    open spec fn obeys_try_from_spec() -> bool {
        true
    }

    open spec fn try_from_spec(bytes: &ShmBytes) -> Result<Self, Self::Error> {
        Ok(ShmBytesWire { handle: bytes@.handle, len: bytes@.len as u32 })
    }
}

/// The buffer of a wire form. It claims no slot.
impl TryFrom<ShmBytesWire> for ShmBytes {
    type Error = std::convert::Infallible;

    fn try_from(wire: ShmBytesWire) -> (bytes: Result<Self, Self::Error>)
        ensures
            bytes matches Ok(bytes) && bytes@ == (BufferView {
                handle: wire.handle,
                len: wire.len as usize,
            }),
    {
        Ok(ShmBytes { handle: wire.handle, len: wire.len as usize })
    }
}

impl vstd::std_specs::convert::TryFromSpecImpl<ShmBytesWire> for ShmBytes {
    open spec fn obeys_try_from_spec() -> bool {
        true
    }

    closed spec fn try_from_spec(wire: ShmBytesWire) -> Result<Self, Self::Error> {
        Ok(ShmBytes { handle: wire.handle, len: wire.len as usize })
    }
}

/// A buffer that goes over the wire comes out with its handle and its length.
///
/// The wire form has 32 bits for the length, which is more than any slot holds.
pub proof fn law_wire_round_trip(bytes: ShmBytes)
    requires
        bytes@.len <= u32::MAX,
    ensures
        <ShmBytesWire as vstd::std_specs::convert::TryFromSpec<&ShmBytes>>::try_from_spec(
            &bytes,
        ) matches Ok(wire) && <ShmBytes as vstd::std_specs::convert::TryFromSpec<
            ShmBytesWire,
        >>::try_from_spec(wire) matches Ok(back) && back@ == bytes@,
{
}

/// The wire form of a buffer has its handle, and its length modulo 2^32.
pub proof fn law_wire_form(bytes: ShmBytes)
    ensures
        <ShmBytesWire as vstd::std_specs::convert::TryFromSpec<&ShmBytes>>::try_from_spec(
            &bytes,
        ) matches Ok(wire) && wire.handle == bytes@.handle && wire.len == bytes@.len as int
            % 0x1_0000_0000,
        <ShmBytesWire as vstd::std_specs::convert::TryFromSpec<&ShmBytes>>::obeys_try_from_spec(),
{
    let len: usize = bytes@.len;
    let wide: u64 = len as u64;
    assert(len as u32 == (len as u64) as u32) by (bit_vector);
    assert(wide as u32 == wide % 0x1_0000_0000) by (bit_vector);
}

/// The buffer of a wire form has its handle and its length.
pub proof fn law_buffer_of_wire(wire: ShmBytesWire)
    ensures
        <ShmBytes as vstd::std_specs::convert::TryFromSpec<ShmBytesWire>>::try_from_spec(
            wire,
        ) matches Ok(bytes) && bytes@.handle == wire.handle && bytes@.len == wire.len,
        <ShmBytes as vstd::std_specs::convert::TryFromSpec<ShmBytesWire>>::obeys_try_from_spec(),
{
}

} // verus!
