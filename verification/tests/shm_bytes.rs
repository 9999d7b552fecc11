use roam_shm::layout::SizeClass;
use roam_shm::reflect::{Reflected, ReflectedField};
use roam_shm::shm_bytes::{ShmBytes, ShmBytesWire, ShmError};
use roam_shm::transfer::{mark_shm_bytes_in_flight, patch_shm_bytes, Refused};
use roam_shm::var_slot_pool::{SlotMeta, SlotState, VarFreeError, VarSlotHandle, VarSlotPool};

type HandleFields = (u8, u8, u32, u32);
type WireFields = (HandleFields, u32);

fn create_test_pool() -> VarSlotPool {
    let classes = vec![
        SizeClass::new(64, 16),  // Small: 64 bytes x 16 slots
        SizeClass::new(256, 8),  // Medium: 256 bytes x 8 slots
        SizeClass::new(1024, 4), // Large: 1 KB x 4 slots
    ];
    VarSlotPool::new(classes)
}

fn allocated(pool: &mut VarSlotPool, size: usize) -> ShmBytes {
    ShmBytes::allocate(size, Some(pool), None).expect("alloc")
}

fn meta(pool: &VarSlotPool, handle: VarSlotHandle) -> SlotMeta {
    pool.slot_meta_ext(
        handle.class_idx as usize,
        handle.extent_idx as usize,
        handle.slot_idx,
    )
    .expect("meta")
}

fn handle_fields(handle: &VarSlotHandle) -> HandleFields {
    (
        handle.class_idx,
        handle.extent_idx,
        handle.slot_idx,
        handle.generation,
    )
}

fn to_handle(fields: HandleFields) -> VarSlotHandle {
    VarSlotHandle {
        class_idx: fields.0,
        extent_idx: fields.1,
        slot_idx: fields.2,
        generation: fields.3,
    }
}

fn wire_fields(bytes: &ShmBytes) -> WireFields {
    let wire = ShmBytesWire::try_from(bytes).expect("wire form");
    (handle_fields(&wire.handle), wire.len)
}

fn from_wire(fields: WireFields) -> ShmBytes {
    let wire = ShmBytesWire {
        handle: to_handle(fields.0),
        len: fields.1,
    };
    ShmBytes::try_from(wire).expect("buffer")
}

fn not_in_flight(handle: VarSlotHandle) -> Refused {
    Refused {
        handle,
        error: VarFreeError::InvalidState,
    }
}

fn value(type_identifier: &str) -> Reflected {
    Reflected {
        type_identifier: type_identifier.to_string(),
        is_handle: false,
        option: None,
        result: None,
        boxed: None,
        fields: None,
        variant: None,
        items: None,
        byte: None,
        word: None,
    }
}

fn structure(type_identifier: &str, fields: Vec<(&str, Reflected)>) -> Reflected {
    let mut reflected = value(type_identifier);
    reflected.fields = Some(
        fields
            .into_iter()
            .map(|(name, value)| ReflectedField {
                name: name.to_string(),
                value,
            })
            .collect(),
    );
    reflected
}

fn option(inner: Option<Reflected>) -> Reflected {
    let mut reflected = value("Option");
    reflected.option = Some(inner.map(Box::new));
    reflected
}

fn result(inner: Reflected) -> Reflected {
    let mut reflected = value("Result");
    reflected.result = Some(Box::new(inner));
    reflected
}

fn boxed(inner: Reflected) -> Reflected {
    let mut reflected = value("Box");
    reflected.boxed = Some(Box::new(inner));
    reflected
}

fn list(items: Vec<Reflected>) -> Reflected {
    let mut reflected = value("Vec");
    reflected.items = Some(items);
    reflected
}

fn variant(type_identifier: &str, fields: Vec<Reflected>) -> Reflected {
    let mut reflected = value(type_identifier);
    reflected.variant = Some(fields);
    reflected
}

#[test]
fn shm_bytes_is_not_clone() {
    // A type that were `Clone` would reach the inherent constant; a move-only one falls back to
    // the constant of the blanket trait.
    struct Probe<T>(std::marker::PhantomData<T>);
    trait NotClone {
        const CLONE: bool = false;
    }
    impl<T> NotClone for Probe<T> {}
    impl<T: Clone> Probe<T> {
        const CLONE: bool = true;
    }
    assert!(Probe::<u8>::CLONE);
    assert!(!Probe::<ShmBytes>::CLONE);
}

#[test]
fn test_var_slot_handle_facet_roundtrip() {
    let handle = VarSlotHandle {
        class_idx: 2,
        extent_idx: 1,
        slot_idx: 12345,
        generation: 42,
    };

    // Serialize
    let bytes = facet_postcard::to_vec(&handle_fields(&handle)).expect("serialize handle");

    // Deserialize
    let fields: HandleFields = facet_postcard::from_slice(&bytes).expect("deserialize handle");
    let decoded = to_handle(fields);

    assert_eq!(decoded.class_idx, handle.class_idx);
    assert_eq!(decoded.extent_idx, handle.extent_idx);
    assert_eq!(decoded.slot_idx, handle.slot_idx);
    assert_eq!(decoded.generation, handle.generation);
}

#[test]
fn test_shm_bytes_proxy_serialization() {
    let mut pool = create_test_pool();

    let bytes = allocated(&mut pool, 32);
    let handle = bytes.handle();

    // The wire form starts with the handle
    let serialized = facet_postcard::to_vec(&wire_fields(&bytes)).expect("serialize ShmBytes");

    let fields: HandleFields =
        facet_postcard::from_slice(&serialized).expect("deserialize as handle");
    let decoded_handle = to_handle(fields);

    assert_eq!(decoded_handle.class_idx, handle.class_idx);
    assert_eq!(decoded_handle.extent_idx, handle.extent_idx);
    assert_eq!(decoded_handle.slot_idx, handle.slot_idx);
    assert_eq!(decoded_handle.generation, handle.generation);
}

#[test]
fn test_mark_shm_bytes_in_flight() {
    let mut pool = create_test_pool();

    let bytes = allocated(&mut pool, 32);
    let handle = bytes.handle();
    assert_eq!(meta(&pool, handle).state(), SlotState::Allocated);

    let refused = mark_shm_bytes_in_flight(&&bytes.reflected(), Some(&mut pool));
    assert!(refused.is_empty());
    assert_eq!(meta(&pool, handle).state(), SlotState::InFlight);

    // Serialization does not mark again
    let _serialized = facet_postcard::to_vec(&wire_fields(&bytes)).expect("serialize");
    assert_eq!(meta(&pool, handle).state(), SlotState::InFlight);

    // Ownership is the receiver's now; clean up in flight
    pool.free(handle).expect("free");
}

#[test]
fn test_mark_shm_bytes_in_struct() {
    let mut pool = create_test_pool();

    let bytes = allocated(&mut pool, 64);
    let handle = bytes.handle();
    let container = structure(
        "Container",
        vec![("data", bytes.reflected()), ("name", value("String"))],
    );
    assert_eq!(meta(&pool, handle).state(), SlotState::Allocated);

    mark_shm_bytes_in_flight(&&container, Some(&mut pool));
    assert_eq!(meta(&pool, handle).state(), SlotState::InFlight);

    pool.free(handle).expect("free");
}

#[test]
fn test_shm_bytes_alloc_and_free() {
    let mut pool = create_test_pool();

    let bytes = allocated(&mut pool, 32);
    assert_eq!(bytes.len(), 32);
    assert!(!bytes.is_empty());

    let slice = bytes.as_slice(Some(&pool)).expect("as_slice");
    assert_eq!(slice.len(), 32);

    bytes.free(Some(&mut pool)).expect("free");
}

#[test]
fn test_shm_bytes_write_and_read() {
    let mut pool = create_test_pool();
    let mut bytes = allocated(&mut pool, 16);

    // Write data
    let data = b"hello, shm!";
    bytes.as_mut_slice(Some(&mut pool)).expect("as_mut_slice")[..data.len()].copy_from_slice(data);

    // Read it back
    let slice = bytes.as_slice(Some(&pool)).expect("as_slice");
    assert_eq!(&slice[..data.len()], data);
}

#[test]
fn test_shm_bytes_drop_in_context() {
    let mut pool = create_test_pool();

    let bytes = allocated(&mut pool, 32);
    let _handle = bytes.handle();
    bytes.drop_into(Some(&mut pool));

    // The slot is free, so there is one to allocate
    let bytes2 = ShmBytes::allocate(32, Some(&mut pool), None).expect("alloc after drop");
    bytes2.drop_into(Some(&mut pool));
}

#[test]
fn test_shm_bytes_drop_outside_context() {
    let mut pool = create_test_pool();
    let bytes = allocated(&mut pool, 32);
    let handle = bytes.handle();

    // Without a pool nothing happens
    bytes.drop_into(None);
    assert_eq!(meta(&pool, handle).state(), SlotState::Allocated);

    // The pool can still be used
    let _bytes = ShmBytes::allocate(32, Some(&mut pool), None).expect("alloc still works");
}

#[test]
fn test_shm_bytes_no_context_error() {
    let result = ShmBytes::allocate(32, None, None);
    assert!(matches!(result, Err(ShmError::NoContext)));
}

#[test]
fn test_shm_bytes_deref() {
    let mut pool = create_test_pool();
    let mut bytes = allocated(&mut pool, 8);
    bytes
        .as_mut_slice(Some(&mut pool))
        .expect("as_mut_slice")
        .copy_from_slice(b"test1234");

    let slice: &[u8] = bytes.deref(Some(&pool));
    assert_eq!(slice, b"test1234");
}

#[test]
fn test_patch_shm_bytes_in_struct() {
    let mut pool = create_test_pool();

    // A buffer with a length of its own, to see that it is transmitted
    let whole = allocated(&mut pool, 64);
    let original = ShmBytes::from_handle(whole.handle(), 50);
    let original_handle = original.handle();

    let bytes = facet_postcard::to_vec(&(42u32, wire_fields(&original), "test".to_string()))
        .expect("serialize");
    let (id, wire, name): (u32, WireFields, String) =
        facet_postcard::from_slice(&bytes).expect("deserialize");
    let decoded = from_wire(wire);

    // The length is right before patching
    assert_eq!(decoded.len(), 50);

    let received = structure(
        "TestStruct",
        vec![
            ("id", value("u32")),
            ("data", decoded.reflected()),
            ("name", value("String")),
        ],
    );
    // The walk comes to the buffer, which is not in flight
    let refused = patch_shm_bytes(&&received, Some(&mut pool), None);
    assert_eq!(refused, vec![not_in_flight(original_handle)]);

    assert_eq!(decoded.handle().class_idx, original_handle.class_idx);
    assert_eq!(decoded.handle().slot_idx, original_handle.slot_idx);
    assert_eq!(decoded.handle().generation, original_handle.generation);
    assert_eq!(decoded.len(), 50);

    assert_eq!(id, 42);
    assert_eq!(name, "test");
}

#[test]
fn test_patch_shm_bytes_in_option() {
    let mut pool = create_test_pool();

    // With a buffer
    let original = allocated(&mut pool, 64);
    let bytes = facet_postcard::to_vec(&Some(wire_fields(&original))).expect("serialize");
    let wire: Option<WireFields> = facet_postcard::from_slice(&bytes).expect("deserialize");
    let decoded = wire.map(from_wire);

    let received = structure(
        "TestOptional",
        vec![("data", option(decoded.as_ref().map(|b| b.reflected())))],
    );
    let refused = patch_shm_bytes(&&received, Some(&mut pool), None);
    assert_eq!(refused, vec![not_in_flight(original.handle())]);
    assert!(decoded.is_some());
    assert_eq!(decoded.as_ref().unwrap().len(), 64);

    // Without
    let none: Option<WireFields> = None;
    let bytes_none = facet_postcard::to_vec(&none).expect("serialize");
    let wire_none: Option<WireFields> =
        facet_postcard::from_slice(&bytes_none).expect("deserialize");
    let received_none = structure("TestOptional", vec![("data", option(None))]);
    let refused = patch_shm_bytes(&&received_none, Some(&mut pool), None);
    assert!(wire_none.is_none());
    assert!(refused.is_empty());
}

#[test]
fn test_patch_shm_bytes_in_vec() {
    let mut pool = create_test_pool();

    let first = allocated(&mut pool, 64);
    let second = allocated(&mut pool, 256);
    let original = vec![
        ShmBytes::from_handle(first.handle(), 30),
        ShmBytes::from_handle(second.handle(), 200),
    ];

    let wires: Vec<WireFields> = original.iter().map(wire_fields).collect();
    let bytes = facet_postcard::to_vec(&wires).expect("serialize");
    let decoded_wires: Vec<WireFields> = facet_postcard::from_slice(&bytes).expect("deserialize");
    let decoded: Vec<ShmBytes> = decoded_wires.into_iter().map(from_wire).collect();

    // Lengths are right before patching
    assert_eq!(decoded[0].len(), 30);
    assert_eq!(decoded[1].len(), 200);

    let received = structure(
        "TestVec",
        vec![("items", list(decoded.iter().map(|b| b.reflected()).collect()))],
    );
    let refused = patch_shm_bytes(&&received, Some(&mut pool), None);
    assert_eq!(
        refused,
        vec![not_in_flight(first.handle()), not_in_flight(second.handle())]
    );

    assert_eq!(decoded.len(), 2);
    assert_eq!(decoded[0].len(), 30);
    assert_eq!(decoded[1].len(), 200);
}

#[test]
fn test_shm_bytes_mark_in_flight() {
    let mut pool = create_test_pool();

    let bytes = allocated(&mut pool, 32);
    let handle = bytes.handle();
    assert_eq!(meta(&pool, handle).state(), SlotState::Allocated);

    bytes.mark_in_flight(Some(&mut pool)).expect("mark_in_flight");
    assert_eq!(meta(&pool, handle).state(), SlotState::InFlight);

    // In flight it is freed by free, not by free_allocated
    pool.free(handle).expect("free");
}

#[test]
fn test_shm_bytes_ownership_transfer() {
    let mut pool = create_test_pool();

    // Sender (peer 1) allocates and marks in flight
    let bytes = ShmBytes::allocate(64, Some(&mut pool), Some(1)).expect("alloc");
    let handle = bytes.handle();
    assert_eq!(meta(&pool, handle).owner(), 1);
    bytes.mark_in_flight(Some(&mut pool)).expect("mark_in_flight");
    assert_eq!(meta(&pool, handle).state(), SlotState::InFlight);

    // Receiver (peer 2) claims the buffer
    pool.claim_in_flight(handle, 2).expect("claim");
    assert_eq!(meta(&pool, handle).state(), SlotState::Allocated);
    assert_eq!(meta(&pool, handle).owner(), 2);

    // Now the receiver can free it
    pool.free_allocated(handle).expect("free");
}

#[test]
fn test_shm_bytes_alloc_uses_local_peer_id() {
    let mut pool = create_test_pool();

    let bytes = ShmBytes::allocate(32, Some(&mut pool), Some(5)).expect("alloc");
    let handle = bytes.handle();
    assert_eq!(meta(&pool, handle).owner(), 5);

    pool.free_allocated(handle).expect("free");
}

#[test]
fn allocation_without_peer_id_is_the_hosts() {
    let mut pool = create_test_pool();
    let bytes = ShmBytes::allocate(32, Some(&mut pool), None).expect("alloc");
    assert_eq!(meta(&pool, bytes.handle()).owner(), 0);
}

#[test]
fn allocation_too_large() {
    let mut pool = create_test_pool();
    let result = ShmBytes::allocate(1025, Some(&mut pool), None);
    assert!(matches!(result, Err(ShmError::SizeTooLarge)));
    // A size that only fits modulo 2^32 is too large as well
    let result = ShmBytes::allocate((1usize << 32) + 10, Some(&mut pool), None);
    assert!(matches!(result, Err(ShmError::SizeTooLarge)));
}

#[test]
fn allocation_exhausts_fitting_slots() {
    let mut pool = VarSlotPool::new(vec![SizeClass::new(64, 1), SizeClass::new(256, 1)]);
    let small = allocated(&mut pool, 10);
    let large = allocated(&mut pool, 10);
    assert_eq!(small.handle().class_idx, 0);
    assert_eq!(large.handle().class_idx, 1);
    let result = ShmBytes::allocate(10, Some(&mut pool), None);
    assert!(matches!(result, Err(ShmError::SlotExhausted)));

    // A free slot that is too small does not help
    small.free(Some(&mut pool)).expect("free");
    let result = ShmBytes::allocate(65, Some(&mut pool), None);
    assert!(matches!(result, Err(ShmError::SlotExhausted)));
    assert!(ShmBytes::allocate(64, Some(&mut pool), None).is_ok());
}

#[test]
fn allocation_from_a_pool_without_classes() {
    let mut pool = VarSlotPool::new(Vec::new());
    let result = ShmBytes::allocate(0, Some(&mut pool), None);
    assert!(matches!(result, Err(ShmError::SlotExhausted)));
    let result = ShmBytes::allocate(usize::MAX, Some(&mut pool), None);
    assert!(matches!(result, Err(ShmError::SlotExhausted)));
}

#[test]
fn empty_buffer() {
    let mut pool = create_test_pool();
    let mut bytes = allocated(&mut pool, 0);
    assert!(bytes.is_empty());
    assert_eq!(bytes.len(), 0);
    assert_eq!(bytes.as_slice(Some(&pool)), Some(&[][..]));
    assert_eq!(bytes.as_mut_slice(Some(&mut pool)).map(|b| b.len()), Some(0));
}

#[test]
fn no_pool_no_bytes() {
    let mut pool = create_test_pool();
    let mut bytes = allocated(&mut pool, 8);
    assert!(bytes.as_slice(None).is_none());
    assert!(bytes.as_mut_slice(None).is_none());
    assert_eq!(bytes.deref(None), b"");
    assert_eq!(bytes.mark_in_flight(None), Err(ShmError::NoContext));
    assert_eq!(bytes.claim_in_flight(None, Some(1)), Err(ShmError::NoContext));
    assert!(mark_shm_bytes_in_flight(&&bytes.reflected(), None).is_empty());
    assert!(patch_shm_bytes(&&bytes.reflected(), None, Some(1)).is_empty());
    assert_eq!(meta(&pool, bytes.handle()).state(), SlotState::Allocated);
    assert_eq!(bytes.free(None), Err(ShmError::NoContext));
}

#[test]
fn buffer_longer_than_its_slot() {
    let mut pool = create_test_pool();
    let whole = allocated(&mut pool, 64);
    let mut overlong = ShmBytes::from_handle(whole.handle(), 65);
    assert!(overlong.as_slice(Some(&pool)).is_none());
    assert!(overlong.as_mut_slice(Some(&mut pool)).is_none());
    assert_eq!(overlong.deref(Some(&pool)), b"");
}

#[test]
fn transfer_keeps_the_bytes() {
    let mut pool = create_test_pool();
    let mut sent = ShmBytes::allocate(5, Some(&mut pool), Some(1)).expect("alloc");
    sent.as_mut_slice(Some(&mut pool))
        .expect("as_mut_slice")
        .copy_from_slice(b"bytes");
    sent.mark_in_flight(Some(&mut pool)).expect("mark");

    let wire = ShmBytesWire::try_from(&sent).expect("wire form");
    assert_eq!(wire.len, 5);
    let received = ShmBytes::try_from(wire).expect("buffer");
    received.claim_in_flight(Some(&mut pool), Some(2)).expect("claim");
    assert_eq!(received.as_slice(Some(&pool)), Some(&b"bytes"[..]));
    assert_eq!(meta(&pool, received.handle()).owner(), 2);
}

#[test]
fn dropping_what_is_in_flight_leaves_it() {
    let mut pool = create_test_pool();
    let bytes = allocated(&mut pool, 8);
    let handle = bytes.handle();
    bytes.mark_in_flight(Some(&mut pool)).expect("mark");
    bytes.drop_into(Some(&mut pool));
    assert_eq!(meta(&pool, handle).state(), SlotState::InFlight);
}

#[test]
fn refused_operations_say_why() {
    let mut pool = create_test_pool();
    let bytes = allocated(&mut pool, 8);
    assert_eq!(
        bytes.claim_in_flight(Some(&mut pool), Some(1)),
        Err(ShmError::FreeError(VarFreeError::InvalidState))
    );
    bytes.mark_in_flight(Some(&mut pool)).expect("mark");
    assert_eq!(
        bytes.mark_in_flight(Some(&mut pool)),
        Err(ShmError::FreeError(VarFreeError::InvalidState))
    );
    assert_eq!(
        bytes.free(Some(&mut pool)),
        Err(ShmError::FreeError(VarFreeError::InvalidState))
    );
}

#[test]
fn wire_length_is_truncated() {
    let handle = to_handle((0, 0, 0, 1));
    let bytes = ShmBytes::from_handle(handle, (1usize << 32) + 7);
    let wire = ShmBytesWire::try_from(&bytes).expect("wire form");
    assert_eq!(wire.len, 7);
    assert_eq!(wire.handle, handle);
}

#[test]
fn error_messages() {
    assert_eq!(ShmError::NoContext.message(), "not in SHM transport context");
    assert_eq!(ShmError::SlotExhausted.message(), "no SHM slots available");
    assert_eq!(
        ShmError::SizeTooLarge.message(),
        "requested size exceeds maximum slot size"
    );
    for error in [
        VarFreeError::InvalidClass,
        VarFreeError::InvalidExtent,
        VarFreeError::InvalidSlot,
        VarFreeError::GenerationMismatch,
        VarFreeError::InvalidState,
    ] {
        assert_eq!(
            ShmError::from(error).message(),
            format!("failed to free SHM slot: {:?}", error)
        );
        assert_eq!(ShmError::from(error), ShmError::FreeError(error));
    }
}

#[test]
fn debug_shows_handle_and_length() {
    let bytes = ShmBytes::from_handle(to_handle((2, 1, 3, 4)), 5);
    assert_eq!(
        format!("{:?}", bytes),
        "ShmBytes { handle: VarSlotHandle { class_idx: 2, extent_idx: 1, slot_idx: 3, generation: 4 }, len: 5 }"
    );
}

#[test]
fn value_arrives_with_all_its_buffers() {
    let mut pool = create_test_pool();
    let a = ShmBytes::allocate(4, Some(&mut pool), Some(1)).expect("alloc");
    let b = ShmBytes::allocate(4, Some(&mut pool), Some(1)).expect("alloc");
    let c = ShmBytes::allocate(4, Some(&mut pool), Some(1)).expect("alloc");
    let d = ShmBytes::allocate(4, Some(&mut pool), Some(1)).expect("alloc");
    let e = ShmBytes::allocate(4, Some(&mut pool), Some(1)).expect("alloc");
    let f = ShmBytes::allocate(4, Some(&mut pool), Some(1)).expect("alloc");
    let apart = ShmBytes::allocate(4, Some(&mut pool), Some(1)).expect("alloc");
    let message = structure(
        "Message",
        vec![
            ("first", a.reflected()),
            ("maybe", option(Some(list(vec![value("u8"), b.reflected()])))),
            // Every field of the active variant counts
            ("kind", variant("Kind", vec![c.reflected(), d.reflected()])),
            ("outcome", result(e.reflected())),
            ("far", boxed(f.reflected())),
        ],
    );

    assert!(mark_shm_bytes_in_flight(&&message, Some(&mut pool)).is_empty());
    for bytes in [&a, &b, &c, &d, &e, &f] {
        assert_eq!(meta(&pool, bytes.handle()).state(), SlotState::InFlight);
    }
    assert_eq!(meta(&pool, apart.handle()).state(), SlotState::Allocated);

    // Marking again changes nothing, and says so
    let refused = mark_shm_bytes_in_flight(&&message, Some(&mut pool));
    let expected: Vec<Refused> = [&a, &b, &c, &d, &e, &f]
        .iter()
        .map(|bytes| not_in_flight(bytes.handle()))
        .collect();
    assert_eq!(refused, expected);

    assert!(patch_shm_bytes(&&message, Some(&mut pool), Some(2)).is_empty());
    for bytes in [&a, &b, &c, &d, &e, &f] {
        assert_eq!(meta(&pool, bytes.handle()).state(), SlotState::Allocated);
        assert_eq!(meta(&pool, bytes.handle()).owner(), 2);
    }
    assert_eq!(meta(&pool, apart.handle()).owner(), 1);

    // A second receiver comes too late
    let refused = patch_shm_bytes(&&message, Some(&mut pool), Some(3));
    assert_eq!(refused.len(), 6);
    assert_eq!(meta(&pool, a.handle()).owner(), 2);
}

#[test]
fn handle_of_another_type_is_ignored() {
    let mut pool = create_test_pool();
    let bytes = allocated(&mut pool, 4);
    let mut foreign = bytes.handle().reflected();
    foreign.is_handle = false;
    let message = structure("ShmBytes", vec![("handle", foreign), ("len", value("usize"))]);
    assert!(mark_shm_bytes_in_flight(&&message, Some(&mut pool)).is_empty());
    assert_eq!(meta(&pool, bytes.handle()).state(), SlotState::Allocated);
}
