use roam_shm::layout::SizeClass;
use roam_shm::var_slot_pool::{SlotState, VarFreeError, VarSlotHandle, VarSlotPool};

fn pool() -> VarSlotPool {
    VarSlotPool::new(vec![SizeClass::new(4, 2), SizeClass::new(8, 1)])
}

fn state(pool: &VarSlotPool, handle: VarSlotHandle) -> SlotState {
    pool.slot_meta_ext(handle.class_idx as usize, 0, handle.slot_idx)
        .expect("meta")
        .state()
}

#[test]
fn fresh_pool_is_free_and_zeroed() {
    let mut pool = pool();
    for (class, slot) in [(0, 0), (0, 1), (1, 0)] {
        let meta = pool.slot_meta_ext(class, 0, slot).expect("meta");
        assert_eq!(meta.state(), SlotState::Free);
        assert_eq!(meta.owner(), 0);
        assert_eq!(meta.generation, 0);
    }
    assert!(pool.slot_meta_ext(0, 0, 2).is_none());
    assert!(pool.slot_meta_ext(2, 0, 0).is_none());
    assert!(pool.slot_meta_ext(0, 1, 0).is_none());
    let handle = pool.allocate(4, 1).expect("allocate");
    assert_eq!(pool.payload(handle, 4), Some(&[0u8, 0, 0, 0][..]));
}

#[test]
fn allocation_takes_the_first_slot_that_fits() {
    let mut pool = pool();
    let first = pool.allocate(3, 7).expect("allocate");
    assert_eq!(
        first,
        VarSlotHandle { class_idx: 0, extent_idx: 0, slot_idx: 0, generation: 1 }
    );
    let second = pool.allocate(5, 7).expect("allocate");
    assert_eq!((second.class_idx, second.slot_idx), (1, 0));
    assert!(pool.allocate(5, 7).is_none());
    let third = pool.allocate(0, 7).expect("allocate");
    assert_eq!((third.class_idx, third.slot_idx), (0, 1));
}

#[test]
fn oversize() {
    let pool = pool();
    assert!(!pool.is_oversize(8));
    assert!(pool.is_oversize(9));
    assert!(!VarSlotPool::new(Vec::new()).is_oversize(9));
}

#[test]
fn life_of_a_slot() {
    let mut pool = pool();
    let handle = pool.allocate(4, 1).expect("allocate");
    assert_eq!(state(&pool, handle), SlotState::Allocated);
    assert_eq!(pool.free(handle), Err(VarFreeError::InvalidState));
    assert_eq!(pool.claim_in_flight(handle, 2), Err(VarFreeError::InvalidState));
    pool.mark_in_flight(handle).expect("mark");
    assert_eq!(state(&pool, handle), SlotState::InFlight);
    assert_eq!(pool.mark_in_flight(handle), Err(VarFreeError::InvalidState));
    assert_eq!(pool.free_allocated(handle), Err(VarFreeError::InvalidState));
    pool.claim_in_flight(handle, 2).expect("claim");
    assert_eq!(state(&pool, handle), SlotState::Allocated);
    pool.free_allocated(handle).expect("free");
    assert_eq!(state(&pool, handle), SlotState::Free);
    assert_eq!(pool.free_allocated(handle), Err(VarFreeError::InvalidState));
    assert!(pool.payload(handle, 4).is_none());
}

#[test]
fn unknown_handles_are_refused() {
    let mut pool = pool();
    let handle = pool.allocate(4, 1).expect("allocate");
    let bad_class = VarSlotHandle { class_idx: 2, ..handle };
    let bad_extent = VarSlotHandle { extent_idx: 1, ..handle };
    let bad_slot = VarSlotHandle { slot_idx: 2, ..handle };
    let bad_generation = VarSlotHandle { generation: 2, ..handle };
    assert_eq!(pool.free_allocated(bad_class), Err(VarFreeError::InvalidClass));
    assert_eq!(pool.free_allocated(bad_extent), Err(VarFreeError::InvalidExtent));
    assert_eq!(pool.free_allocated(bad_slot), Err(VarFreeError::InvalidSlot));
    assert_eq!(
        pool.free_allocated(bad_generation),
        Err(VarFreeError::GenerationMismatch)
    );
    assert_eq!(state(&pool, handle), SlotState::Allocated);
}

#[test]
fn stale_handle_is_refused() {
    let mut pool = pool();
    let stale = pool.allocate(4, 1).expect("allocate");
    pool.free_allocated(stale).expect("free");
    let handle = pool.allocate(4, 1).expect("allocate");
    assert_eq!((handle.class_idx, handle.slot_idx), (stale.class_idx, stale.slot_idx));
    assert_ne!(handle.generation, stale.generation);
    assert_eq!(pool.free_allocated(stale), Err(VarFreeError::GenerationMismatch));
    assert_eq!(pool.mark_in_flight(stale), Err(VarFreeError::GenerationMismatch));
    assert!(pool.payload(stale, 4).is_none());
    assert!(pool.payload(handle, 4).is_some());
}

#[test]
fn writing_changes_the_leading_bytes_of_one_slot() {
    let mut pool = pool();
    let a = pool.allocate(4, 1).expect("allocate");
    let b = pool.allocate(4, 1).expect("allocate");
    let bytes = pool.payload_mut(a, 2).expect("payload");
    assert_eq!(bytes.len(), 2);
    bytes[0] = 5;
    bytes[1] = 6;
    assert_eq!(pool.payload(a, 4), Some(&[5u8, 6, 0, 0][..]));
    assert_eq!(pool.payload(b, 4), Some(&[0u8, 0, 0, 0][..]));
    assert!(pool.payload_mut(a, 5).is_none());
}

#[test]
fn recovery_frees_the_slots_of_a_peer() {
    let mut pool = pool();
    let dead = pool.allocate(4, 1).expect("allocate");
    let sent = pool.allocate(4, 1).expect("allocate");
    let alive = pool.allocate(8, 2).expect("allocate");
    pool.mark_in_flight(sent).expect("mark");
    pool.recover_peer(1);
    assert_eq!(state(&pool, dead), SlotState::Free);
    assert_eq!(state(&pool, sent), SlotState::Free);
    assert_eq!(state(&pool, alive), SlotState::Allocated);
    assert!(pool.allocate(4, 2).is_some());
}
