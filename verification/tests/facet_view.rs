use facet::{Facet, Peek, Poke};
use roam_shm::facet_view::FacetView;
use roam_shm::layout::SizeClass;
use roam_shm::reflect::{find_handles, Inspect};
use roam_shm::transfer::{mark_shm_bytes_in_flight_hook, patch_shm_bytes_hook};
use roam_shm::var_slot_pool::{SlotState, VarSlotPool};

// A view in which a slot handle would be a `u32`.
fn view<T: Facet<'static>>(value: &T) -> FacetView<'_, 'static> {
    FacetView {
        peek: Peek::new(value),
        handle_shape: u32::SHAPE,
    }
}

#[test]
fn numbers() {
    let byte = 7u8;
    let word = 8u32;
    assert_eq!(view(&byte).byte(), Some(7));
    assert_eq!(view(&byte).word(), None);
    assert_eq!(view(&word).word(), Some(8));
    assert_eq!(view(&word).byte(), None);
    assert_eq!(view(&word).type_identifier(), "u32");
}

#[test]
fn handles_are_told_by_their_type() {
    assert!(view(&8u32).is_handle());
    assert!(!view(&8u8).is_handle());
    let pair = (1u32, 2u8);
    assert!(!view(&pair).is_handle());
    assert!(view(&pair).field(0).expect("field").is_handle());
    assert!(!view(&pair).field(1).expect("field").is_handle());
}

#[test]
fn results() {
    let ok: Result<u32, u8> = Ok(5);
    let err: Result<u32, u8> = Err(6);
    assert_eq!(view(&ok).result().expect("value").word(), Some(5));
    assert_eq!(view(&err).result().expect("value").byte(), Some(6));
    assert!(view(&5u32).result().is_none());
}

#[test]
fn boxes() {
    let boxed = Box::new(7u32);
    assert_eq!(view(&boxed).boxed().expect("value").word(), Some(7));
    let slice: Box<[u32]> = vec![1u32, 2].into_boxed_slice();
    let inner = view(&slice).boxed().expect("value");
    assert_eq!(inner.item_count(), Some(2));
    assert_eq!(inner.item(1).expect("item").word(), Some(2));
    assert!(inner.item(2).is_none());
    // Other pointers are not followed
    assert!(view(&std::sync::Arc::new(7u32)).boxed().is_none());
    assert!(view(&5u32).boxed().is_none());
}

#[test]
fn arrays() {
    let array = [4u32, 5, 6];
    let seen = view(&array);
    assert_eq!(seen.item_count(), Some(3));
    assert_eq!(seen.item(0).expect("item").word(), Some(4));
    assert_eq!(seen.item(2).expect("item").word(), Some(6));
    assert!(seen.item(3).is_none());
    let borrowed: &'static [u32] = &[1, 2];
    assert!(view(&borrowed).item_count().is_none());
    assert!(view(&borrowed).item(0).is_none());
}

#[test]
fn options() {
    let some = Some(9u32);
    let none: Option<u32> = None;
    let inner = view(&some).option().expect("an option").expect("a value");
    assert_eq!(inner.word(), Some(9));
    assert!(matches!(view(&none).option(), Some(None)));
    assert!(view(&3u8).option().is_none());
}

#[test]
fn tuples_and_structs() {
    let tuple = (1u8, 2u32);
    let seen = view(&tuple);
    assert_eq!(seen.field_count(), Some(2));
    assert_eq!(seen.field(0).expect("field").byte(), Some(1));
    assert_eq!(seen.field(1).expect("field").word(), Some(2));
    assert!(seen.field(2).is_none());

    let range = 3u32..8u32;
    let seen = view(&range);
    assert_eq!(seen.type_identifier(), "Range");
    assert_eq!(seen.field_by_name("end").expect("field").word(), Some(8));
    assert_eq!(seen.field_by_name("start").expect("field").word(), Some(3));
    assert!(seen.field_by_name("middle").is_none());

    assert!(view(&5u32).field_count().is_none());
    assert!(view(&5u32).field(0).is_none());
}

#[test]
fn enums() {
    // An option of a pointer is an enum with a layout of its own
    let some = Some(Box::new(4u32));
    let seen = view(&some);
    assert_eq!(seen.variant_field_count(), Some(1));
    assert_eq!(seen.variant_field(0).expect("field").type_identifier(), "Box");
    assert!(seen.variant_field(1).is_none());
    let none: Option<Box<u32>> = None;
    assert_eq!(view(&none).variant_field_count(), Some(0));

    // One whose layout the compiler chose is not looked into
    assert!(view(&Some(4u32)).variant_field_count().is_none());
    assert!(view(&5u32).variant_field_count().is_none());
}

#[test]
fn lists() {
    let list = vec![10u32, 20, 30];
    let seen = view(&list);
    assert_eq!(seen.item_count(), Some(3));
    assert_eq!(seen.item(0).expect("item").word(), Some(10));
    assert_eq!(seen.item(2).expect("item").word(), Some(30));
    assert!(seen.item(3).is_none());
    assert!(view(&5u32).item_count().is_none());
    assert!(view(&5u32).item(0).is_none());
}

#[test]
fn values_without_buffers_touch_no_slot() {
    let mut pool = VarSlotPool::new(vec![SizeClass::new(8, 1)]);
    let handle = pool.allocate(8, 1).expect("allocate");
    let mut value = (Some(vec![(1u8, 2u32)]), "text".to_string());

    let mut found = Vec::new();
    find_handles(&view(&value), &mut found);
    assert!(found.is_empty());

    assert!(mark_shm_bytes_in_flight_hook(
        Peek::new(&value),
        u32::SHAPE,
        Some(&mut pool)
    ).is_empty());
    assert!(patch_shm_bytes_hook(
        Poke::new(&mut value),
        u32::SHAPE,
        Some(&mut pool),
        Some(2)
    ).is_empty());
    let meta = pool.slot_meta_ext(0, 0, handle.slot_idx).expect("meta");
    assert_eq!(meta.state(), SlotState::Allocated);
    assert_eq!(meta.owner(), 1);
}
