//! What a walk finds, value by value.
//!
//! The laws say of each kind of value what a walk finds in it, in terms of the fields, items and
//! names that reflection shows, and of what a walk finds in the values inside it.

use vstd::prelude::*;

use crate::facet_view::{peek_contents, FacetView};
use crate::reflect::{
    as_handle, buffer_handle, first_named, handles, handles_in, handles_in_fields, is_buffer, named,
    part_of, part_of_any, part_of_fields, Inspect, Reflected, ReflectedField,
};
use crate::var_slot_pool::VarSlotHandle;

verus! {

/// Reflection on a tree says what is in the tree, and reflection on a Rust value what `facet` shows.
pub proof fn law_contents(tree: &Reflected, view: FacetView<'_, '_>)
    ensures
        tree.contents() == *tree,
        view.contents() == peek_contents(view.peek, view.handle_shape),
{
}

/// A search by name gives the value of the first field that has the name.
pub proof fn law_first_field(fields: Seq<ReflectedField>, name: Seq<char>, k: int)
    requires
        0 <= k < fields.len(),
        fields[k].name@ == name,
        forall|j: int| 0 <= j < k ==> (#[trigger] fields[j]).name@ != name,
    ensures
        first_named(fields, name) == Some(fields[k].value),
    decreases k,
{
    if k > 0 {
        let rest = fields.drop_first();
        assert(fields[0].name@ != name);
        assert(rest[k - 1] == fields[k]);
        assert forall|j: int| 0 <= j < k - 1 implies (#[trigger] rest[j]).name@ != name by {
            assert(rest[j] == fields[j + 1]);
        }
        law_first_field(rest, name, k - 1);
    }
}

/// A search by a name that no field has gives nothing.
pub proof fn law_no_field(fields: Seq<ReflectedField>, name: Seq<char>)
    requires
        forall|j: int| 0 <= j < fields.len() ==> (#[trigger] fields[j]).name@ != name,
    ensures
        first_named(fields, name) is None,
    decreases fields.len(),
{
    if fields.len() > 0 {
        let rest = fields.drop_first();
        assert(fields[0].name@ != name);
        assert forall|j: int| 0 <= j < rest.len() implies (#[trigger] rest[j]).name@ != name by {
            assert(rest[j] == fields[j + 1]);
        }
        law_no_field(rest, name);
    }
}

/// A search by name either gives the value of a field that has the name and before which none has
/// it, or there is no such field.
pub proof fn law_field_found(fields: Seq<ReflectedField>, name: Seq<char>)
    ensures
        first_named(fields, name) matches Some(value) ==> exists|k: int|
            0 <= k < fields.len() && (#[trigger] fields[k]).name@ == name && fields[k].value
                == value && forall|j: int| 0 <= j < k ==> (#[trigger] fields[j]).name@ != name,
        first_named(fields, name) is None ==> forall|j: int|
            0 <= j < fields.len() ==> (#[trigger] fields[j]).name@ != name,
{
    if exists|k: int| 0 <= k < fields.len() && (#[trigger] fields[k]).name@ == name {
        let k = lemma_least(
            fields,
            name,
            choose|k: int| 0 <= k < fields.len() && (#[trigger] fields[k]).name@ == name,
        );
        law_first_field(fields, name, k);
    } else {
        law_no_field(fields, name);
    }
}

/// The first index at which the name occurs, where it occurs at `k`.
proof fn lemma_least(fields: Seq<ReflectedField>, name: Seq<char>, k: int) -> (first: int)
    requires
        0 <= k < fields.len(),
        fields[k].name@ == name,
    ensures
        0 <= first <= k,
        fields[first].name@ == name,
        forall|j: int| 0 <= j < first ==> (#[trigger] fields[j]).name@ != name,
    decreases k,
{
    if exists|j: int| 0 <= j < k && (#[trigger] fields[j]).name@ == name {
        lemma_least(
            fields,
            name,
            choose|j: int| 0 <= j < k && (#[trigger] fields[j]).name@ == name,
        )
    } else {
        k
    }
}

/// The field of a value is looked for among its fields; a value that is no struct has none.
pub proof fn law_field_of_value(value: Reflected, name: Seq<char>)
    ensures
        value.fields is None ==> named(value, name) is None,
        value.fields matches Some(fields) ==> named(value, name) == first_named(fields@, name),
{
}

/// A handle is read component by component: each is the number in the first field of its own name.
pub proof fn law_handle_components(
    value: Reflected,
    fields: Seq<ReflectedField>,
    class_at: int,
    extent_at: int,
    slot_at: int,
    generation_at: int,
)
    requires
        value.is_handle,
        value.fields matches Some(all) && all@ == fields,
        0 <= class_at < fields.len(),
        0 <= extent_at < fields.len(),
        0 <= slot_at < fields.len(),
        0 <= generation_at < fields.len(),
        fields[class_at].name@ == "class_idx"@,
        fields[extent_at].name@ == "extent_idx"@,
        fields[slot_at].name@ == "slot_idx"@,
        fields[generation_at].name@ == "generation"@,
        forall|j: int| 0 <= j < class_at ==> (#[trigger] fields[j]).name@ != "class_idx"@,
        forall|j: int| 0 <= j < extent_at ==> (#[trigger] fields[j]).name@ != "extent_idx"@,
        forall|j: int| 0 <= j < slot_at ==> (#[trigger] fields[j]).name@ != "slot_idx"@,
        forall|j: int| 0 <= j < generation_at ==> (#[trigger] fields[j]).name@ != "generation"@,
        fields[class_at].value.byte is Some,
        fields[extent_at].value.byte is Some,
        fields[slot_at].value.word is Some,
        fields[generation_at].value.word is Some,
    ensures
        as_handle(value) matches Some(handle) && {
            &&& fields[class_at].value.byte == Some(handle.class_idx)
            &&& fields[extent_at].value.byte == Some(handle.extent_idx)
            &&& fields[slot_at].value.word == Some(handle.slot_idx)
            &&& fields[generation_at].value.word == Some(handle.generation)
        },
{
    law_first_field(fields, "class_idx"@, class_at);
    law_first_field(fields, "extent_idx"@, extent_at);
    law_first_field(fields, "slot_idx"@, slot_at);
    law_first_field(fields, "generation"@, generation_at);
}

/// What is read as a handle is of the handle's type, and has each component of the handle in the
/// first field of that name.
pub proof fn law_handle_source(value: Reflected, handle: VarSlotHandle)
    requires
        as_handle(value) == Some(handle),
    ensures
        value.is_handle,
        value.fields matches Some(fields) && {
            &&& exists|k: int|
                0 <= k < fields@.len() && (#[trigger] fields@[k]).name@ == "class_idx"@
                    && fields@[k].value.byte == Some(handle.class_idx) && forall|j: int|
                    0 <= j < k ==> (#[trigger] fields@[j]).name@ != "class_idx"@
            &&& exists|k: int|
                0 <= k < fields@.len() && (#[trigger] fields@[k]).name@ == "extent_idx"@
                    && fields@[k].value.byte == Some(handle.extent_idx) && forall|j: int|
                    0 <= j < k ==> (#[trigger] fields@[j]).name@ != "extent_idx"@
            &&& exists|k: int|
                0 <= k < fields@.len() && (#[trigger] fields@[k]).name@ == "slot_idx"@
                    && fields@[k].value.word == Some(handle.slot_idx) && forall|j: int|
                    0 <= j < k ==> (#[trigger] fields@[j]).name@ != "slot_idx"@
            &&& exists|k: int|
                0 <= k < fields@.len() && (#[trigger] fields@[k]).name@ == "generation"@
                    && fields@[k].value.word == Some(handle.generation) && forall|j: int|
                    0 <= j < k ==> (#[trigger] fields@[j]).name@ != "generation"@
        },
{
    let fields = value.fields->0@;
    law_field_found(fields, "class_idx"@);
    law_field_found(fields, "extent_idx"@);
    law_field_found(fields, "slot_idx"@);
    law_field_found(fields, "generation"@);
}

/// In a `ShmBytes` a walk finds the handle in the first field that is named `handle`, and nothing
/// else, whatever else the value holds.
pub proof fn law_walk_buffer(value: Reflected, fields: Seq<ReflectedField>, k: int)
    requires
        value.type_identifier@ == "ShmBytes"@,
        value.fields matches Some(all) && all@ == fields,
        0 <= k < fields.len(),
        fields[k].name@ == "handle"@,
        forall|j: int| 0 <= j < k ==> (#[trigger] fields[j]).name@ != "handle"@,
    ensures
        is_buffer(value),
        buffer_handle(value) == as_handle(fields[k].value),
        as_handle(fields[k].value) matches Some(handle) ==> handles(value) == seq![handle],
        as_handle(fields[k].value) is None ==> handles(value).len() == 0,
{
    law_first_field(fields, "handle"@, k);
}

/// In a `ShmBytes` without a field that is named `handle` a walk finds nothing.
pub proof fn law_walk_odd_buffer(value: Reflected)
    requires
        value.type_identifier@ == "ShmBytes"@,
        value.fields matches Some(fields) ==> forall|j: int|
            0 <= j < fields@.len() ==> (#[trigger] fields@[j]).name@ != "handle"@,
    ensures
        is_buffer(value),
        buffer_handle(value) is None,
        handles(value).len() == 0,
{
    if let Some(fields) = value.fields {
        law_no_field(fields@, "handle"@);
    }
}

/// Only what is named so is a `ShmBytes`.
pub proof fn law_buffer_by_name(value: Reflected)
    ensures
        is_buffer(value) <==> value.type_identifier@ == "ShmBytes"@,
{
}

/// In an option a walk finds what it finds in the value inside, and nothing in an empty one.
pub proof fn law_walk_option(value: Reflected)
    requires
        value.type_identifier@ != "ShmBytes"@,
        value.option is Some,
    ensures
        value.option == Some(None::<Box<Reflected>>) ==> handles(value).len() == 0,
        value.option matches Some(Some(inner)) ==> handles(value) == handles(*inner),
{
}

/// In a `Result` or a box a walk finds what it finds in the value inside.
pub proof fn law_walk_result_or_box(value: Reflected)
    requires
        value.type_identifier@ != "ShmBytes"@,
        value.option is None,
    ensures
        value.result matches Some(inner) ==> handles(value) == handles(*inner),
        value.result is None ==> (value.boxed matches Some(inner) ==> handles(value) == handles(
            *inner,
        )),
{
}

/// In a struct a walk finds what it finds in each of its fields, one after the other.
pub proof fn law_walk_fields(value: Reflected, fields: Seq<ReflectedField>)
    requires
        value.type_identifier@ != "ShmBytes"@,
        value.option is None,
        value.result is None,
        value.boxed is None,
        value.fields matches Some(all) && all@ == fields,
    ensures
        handles(value) == fields.map_values(|field: ReflectedField| handles(field.value)).flatten(),
        forall|k: int, handle: VarSlotHandle|
            0 <= k < fields.len() && #[trigger] handles(fields[k].value).contains(handle)
                ==> handles(value).contains(handle),
{
    let each = |field: ReflectedField| handles(field.value);
    lemma_fields_in_turn(fields, fields.len());
    assert(fields.take(fields.len() as int) =~= fields);
    lemma_parts_are_found(fields.map_values(each));
    assert forall|k: int, handle: VarSlotHandle|
        0 <= k < fields.len() && #[trigger] handles(fields[k].value).contains(
            handle,
        ) implies handles(value).contains(handle) by {
        assert(fields.map_values(each)[k] == handles(fields[k].value));
    }
}

/// In an enum a walk finds what it finds in each field of the active variant, one after the other.
pub proof fn law_walk_variant(value: Reflected, variant: Seq<Reflected>)
    requires
        value.type_identifier@ != "ShmBytes"@,
        value.option is None,
        value.result is None,
        value.boxed is None,
        value.fields is None,
        value.variant matches Some(all) && all@ == variant,
    ensures
        handles(value) == variant.map_values(|part: Reflected| handles(part)).flatten(),
        forall|k: int, handle: VarSlotHandle|
            0 <= k < variant.len() && #[trigger] handles(variant[k]).contains(handle) ==> handles(
                value,
            ).contains(handle),
{
    lemma_values_walked(variant);
}

/// In a list, array or slice a walk finds what it finds in each item, one after the other.
pub proof fn law_walk_items(value: Reflected, items: Seq<Reflected>)
    requires
        value.type_identifier@ != "ShmBytes"@,
        value.option is None,
        value.result is None,
        value.boxed is None,
        value.fields is None,
        value.variant is None,
        value.items matches Some(all) && all@ == items,
    ensures
        handles(value) == items.map_values(|item: Reflected| handles(item)).flatten(),
        forall|k: int, handle: VarSlotHandle|
            0 <= k < items.len() && #[trigger] handles(items[k]).contains(handle) ==> handles(
                value,
            ).contains(handle),
{
    lemma_values_walked(items);
}

/// In anything else a walk finds nothing.
pub proof fn law_walk_leaf(value: Reflected)
    requires
        value.type_identifier@ != "ShmBytes"@,
        value.option is None,
        value.result is None,
        value.boxed is None,
        value.fields is None,
        value.variant is None,
        value.items is None,
    ensures
        handles(value).len() == 0,
{
}

/// The handles in the first `n` fields are those of each, one after the other.
proof fn lemma_fields_in_turn(fields: Seq<ReflectedField>, n: nat)
    requires
        n <= fields.len(),
    ensures
        handles_in_fields(fields, n) == fields.take(n as int).map_values(
            |field: ReflectedField| handles(field.value),
        ).flatten(),
    decreases n,
{
    let each = |field: ReflectedField| handles(field.value);
    let parts = fields.take(n as int).map_values(each);
    if n == 0 {
        assert(parts.len() == 0);
    } else {
        lemma_fields_in_turn(fields, (n - 1) as nat);
        assert(parts.drop_last() =~= fields.take(n - 1).map_values(each));
        assert(parts.last() == handles(fields[n - 1].value));
        parts.lemma_flatten_and_flatten_alt_are_equivalent();
        parts.drop_last().lemma_flatten_and_flatten_alt_are_equivalent();
    }
}

/// The handles in the first `n` values are those of each, one after the other.
proof fn lemma_values_in_turn(values: Seq<Reflected>, n: nat)
    requires
        n <= values.len(),
    ensures
        handles_in(values, n) == values.take(n as int).map_values(
            |value: Reflected| handles(value),
        ).flatten(),
    decreases n,
{
    let each = |value: Reflected| handles(value);
    let parts = values.take(n as int).map_values(each);
    if n == 0 {
        assert(parts.len() == 0);
    } else {
        lemma_values_in_turn(values, (n - 1) as nat);
        assert(parts.drop_last() =~= values.take(n - 1).map_values(each));
        assert(parts.last() == handles(values[n - 1]));
        parts.lemma_flatten_and_flatten_alt_are_equivalent();
        parts.drop_last().lemma_flatten_and_flatten_alt_are_equivalent();
    }
}

/// A walk over values finds what it finds in each, one after the other.
proof fn lemma_values_walked(values: Seq<Reflected>)
    ensures
        handles_in(values, values.len()) == values.map_values(
            |value: Reflected| handles(value),
        ).flatten(),
        forall|k: int, handle: VarSlotHandle|
            0 <= k < values.len() && #[trigger] handles(values[k]).contains(handle) ==> handles_in(
                values,
                values.len(),
            ).contains(handle),
{
    let each = |value: Reflected| handles(value);
    lemma_values_in_turn(values, values.len());
    assert(values.take(values.len() as int) =~= values);
    lemma_parts_are_found(values.map_values(each));
    assert forall|k: int, handle: VarSlotHandle|
        0 <= k < values.len() && #[trigger] handles(values[k]).contains(handle) implies handles_in(
        values,
        values.len(),
    ).contains(handle) by {
        assert(values.map_values(each)[k] == handles(values[k]));
    }
}

/// What is in one of several lists is in all of them together.
proof fn lemma_parts_are_found(parts: Seq<Seq<VarSlotHandle>>)
    ensures
        forall|k: int, handle: VarSlotHandle|
            0 <= k < parts.len() && #[trigger] parts[k].contains(handle)
                ==> parts.flatten().contains(handle),
    decreases parts.len(),
{
    if parts.len() > 0 {
        let rest = parts.drop_first();
        lemma_parts_are_found(rest);
        assert(parts.flatten() == parts.first() + rest.flatten());
        assert forall|k: int, handle: VarSlotHandle|
            0 <= k < parts.len() && #[trigger] parts[k].contains(
                handle,
            ) implies parts.flatten().contains(handle) by {
            if k == 0 {
                let i = choose|i: int| 0 <= i < parts[0].len() && parts[0][i] == handle;
                assert(parts.flatten()[i] == handle);
            } else {
                assert(rest[k - 1] == parts[k]);
                assert(rest[k - 1].contains(handle));
                let i = choose|i: int| 0 <= i < rest.flatten().len() && rest.flatten()[i] == handle;
                assert(parts.flatten()[parts.first().len() + i] == handle);
            }
        }
    }
}

/// A value is a part of itself, and so is every part of what is inside it: of the value in an
/// option, a `Result` or a box, of every field, of every field of the active variant, of every item
/// of a list. A `ShmBytes` has no parts but itself.
pub proof fn law_parts(part: Reflected, whole: Reflected)
    ensures
        part_of(whole, whole),
        whole.type_identifier@ == "ShmBytes"@ && part_of(part, whole) ==> part == whole,
        whole.type_identifier@ != "ShmBytes"@ && part != whole ==> {
            &&& whole.option matches Some(option) ==> (part_of(part, whole) <==> option is Some
                && part_of(part, *option->0))
            &&& whole.option is None ==> {
                &&& whole.result matches Some(inner) ==> (part_of(part, whole) <==> part_of(
                    part,
                    *inner,
                ))
                &&& whole.result is None ==> {
                    &&& whole.boxed matches Some(inner) ==> (part_of(part, whole) <==> part_of(
                        part,
                        *inner,
                    ))
                    &&& whole.boxed is None ==> {
                        &&& whole.fields matches Some(fields) ==> (part_of(part, whole)
                            <==> exists|k: int|
                            0 <= k < fields@.len() && part_of(part, #[trigger] fields@[k].value))
                        &&& whole.fields is None ==> {
                            &&& whole.variant matches Some(variant) ==> (part_of(part, whole)
                                <==> exists|k: int|
                                0 <= k < variant@.len() && part_of(part, #[trigger] variant@[k]))
                            &&& whole.variant is None ==> {
                                &&& whole.items matches Some(items) ==> (part_of(part, whole)
                                    <==> exists|k: int|
                                    0 <= k < items@.len() && part_of(part, #[trigger] items@[k]))
                                &&& whole.items is None ==> !part_of(part, whole)
                            }
                        }
                    }
                }
            }
        },
{
    if let Some(fields) = whole.fields {
        lemma_part_of_fields(part, fields@, fields@.len());
    }
    if let Some(variant) = whole.variant {
        lemma_part_of_any(part, variant@, variant@.len());
    }
    if let Some(items) = whole.items {
        lemma_part_of_any(part, items@, items@.len());
    }
}

/// A part of the first `n` values is a part of one of them.
proof fn lemma_part_of_any(part: Reflected, values: Seq<Reflected>, n: nat)
    requires
        n <= values.len(),
    ensures
        part_of_any(part, values, n) <==> exists|k: int|
            0 <= k < n && part_of(part, #[trigger] values[k]),
    decreases n,
{
    if n > 0 {
        lemma_part_of_any(part, values, (n - 1) as nat);
        if part_of(part, values[n - 1]) {
            assert(0 <= n - 1 < n);
        }
    }
}

/// A part of the first `n` fields is a part of one of them.
proof fn lemma_part_of_fields(part: Reflected, fields: Seq<ReflectedField>, n: nat)
    requires
        n <= fields.len(),
    ensures
        part_of_fields(part, fields, n) <==> exists|k: int|
            0 <= k < n && part_of(part, #[trigger] fields[k].value),
    decreases n,
{
    if n > 0 {
        lemma_part_of_fields(part, fields, (n - 1) as nat);
        if part_of(part, fields[n - 1].value) {
            assert(0 <= n - 1 < n);
        }
    }
}

} // verus!
