//! Looking into values by reflection.
//!
//! [`Reflected`] is what reflection says of a value, as a tree of plain values. [`Inspect`] reads
//! such a tree: one in memory, or the one that `facet` shows of a Rust value (see
//! [`facet_view`](crate::facet_view)). [`find_handles`] walks it.
//!
//! A walk enters what a value owns: what is in an option, a `Result` or a box, the fields of structs
//! and tuples, the fields of the active variant of an enum, and the items of lists, arrays and
//! slices. It does not enter references, counted pointers and locks, whose values others may hold
//! too, nor maps and sets, which need have no order: a `ShmBytes` in one of these is not found.

use vstd::prelude::*;

use crate::shm_bytes::ShmBytes;
use crate::var_slot_pool::VarSlotHandle;

verus! {

/// What reflection says of one value.
///
/// The parts are independent: a value may be an option and, to the reflection, an enum too.
pub struct Reflected {
    /// Name of the value's type.
    pub type_identifier: String,
    /// Whether the value's type is the one that stands for a [`VarSlotHandle`].
    pub is_handle: bool,
    /// For an option: the value in it, if there is one.
    pub option: Option<Option<Box<Reflected>>>,
    /// For a `Result`: the value in it, be it on the `Ok` or on the `Err` side.
    pub result: Option<Box<Reflected>>,
    /// For a box: the value in it.
    pub boxed: Option<Box<Reflected>>,
    /// For a struct or tuple: its fields.
    pub fields: Option<Vec<ReflectedField>>,
    /// For an enum whose active variant can be told: the fields of that variant.
    pub variant: Option<Vec<Reflected>>,
    /// For a list, array or slice: its items.
    pub items: Option<Vec<Reflected>>,
    /// For a `u8`: the number.
    pub byte: Option<u8>,
    /// For a `u32`: the number.
    pub word: Option<u32>,
}

/// A field of a struct or tuple.
pub struct ReflectedField {
    /// Name of the field.
    pub name: String,
    /// Its value.
    pub value: Reflected,
}

/// The value of the first field that is named `name`.
pub open spec fn first_named(fields: Seq<ReflectedField>, name: Seq<char>) -> Option<Reflected>
    decreases fields.len(),
{
    if fields.len() == 0 {
        None
    } else if fields[0].name@ == name {
        Some(fields[0].value)
    } else {
        first_named(fields.drop_first(), name)
    }
}

/// The value of the field of `value` that is named `name`, if `value` is a struct with one.
pub open spec fn named(value: Reflected, name: Seq<char>) -> Option<Reflected> {
    match value.fields {
        Some(fields) => first_named(fields@, name),
        None => None,
    }
}

/// The `u8` in the field of `value` that is named `name`.
pub open spec fn named_byte(value: Reflected, name: Seq<char>) -> Option<u8> {
    match named(value, name) {
        Some(field) => field.byte,
        None => None,
    }
}

/// The `u32` in the field of `value` that is named `name`.
pub open spec fn named_word(value: Reflected, name: Seq<char>) -> Option<u32> {
    match named(value, name) {
        Some(field) => field.word,
        None => None,
    }
}

/// `value` as a slot handle, which it is by its type.
pub open spec fn as_handle(value: Reflected) -> Option<VarSlotHandle> {
    if !value.is_handle {
        None
    } else {
        match (
            named_byte(value, "class_idx"@),
            named_byte(value, "extent_idx"@),
            named_word(value, "slot_idx"@),
            named_word(value, "generation"@),
        ) {
            (Some(class_idx), Some(extent_idx), Some(slot_idx), Some(generation)) => Some(
                VarSlotHandle { class_idx, extent_idx, slot_idx, generation },
            ),
            _ => None,
        }
    }
}

/// The handle in the field `handle` of `value`.
pub open spec fn buffer_handle(value: Reflected) -> Option<VarSlotHandle> {
    match named(value, "handle"@) {
        Some(field) => as_handle(field),
        None => None,
    }
}

/// Whether `value` is a `ShmBytes`.
pub open spec fn is_buffer(value: Reflected) -> bool {
    value.type_identifier@ == "ShmBytes"@
}

/// The handles of all `ShmBytes` that a walk comes to in `value`, in that order.
pub open spec fn handles(value: Reflected) -> Seq<VarSlotHandle>
    decreases value, 0nat,
{
    if is_buffer(value) {
        match buffer_handle(value) {
            Some(handle) => seq![handle],
            None => Seq::empty(),
        }
    } else if let Some(option) = value.option {
        match option {
            Some(inner) => handles(*inner),
            None => Seq::empty(),
        }
    } else if let Some(inner) = value.result {
        handles(*inner)
    } else if let Some(inner) = value.boxed {
        handles(*inner)
    } else if let Some(fields) = value.fields {
        handles_in_fields(fields@, fields@.len())
    } else if let Some(variant) = value.variant {
        handles_in(variant@, variant@.len())
    } else if let Some(items) = value.items {
        handles_in(items@, items@.len())
    } else {
        Seq::empty()
    }
}

/// The handles of all `ShmBytes` in the first `n` of `values`.
pub open spec fn handles_in(values: Seq<Reflected>, n: nat) -> Seq<VarSlotHandle>
    decreases values, n,
{
    if n == 0 || n > values.len() {
        Seq::empty()
    } else {
        handles_in(values, (n - 1) as nat) + handles(values[n - 1])
    }
}

/// The handles of all `ShmBytes` in the first `n` of `fields`.
pub open spec fn handles_in_fields(fields: Seq<ReflectedField>, n: nat) -> Seq<VarSlotHandle>
    decreases fields, n,
{
    if n == 0 || n > fields.len() {
        Seq::empty()
    } else {
        handles_in_fields(fields, (n - 1) as nat) + handles(fields[n - 1].value)
    }
}

/// `part` is `whole`, or is inside it where a walk looks: in an option, a `Result` or a box, in the
/// fields of a struct or of the active variant of an enum, among the items of a list, array or
/// slice.
pub open spec fn part_of(part: Reflected, whole: Reflected) -> bool
    decreases whole, 0nat,
{
    part == whole || (!is_buffer(whole) && if let Some(option) = whole.option {
        match option {
            Some(inner) => part_of(part, *inner),
            None => false,
        }
    } else if let Some(inner) = whole.result {
        part_of(part, *inner)
    } else if let Some(inner) = whole.boxed {
        part_of(part, *inner)
    } else if let Some(fields) = whole.fields {
        part_of_fields(part, fields@, fields@.len())
    } else if let Some(variant) = whole.variant {
        part_of_any(part, variant@, variant@.len())
    } else if let Some(items) = whole.items {
        part_of_any(part, items@, items@.len())
    } else {
        false
    })
}

/// `part` is one of the first `n` of `values`, or is inside it.
pub open spec fn part_of_any(part: Reflected, values: Seq<Reflected>, n: nat) -> bool
    decreases values, n,
{
    0 < n <= values.len() && (part_of(part, values[n - 1]) || part_of_any(
        part,
        values,
        (n - 1) as nat,
    ))
}

/// `part` is one of the first `n` of `fields`, or is inside it.
pub open spec fn part_of_fields(part: Reflected, fields: Seq<ReflectedField>, n: nat) -> bool
    decreases fields, n,
{
    0 < n <= fields.len() && (part_of(part, fields[n - 1].value) || part_of_fields(
        part,
        fields,
        (n - 1) as nat,
    ))
}

/// A value that can be read by reflection.
pub trait Inspect: Sized {
    /// What reflection says of the value.
    spec fn contents(&self) -> Reflected;

    /// Name of the value's type.
    fn type_identifier(&self) -> (name: &str)
        ensures
            name@ == self.contents().type_identifier@,
    ;

    /// Whether the value's type is the one that stands for a [`VarSlotHandle`].
    fn is_handle(&self) -> (same: bool)
        ensures
            same == self.contents().is_handle,
    ;

    /// For an option: the value in it, if there is one.
    fn option(&self) -> (option: Option<Option<Self>>)
        ensures
            match self.contents().option {
                None => option is None,
                Some(None) => option matches Some(None),
                Some(Some(value)) => option matches Some(Some(inner)) && inner.contents() == *value,
            },
    ;

    /// For a `Result`: the value in it.
    fn result(&self) -> (value: Option<Self>)
        ensures
            match self.contents().result {
                None => value is None,
                Some(value_in) => value matches Some(inner) && inner.contents() == *value_in,
            },
    ;

    /// For a box: the value in it.
    fn boxed(&self) -> (value: Option<Self>)
        ensures
            match self.contents().boxed {
                None => value is None,
                Some(value_in) => value matches Some(inner) && inner.contents() == *value_in,
            },
    ;

    /// For a struct or tuple: the number of its fields.
    fn field_count(&self) -> (count: Option<usize>)
        ensures
            match self.contents().fields {
                None => count is None,
                Some(fields) => count matches Some(n) && n == fields@.len(),
            },
    ;

    /// For a struct or tuple: the value of a field.
    fn field(&self, index: usize) -> (field: Option<Self>)
        ensures
            match self.contents().fields {
                None => field is None,
                Some(fields) => if index < fields@.len() {
                    field matches Some(f) && f.contents() == fields@[index as int].value
                } else {
                    field is None
                },
            },
    ;

    /// For a struct or tuple: the value of the first field of that name.
    fn field_by_name(&self, name: &str) -> (field: Option<Self>)
        ensures
            match named(self.contents(), name@) {
                None => field is None,
                Some(value) => field matches Some(f) && f.contents() == value,
            },
    ;

    /// For an enum whose active variant can be told: the number of fields of that variant.
    fn variant_field_count(&self) -> (count: Option<usize>)
        ensures
            match self.contents().variant {
                None => count is None,
                Some(variant) => count matches Some(n) && n == variant@.len(),
            },
    ;

    /// For an enum whose active variant can be told: the value of a field of that variant.
    fn variant_field(&self, index: usize) -> (field: Option<Self>)
        requires
            self.contents().variant is Some,
        ensures
            match self.contents().variant {
                None => field is None,
                Some(variant) => if index < variant@.len() {
                    field matches Some(f) && f.contents() == variant@[index as int]
                } else {
                    field is None
                },
            },
    ;

    /// For a list, array or slice: the number of its items.
    fn item_count(&self) -> (count: Option<usize>)
        ensures
            match self.contents().items {
                None => count is None,
                Some(items) => count matches Some(n) && n == items@.len(),
            },
    ;

    /// For a list, array or slice: an item.
    fn item(&self, index: usize) -> (item: Option<Self>)
        ensures
            match self.contents().items {
                None => item is None,
                Some(items) => if index < items@.len() {
                    item matches Some(i) && i.contents() == items@[index as int]
                } else {
                    item is None
                },
            },
    ;

    /// For a `u8`: the number.
    fn byte(&self) -> (number: Option<u8>)
        ensures
            number == self.contents().byte,
    ;

    /// For a `u32`: the number.
    fn word(&self) -> (number: Option<u32>)
        ensures
            number == self.contents().word,
    ;
}

/// Whether two texts are the same.
fn same_text(a: &str, b: &str) -> (same: bool)
    ensures
        same == (a@ == b@),
{
    a.to_owned() == b.to_owned()
}

impl<'a> Inspect for &'a Reflected {
    open spec fn contents(&self) -> Reflected {
        **self
    }

    fn type_identifier(&self) -> (name: &str) {
        self.type_identifier.as_str()
    }

    fn is_handle(&self) -> (same: bool) {
        self.is_handle
    }

    fn option(&self) -> (option: Option<Option<Self>>) {
        match &self.option {
            None => None,
            Some(None) => Some(None),
            Some(Some(inner)) => Some(Some(&**inner)),
        }
    }

    fn result(&self) -> (value: Option<Self>) {
        match &self.result {
            None => None,
            Some(inner) => Some(&**inner),
        }
    }

    fn boxed(&self) -> (value: Option<Self>) {
        match &self.boxed {
            None => None,
            Some(inner) => Some(&**inner),
        }
    }

    fn field_count(&self) -> (count: Option<usize>) {
        match &self.fields {
            None => None,
            Some(fields) => Some(fields.len()),
        }
    }

    fn field(&self, index: usize) -> (field: Option<Self>) {
        match &self.fields {
            None => None,
            Some(fields) => if index < fields.len() {
                Some(&fields[index].value)
            } else {
                None
            },
        }
    }

    fn field_by_name(&self, name: &str) -> (field: Option<Self>) {
        match &self.fields {
            None => None,
            Some(fields) => {
                let mut i: usize = 0;
                assert(fields@.skip(0) =~= fields@);
                while i < fields.len()
                    invariant
                        i <= fields@.len(),
                        self.contents().fields == Some(*fields),
                        first_named(fields@, name@) == first_named(fields@.skip(i as int), name@),
                    decreases fields@.len() - i,
                {
                    if same_text(fields[i].name.as_str(), name) {
                        return Some(&fields[i].value);
                    }
                    assert(fields@.skip(i as int).drop_first() =~= fields@.skip(i + 1));
                    i += 1;
                }
                None
            },
        }
    }

    fn variant_field_count(&self) -> (count: Option<usize>) {
        match &self.variant {
            None => None,
            Some(variant) => Some(variant.len()),
        }
    }

    fn variant_field(&self, index: usize) -> (field: Option<Self>) {
        match &self.variant {
            None => None,
            Some(variant) => if index < variant.len() {
                Some(&variant[index])
            } else {
                None
            },
        }
    }

    fn item_count(&self) -> (count: Option<usize>) {
        match &self.items {
            None => None,
            Some(items) => Some(items.len()),
        }
    }

    fn item(&self, index: usize) -> (item: Option<Self>) {
        match &self.items {
            None => None,
            Some(items) => if index < items.len() {
                Some(&items[index])
            } else {
                None
            },
        }
    }

    fn byte(&self) -> (number: Option<u8>) {
        self.byte
    }

    fn word(&self) -> (number: Option<u32>) {
        self.word
    }
}

/// The `u8` in the field of `value` that is named `name`.
fn byte_of_field<V: Inspect>(value: &V, name: &str) -> (number: Option<u8>)
    ensures
        number == named_byte(value.contents(), name@),
{
    match value.field_by_name(name) {
        Some(field) => field.byte(),
        None => None,
    }
}

/// The `u32` in the field of `value` that is named `name`.
fn word_of_field<V: Inspect>(value: &V, name: &str) -> (number: Option<u32>)
    ensures
        number == named_word(value.contents(), name@),
{
    match value.field_by_name(name) {
        Some(field) => field.word(),
        None => None,
    }
}

/// `value` as a slot handle.
fn handle_of<V: Inspect>(value: &V) -> (handle: Option<VarSlotHandle>)
    ensures
        handle == as_handle(value.contents()),
{
    if !value.is_handle() {
        return None;
    }
    let class_idx: Option<u8> = byte_of_field(value, "class_idx");
    let extent_idx: Option<u8> = byte_of_field(value, "extent_idx");
    let slot_idx: Option<u32> = word_of_field(value, "slot_idx");
    let generation: Option<u32> = word_of_field(value, "generation");
    match (class_idx, extent_idx, slot_idx, generation) {
        (Some(class_idx), Some(extent_idx), Some(slot_idx), Some(generation)) => Some(
            VarSlotHandle { class_idx, extent_idx, slot_idx, generation },
        ),
        _ => None,
    }
}

/// Adds the handles of all `ShmBytes` that a walk comes to in `value` to `found`.
pub fn find_handles<V: Inspect>(value: &V, found: &mut Vec<VarSlotHandle>)
    ensures
        final(found)@ == old(found)@ + handles(value.contents()),
    decreases value.contents(),
{
    if same_text(value.type_identifier(), "ShmBytes") {
        if let Some(field) = value.field_by_name("handle") {
            if let Some(handle) = handle_of(&field) {
                found.push(handle);
            }
        }
        return;
    }
    if let Some(option) = value.option() {
        if let Some(inner) = option {
            find_handles(&inner, found);
        }
        return;
    }
    if let Some(inner) = value.result() {
        find_handles(&inner, found);
        return;
    }
    if let Some(inner) = value.boxed() {
        find_handles(&inner, found);
        return;
    }
    if let Some(count) = value.field_count() {
        let ghost fields = value.contents().fields->0@;
        let ghost before = found@;
        let mut i: usize = 0;
        while i < count
            invariant
                i <= count,
                value.contents().fields is Some,
                fields == value.contents().fields->0@,
                count == fields.len(),
                found@ == before + handles_in_fields(fields, i as nat),
            decreases count - i,
        {
            if let Some(field) = value.field(i) {
                find_handles(&field, found);
            }
            i += 1;
        }
        return;
    }
    if let Some(count) = value.variant_field_count() {
        let ghost variant = value.contents().variant->0@;
        let ghost before = found@;
        let mut i: usize = 0;
        while i < count
            invariant
                i <= count,
                value.contents().variant is Some,
                variant == value.contents().variant->0@,
                count == variant.len(),
                found@ == before + handles_in(variant, i as nat),
            decreases count - i,
        {
            if let Some(field) = value.variant_field(i) {
                find_handles(&field, found);
            }
            i += 1;
        }
        return;
    }
    if let Some(count) = value.item_count() {
        let ghost items = value.contents().items->0@;
        let ghost before = found@;
        let mut i: usize = 0;
        while i < count
            invariant
                i <= count,
                value.contents().items is Some,
                items == value.contents().items->0@,
                count == items.len(),
                found@ == before + handles_in(items, i as nat),
            decreases count - i,
        {
            if let Some(item) = value.item(i) {
                find_handles(&item, found);
            }
            i += 1;
        }
    }
}

impl Reflected {
    /// A number: a `u8` or a `u32`, or neither.
    fn number(type_identifier: &str, byte: Option<u8>, word: Option<u32>) -> (value: Self)
        ensures
            value.type_identifier@ == type_identifier@,
            value.byte == byte,
            value.word == word,
            !value.is_handle,
            value.option is None,
            value.result is None,
            value.boxed is None,
            value.fields is None,
            value.variant is None,
            value.items is None,
    {
        Reflected {
            type_identifier: type_identifier.to_owned(),
            is_handle: false,
            option: None,
            result: None,
            boxed: None,
            fields: None,
            variant: None,
            items: None,
            byte,
            word,
        }
    }

    /// A struct, which may be one that stands for a [`VarSlotHandle`].
    fn structure(type_identifier: &str, is_handle: bool, fields: Vec<ReflectedField>) -> (value: Self)
        ensures
            value.type_identifier@ == type_identifier@,
            value.is_handle == is_handle,
            value.fields == Some(fields),
            value.option is None,
            value.result is None,
            value.boxed is None,
            value.variant is None,
            value.items is None,
    {
        Reflected {
            type_identifier: type_identifier.to_owned(),
            is_handle,
            option: None,
            result: None,
            boxed: None,
            fields: Some(fields),
            variant: None,
            items: None,
            byte: None,
            word: None,
        }
    }
}

impl ReflectedField {
    /// A field.
    fn new(name: &str, value: Reflected) -> (field: Self)
        ensures
            field.name@ == name@,
            field.value == value,
    {
        ReflectedField { name: name.to_owned(), value }
    }
}

impl VarSlotHandle {
    /// What reflection says of a handle.
    pub fn reflected(&self) -> (value: Reflected)
        ensures
            as_handle(value) == Some(*self),
            value.type_identifier@ == "VarSlotHandle"@,
            value.is_handle,
            value.fields matches Some(fields) && {
                &&& fields@.len() == 4
                &&& fields@[0].name@ == "class_idx"@ && fields@[0].value.byte == Some(
                    self.class_idx,
                )
                &&& fields@[1].name@ == "extent_idx"@ && fields@[1].value.byte == Some(
                    self.extent_idx,
                )
                &&& fields@[2].name@ == "slot_idx"@ && fields@[2].value.word == Some(self.slot_idx)
                &&& fields@[3].name@ == "generation"@ && fields@[3].value.word == Some(
                    self.generation,
                )
            },
    {
        let mut fields: Vec<ReflectedField> = Vec::new();
        fields.push(
            ReflectedField::new("class_idx", Reflected::number("u8", Some(self.class_idx), None)),
        );
        fields.push(
            ReflectedField::new("extent_idx", Reflected::number("u8", Some(self.extent_idx), None)),
        );
        fields.push(
            ReflectedField::new("slot_idx", Reflected::number("u32", None, Some(self.slot_idx))),
        );
        fields.push(
            ReflectedField::new("generation", Reflected::number("u32", None, Some(self.generation))),
        );
        proof {
            reveal_strlit("class_idx");
            reveal_strlit("extent_idx");
            reveal_strlit("slot_idx");
            reveal_strlit("generation");
            assert("extent_idx"@[0] != "generation"@[0]);
            assert("class_idx"@.len() == 9 && "extent_idx"@.len() == 10 && "slot_idx"@.len() == 8);
            assert("generation"@.len() == 10);
            reveal_with_fuel(first_named, 4);
            let from_1 = fields@.drop_first();
            let from_2 = from_1.drop_first();
            let from_3 = from_2.drop_first();
            assert(from_1[0] == fields@[1] && from_2[0] == fields@[2] && from_3[0] == fields@[3]);
            assert(first_named(fields@, "class_idx"@) == Some(fields@[0].value));
            assert(first_named(fields@, "extent_idx"@) == Some(fields@[1].value));
            assert(first_named(fields@, "slot_idx"@) == Some(fields@[2].value));
            assert(first_named(fields@, "generation"@) == Some(fields@[3].value));
        }
        Reflected::structure("VarSlotHandle", true, fields)
    }
}

impl ShmBytes {
    /// What reflection says of a buffer: a struct of the handle and the length.
    pub fn reflected(&self) -> (value: Reflected)
        ensures
            is_buffer(value),
            buffer_handle(value) == Some(self@.handle),
            handles(value) == seq![self@.handle],
            value.type_identifier@ == "ShmBytes"@,
            value.fields matches Some(fields) && {
                &&& fields@.len() == 2
                &&& fields@[0].name@ == "handle"@ && as_handle(fields@[0].value) == Some(
                    self@.handle,
                )
                &&& fields@[1].name@ == "len"@
            },
    {
        let mut fields: Vec<ReflectedField> = Vec::new();
        fields.push(ReflectedField::new("handle", self.handle().reflected()));
        fields.push(ReflectedField::new("len", Reflected::number("usize", None, None)));
        Reflected::structure("ShmBytes", false, fields)
    }
}

} // verus!
