//! Reflection by `facet`.
//!
//! `facet::Peek` looks into any Rust value whose type implements `Facet`. What it shows is taken
//! to be a tree of plain values, [`peek_contents`]. The functions of this module each make one
//! inquiry of `facet`, and are believed to answer from that tree; `Inspect` for [`FacetView`] is
//! made of them. The tree is finite: an inquiry leads from a value to one that it owns.

use vstd::prelude::*;

use crate::reflect::{named, Inspect, Reflected};

verus! {

/// A view into a Rust value.
#[verifier::external_type_specification]
#[verifier::external_body]
pub struct ExPeek<'mem, 'facet>(facet::Peek<'mem, 'facet>);

/// A view into a Rust value that could write to it.
#[verifier::external_type_specification]
#[verifier::external_body]
pub struct ExPoke<'mem, 'facet>(facet::Poke<'mem, 'facet>);

/// A Rust type, as reflection describes it.
#[verifier::external_type_specification]
#[verifier::external_body]
pub struct ExShape(facet::Shape);

/// What a `facet::Peek` shows of the value that it looks at, where `handle_shape` is the type that
/// stands for a slot handle.
///
/// An enum shows the fields of its active variant where [`shows_variant`] holds, and is no enum
/// to the tree otherwise.
pub uninterp spec fn peek_contents(
    peek: facet::Peek<'_, '_>,
    handle_shape: &facet::Shape,
) -> Reflected;

/// What a `facet::Poke` shows of the value that it looks at, where `handle_shape` is the type that
/// stands for a slot handle.
pub uninterp spec fn poke_contents(
    poke: facet::Poke<'_, '_>,
    handle_shape: &facet::Shape,
) -> Reflected;

/// The discriminant that `facet` reads of an enum.
pub uninterp spec fn peek_read(peek: facet::Peek<'_, '_>) -> Option<i64>;

/// The discriminants that the variants of an enum declare, in the order of the variants.
pub uninterp spec fn peek_declared(peek: facet::Peek<'_, '_>) -> Seq<Option<i64>>;

/// `facet` can tell the active variant: one declares the discriminant that is read.
pub open spec fn shows_variant(peek: facet::Peek<'_, '_>) -> bool {
    peek_read(peek) is Some && peek_declared(peek).contains(peek_read(peek))
}

/// The active variant can be told exactly if a discriminant is read and some variant declares it.
pub proof fn law_shows_variant(peek: facet::Peek<'_, '_>)
    ensures
        shows_variant(peek) <==> (peek_read(peek) matches Some(read) && exists|i: int|
            0 <= i < peek_declared(peek).len() && #[trigger] peek_declared(peek)[i] == Some(read)),
{
}

/// A value that `facet` looks at, together with the type that stands for a slot handle in it.
#[derive(Clone, Copy)]
pub struct FacetView<'mem, 'facet> {
    /// The value.
    pub peek: facet::Peek<'mem, 'facet>,
    /// The type that stands for a slot handle.
    pub handle_shape: &'static facet::Shape,
}

impl<'mem, 'facet> FacetView<'mem, 'facet> {
    /// What `facet` shows of the value.
    pub open spec fn shown(self) -> Reflected {
        peek_contents(self.peek, self.handle_shape)
    }
}

/// `facet::Poke::into_peek`: a view of the same value that only reads.
#[verifier::external_body]
pub(crate) fn poke_into_peek<'mem, 'facet>(poke: facet::Poke<'mem, 'facet>) -> (peek: facet::Peek<
    'mem,
    'facet,
>)
    ensures
        forall|handle_shape: &facet::Shape| #[trigger]
            peek_contents(peek, handle_shape) == poke_contents(poke, handle_shape),
{
    poke.into_peek()
}

/// `facet::Peek::shape`: its `type_identifier` is the name of the value's type.
#[verifier::external_body]
fn view_type_identifier(view: FacetView<'_, '_>) -> (name: &'static str)
    ensures
        name@ == view.shown().type_identifier@,
{
    view.peek.shape().type_identifier
}

/// `facet::Peek::shape` and `Shape::is_shape`: whether the value's type is the very type that
/// stands for a slot handle. Types are compared by their identity, not by their names.
#[verifier::external_body]
fn view_is_handle(view: FacetView<'_, '_>) -> (same: bool)
    ensures
        same == view.shown().is_handle,
{
    view.peek.shape().is_shape(view.handle_shape)
}

/// `facet::Peek::into_option` and `PeekOption::value`: an error if the value is no option, else
/// a view of the value in the option, or `None` if the option is `None`.
#[verifier::external_body]
fn view_option<'mem, 'facet>(view: FacetView<'mem, 'facet>) -> (option: Option<
    Option<FacetView<'mem, 'facet>>,
>)
    ensures
        match view.shown().option {
            None => option is None,
            Some(None) => option matches Some(None),
            Some(Some(value)) => option matches Some(Some(inner)) && inner.shown() == *value,
        },
{
    let option = view.peek.into_option().ok()?;
    Some(option.value().map(|peek| FacetView { peek, ..view }))
}

/// `facet::Peek::into_result`, `PeekResult::ok` and `PeekResult::err`: an error if the value is no
/// `Result`, else a view of the value on the side that there is.
#[verifier::external_body]
fn view_result<'mem, 'facet>(view: FacetView<'mem, 'facet>) -> (value: Option<
    FacetView<'mem, 'facet>,
>)
    ensures
        match view.shown().result {
            None => value is None,
            Some(value_in) => value matches Some(inner) && inner.shown() == *value_in,
        },
{
    let result = view.peek.into_result().ok()?;
    result.ok().or(result.err()).map(|peek| FacetView { peek, ..view })
}

/// `facet::Peek::into_pointer` and `PeekPointer::borrow_inner`: an error if the value is no smart
/// pointer, else a view of the value that it points to. Of the smart pointers only a box is asked.
#[verifier::external_body]
fn view_boxed<'mem, 'facet>(view: FacetView<'mem, 'facet>) -> (value: Option<
    FacetView<'mem, 'facet>,
>)
    ensures
        match view.shown().boxed {
            None => value is None,
            Some(value_in) => value matches Some(inner) && inner.shown() == *value_in,
        },
{
    let pointer = view.peek.into_pointer().ok()?;
    match pointer.def().known {
        Some(facet::KnownPointer::Box) => {
            pointer.borrow_inner().map(|peek| FacetView { peek, ..view })
        },
        _ => None,
    }
}

/// `facet::Peek::into_struct` and `PeekStruct::field_count`: an error if the value is no struct
/// or tuple, else the number of its fields.
#[verifier::external_body]
fn view_field_count(view: FacetView<'_, '_>) -> (count: Option<usize>)
    ensures
        match view.shown().fields {
            None => count is None,
            Some(fields) => count matches Some(n) && n == fields@.len(),
        },
{
    view.peek.into_struct().ok().map(|fields| fields.field_count())
}

/// `facet::Peek::into_struct` and `PeekStruct::field`: an error if the value is no struct or tuple
/// or has no field at the index, else a view of that field.
#[verifier::external_body]
fn view_field<'mem, 'facet>(view: FacetView<'mem, 'facet>, index: usize) -> (field: Option<
    FacetView<'mem, 'facet>,
>)
    ensures
        match view.shown().fields {
            None => field is None,
            Some(fields) => if index < fields@.len() {
                field matches Some(f) && f.shown() == fields@[index as int].value
            } else {
                field is None
            },
        },
{
    let peek = view.peek.into_struct().ok()?.field(index).ok()?;
    Some(FacetView { peek, ..view })
}

/// `facet::Peek::into_struct` and `PeekStruct::field_by_name`: an error if the value is no struct
/// or tuple or has no field of that name, else a view of the first field of that name.
#[verifier::external_body]
fn view_field_by_name<'mem, 'facet>(view: FacetView<'mem, 'facet>, name: &str) -> (field: Option<
    FacetView<'mem, 'facet>,
>)
    ensures
        match named(view.shown(), name@) {
            None => field is None,
            Some(value) => field matches Some(f) && f.shown() == value,
        },
{
    let peek = view.peek.into_struct().ok()?.field_by_name(name).ok()?;
    Some(FacetView { peek, ..view })
}

/// `facet::Peek::into_enum` and `PeekEnum::discriminant`: an error if the value is no enum, else
/// the discriminant as its representation reads it. An option that needs no discriminant reads as
/// 0, which both of its variants declare.
///
/// `discriminant` panics on an enum whose layout the compiler chose, so there is none to read
/// then. What is read need not be what a variant declares: an enum that is `repr(C)` is read
/// unsigned, also where it declares a negative discriminant. `facet` cannot tell the active
/// variant of such a value, so the value shows none.
#[verifier::external_body]
fn view_discriminant(view: FacetView<'_, '_>) -> (read: Option<i64>)
    ensures
        read == peek_read(view.peek),
        !(read is Some && peek_declared(view.peek).contains(read)) ==> view.shown().variant
            is None,
{
    let value = view.peek.into_enum().ok()?;
    match value.enum_repr() {
        facet::EnumRepr::Rust => None,
        _ => Some(value.discriminant()),
    }
}

/// `facet::Peek::into_enum` and `PeekEnum::variant_count`: an error if the value is no enum, else
/// the number of variants that its type has.
#[verifier::external_body]
fn view_variant_count(view: FacetView<'_, '_>) -> (count: Option<usize>)
    ensures
        match count {
            Some(n) => n == peek_declared(view.peek).len(),
            None => peek_declared(view.peek).len() == 0,
        },
{
    view.peek.into_enum().ok().map(|value| value.variant_count())
}

/// `facet::Peek::into_enum` and `PeekEnum::variants`: an error if the value is no enum, else the
/// variants of its type, each with the discriminant that it declares, if it declares one.
#[verifier::external_body]
fn view_variant_discriminant(view: FacetView<'_, '_>, index: usize) -> (declared: Option<
    Option<i64>,
>)
    ensures
        declared == if index < peek_declared(view.peek).len() {
            Some(peek_declared(view.peek)[index as int])
        } else {
            None
        },
{
    view.peek.into_enum().ok()?.variants().get(index).map(|variant| variant.discriminant)
}

/// `facet::Peek::into_enum` and `PeekEnum::active_variant`: the active variant, which lists its
/// fields.
///
/// `active_variant` looks for the variant that declares the discriminant that is read, and panics
/// if there is none. Of an option it asks whether there is a value in it, which finds a variant in
/// any case.
#[verifier::external_body]
fn view_variant_field_count(view: FacetView<'_, '_>) -> (count: Option<usize>)
    requires
        shows_variant(view.peek),
    ensures
        match view.shown().variant {
            None => count is None,
            Some(variant) => count matches Some(n) && n == variant@.len(),
        },
{
    view.peek.into_enum().ok()?.active_variant().ok().map(|variant| variant.data.fields.len())
}

/// `facet::Peek::into_enum` and `PeekEnum::field`: a view of a field of the active variant, or
/// `None` if the variant has no field at the index.
///
/// `field` asks for the active variant first, so a value that shows none is left out.
#[verifier::external_body]
fn view_variant_field<'mem, 'facet>(view: FacetView<'mem, 'facet>, index: usize) -> (field: Option<
    FacetView<'mem, 'facet>,
>)
    requires
        view.shown().variant is Some,
    ensures
        match view.shown().variant {
            None => field is None,
            Some(variant) => if index < variant@.len() {
                field matches Some(f) && f.shown() == variant@[index as int]
            } else {
                field is None
            },
        },
{
    let peek = view.peek.into_enum().ok()?.field(index).ok()??;
    Some(FacetView { peek, ..view })
}

/// `facet::Peek::into_list_like` and `PeekListLike::len`: the number of items of a list, array or
/// slice.
///
/// A pointer to a slice is not asked: `into_list_like` would follow it, also where it is a raw
/// pointer.
#[verifier::external_body]
fn view_item_count(view: FacetView<'_, '_>) -> (count: Option<usize>)
    ensures
        match view.shown().items {
            None => count is None,
            Some(items) => count matches Some(n) && n == items@.len(),
        },
{
    match view.peek.shape().def {
        facet::Def::List(_) | facet::Def::Array(_) | facet::Def::Slice(_) => {
            view.peek.into_list_like().ok().map(|items| items.len())
        },
        _ => None,
    }
}

/// `facet::Peek::into_list_like` and `PeekListLike::get`: a view of the item of a list, array or
/// slice at the index, or `None` if the index is out of bounds. A pointer to a slice is not asked,
/// as for `view_item_count`.
#[verifier::external_body]
fn view_item<'mem, 'facet>(view: FacetView<'mem, 'facet>, index: usize) -> (item: Option<
    FacetView<'mem, 'facet>,
>)
    ensures
        match view.shown().items {
            None => item is None,
            Some(items) => if index < items@.len() {
                item matches Some(i) && i.shown() == items@[index as int]
            } else {
                item is None
            },
        },
{
    match view.peek.shape().def {
        facet::Def::List(_) | facet::Def::Array(_) | facet::Def::Slice(_) => {
            let peek = view.peek.into_list_like().ok()?.get(index)?;
            Some(FacetView { peek, ..view })
        },
        _ => None,
    }
}

/// `facet::Peek::get` at `u8`: an error if the value is of another type, else the number.
#[verifier::external_body]
fn view_byte(view: FacetView<'_, '_>) -> (number: Option<u8>)
    ensures
        number == view.shown().byte,
{
    view.peek.get::<u8>().ok().map(|number| *number)
}

/// `facet::Peek::get` at `u32`: an error if the value is of another type, else the number.
#[verifier::external_body]
fn view_word(view: FacetView<'_, '_>) -> (number: Option<u32>)
    ensures
        number == view.shown().word,
{
    view.peek.get::<u32>().ok().map(|number| *number)
}

/// Whether `facet` can tell the active variant of a value.
fn can_show_variant(view: FacetView<'_, '_>) -> (found: bool)
    ensures
        found == shows_variant(view.peek),
        !found ==> view.shown().variant is None,
{
    let read: Option<i64> = view_discriminant(view);
    let count: usize = view_variant_count(view).unwrap_or(0);
    if read.is_none() {
        return false;
    }
    let mut i: usize = 0;
    while i < count
        invariant
            i <= count,
            count == peek_declared(view.peek).len(),
            read is Some,
            read == peek_read(view.peek),
            forall|k: int| 0 <= k < i ==> #[trigger] peek_declared(view.peek)[k] != read,
        decreases count - i,
    {
        if let Some(declared) = view_variant_discriminant(view, i) {
            if declared == read {
                assert(peek_declared(view.peek)[i as int] == read);
                return true;
            }
        }
        i += 1;
    }
    false
}

impl<'mem, 'facet> Inspect for FacetView<'mem, 'facet> {
    open spec fn contents(&self) -> Reflected {
        self.shown()
    }

    fn type_identifier(&self) -> (name: &str) {
        view_type_identifier(*self)
    }

    fn is_handle(&self) -> (same: bool) {
        view_is_handle(*self)
    }

    fn option(&self) -> (option: Option<Option<Self>>) {
        view_option(*self)
    }

    fn result(&self) -> (value: Option<Self>) {
        view_result(*self)
    }

    fn boxed(&self) -> (value: Option<Self>) {
        view_boxed(*self)
    }

    fn field_count(&self) -> (count: Option<usize>) {
        view_field_count(*self)
    }

    fn field(&self, index: usize) -> (field: Option<Self>) {
        view_field(*self, index)
    }

    fn field_by_name(&self, name: &str) -> (field: Option<Self>) {
        view_field_by_name(*self, name)
    }

    fn variant_field_count(&self) -> (count: Option<usize>) {
        if can_show_variant(*self) {
            view_variant_field_count(*self)
        } else {
            None
        }
    }

    fn variant_field(&self, index: usize) -> (field: Option<Self>) {
        view_variant_field(*self, index)
    }

    fn item_count(&self) -> (count: Option<usize>) {
        view_item_count(*self)
    }

    fn item(&self, index: usize) -> (item: Option<Self>) {
        view_item(*self, index)
    }

    fn byte(&self) -> (number: Option<u8>) {
        view_byte(*self)
    }

    fn word(&self) -> (number: Option<u32>) {
        view_word(*self)
    }
}

} // verus!
