//! Native values: what a payload is decoded into and what a function returns.

use vstd::prelude::*;
use crate::descriptor::{PrimitiveKind, TypeDescriptor};
use crate::value::{Number, Value, ValueModel};

verus! {

/// A decoded native value.
///
/// A 64-bit float carries the number it was given as: an integer stands for
/// the float that it widens to. A record holds its fields' values in declared
/// order. An opaque value carries its codec's identifier and the value as it
/// came, for the host's codec to read.
#[derive(Debug, PartialEq)]
pub enum Native {
    Int32(i32),
    Float64(Number),
    Bool(bool),
    Text(String),
    Absent,
    Present(Box<Native>),
    List(Vec<Native>),
    Record(Vec<Native>),
    Opaque(u64, Value),
}

/// The mathematical content of a [`Native`].
pub ghost enum NativeModel {
    Int32(i32),
    Float64(Number),
    Bool(bool),
    Text(Seq<char>),
    Absent,
    Present(Box<NativeModel>),
    List(Seq<NativeModel>),
    Record(Seq<NativeModel>),
    Opaque(u64, ValueModel),
}

/// The model of a native value.
pub open spec fn native_model(n: Native) -> NativeModel
    decreases n,
{
    match n {
        Native::Int32(i) => NativeModel::Int32(i),
        Native::Float64(x) => NativeModel::Float64(x),
        Native::Bool(b) => NativeModel::Bool(b),
        Native::Text(s) => NativeModel::Text(s@),
        Native::Absent => NativeModel::Absent,
        Native::Present(inner) => NativeModel::Present(Box::new(native_model(*inner))),
        Native::List(items) => NativeModel::List(
            Seq::new(
                items.len() as nat,
                |i: int|
                    if 0 <= i < items.len() {
                        native_model(items[i])
                    } else {
                        NativeModel::Absent
                    },
            ),
        ),
        Native::Record(values) => NativeModel::Record(
            Seq::new(
                values.len() as nat,
                |i: int|
                    if 0 <= i < values.len() {
                        native_model(values[i])
                    } else {
                        NativeModel::Absent
                    },
            ),
        ),
        Native::Opaque(id, raw) => NativeModel::Opaque(id, raw@),
    }
}

impl View for Native {
    type V = NativeModel;

    open spec fn view(&self) -> NativeModel {
        native_model(*self)
    }
}

/// Whether a native value has the shape that a descriptor describes.
pub open spec fn conforms(n: NativeModel, d: TypeDescriptor) -> bool
    decreases d,
{
    match d {
        TypeDescriptor::Primitive(PrimitiveKind::Int32) => n is Int32,
        TypeDescriptor::Primitive(PrimitiveKind::Float64) => n is Float64,
        TypeDescriptor::Primitive(PrimitiveKind::Bool) => n is Bool,
        TypeDescriptor::Primitive(PrimitiveKind::Text) => n is Text,
        TypeDescriptor::Optional(inner) => match n {
            NativeModel::Absent => true,
            NativeModel::Present(x) => conforms(*x, *inner),
            _ => false,
        },
        TypeDescriptor::Sequence(element) => match n {
            NativeModel::List(items) => forall|i: int|
                0 <= i < items.len() ==> conforms(#[trigger] items[i], *element),
            _ => false,
        },
        TypeDescriptor::Record(fields) => match n {
            NativeModel::Record(values) => values.len() == fields.len() && forall|i: int|
                0 <= i < fields.len() ==> conforms(#[trigger] values[i], fields[i].1),
            _ => false,
        },
        TypeDescriptor::Opaque(id) => match n {
            NativeModel::Opaque(of, _) => of == id,
            _ => false,
        },
    }
}

/// The models of a vector of native values, item by item.
pub open spec fn natives_view(items: Vec<Native>) -> Seq<NativeModel> {
    Seq::new(items.len() as nat, |i: int| items[i]@)
}

/// The view of a list is the sequence of its items' views.
pub proof fn lemma_list_view(items: Vec<Native>)
    ensures
        Native::List(items)@ == NativeModel::List(natives_view(items)),
{
    assert(Native::List(items)@->List_0 =~= natives_view(items));
}

/// The view of a record is the sequence of its fields' views.
pub proof fn lemma_record_view(values: Vec<Native>)
    ensures
        Native::Record(values)@ == NativeModel::Record(natives_view(values)),
{
    assert(Native::Record(values)@->Record_0 =~= natives_view(values));
}

} // verus!
