//! The result encoder: the mirror of decoding.

use vstd::prelude::*;
use crate::descriptor::{PrimitiveKind, TypeDescriptor};
use crate::native::{lemma_list_view, lemma_record_view, Native, NativeModel};
use crate::value::{
    entries_view, items_view, lemma_mapping_view, lemma_sequence_view, Number, Value, ValueModel,
};

verus! {

/// The value that a native value encodes to under a descriptor.
///
/// Primitives map directly, an absent optional to `Null`, a list item by
/// item, a record to a mapping of its declared field names, in declared
/// order, and an opaque value to the value it carries. A part that does not
/// conform to its descriptor encodes to `Null`.
pub open spec fn encode_spec(n: NativeModel, d: TypeDescriptor) -> ValueModel
    decreases d,
{
    match d {
        TypeDescriptor::Primitive(kind) => encode_primitive(n, kind),
        TypeDescriptor::Optional(inner) => match n {
            NativeModel::Present(x) => encode_spec(*x, *inner),
            _ => ValueModel::Null,
        },
        TypeDescriptor::Sequence(element) => match n {
            NativeModel::List(items) => ValueModel::Sequence(
                Seq::new(items.len(), |i: int| encode_spec(items[i], *element)),
            ),
            _ => ValueModel::Null,
        },
        TypeDescriptor::Record(fields) => match n {
            NativeModel::Record(values) => if values.len() == fields.len() {
                ValueModel::Mapping(
                    Seq::new(
                        fields.len() as nat,
                        |i: int|
                            if 0 <= i < fields.len() {
                                (fields[i].0@, encode_spec(values[i], fields[i].1))
                            } else {
                                (Seq::empty(), ValueModel::Null)
                            },
                    ),
                )
            } else {
                ValueModel::Null
            },
            _ => ValueModel::Null,
        },
        TypeDescriptor::Opaque(id) => match n {
            NativeModel::Opaque(of, raw) => if of == id {
                raw
            } else {
                ValueModel::Null
            },
            _ => ValueModel::Null,
        },
    }
}

/// The value that a native value encodes to under a primitive type.
pub open spec fn encode_primitive(n: NativeModel, kind: PrimitiveKind) -> ValueModel {
    match (kind, n) {
        (PrimitiveKind::Int32, NativeModel::Int32(i)) => ValueModel::Number(
            Number::Integer(i as i64),
        ),
        (PrimitiveKind::Float64, NativeModel::Float64(x)) => ValueModel::Number(x),
        (PrimitiveKind::Bool, NativeModel::Bool(b)) => ValueModel::Bool(b),
        (PrimitiveKind::Text, NativeModel::Text(s)) => ValueModel::Text(s),
        _ => ValueModel::Null,
    }
}

/// Encodes a native value under a primitive type.
fn encode_primitive_value(native: &Native, kind: PrimitiveKind) -> (v: Value)
    ensures
        v@ == encode_primitive(native@, kind),
{
    match (kind, native) {
        (PrimitiveKind::Int32, Native::Int32(i)) => Value::Number(Number::Integer(*i as i64)),
        (PrimitiveKind::Float64, Native::Float64(x)) => Value::Number(*x),
        (PrimitiveKind::Bool, Native::Bool(b)) => Value::Bool(*b),
        (PrimitiveKind::Text, Native::Text(s)) => Value::Text(s.clone()),
        _ => Value::Null,
    }
}

/// Encodes a native value as its descriptor directs.
pub fn encode(native: &Native, d: &TypeDescriptor) -> (v: Value)
    ensures
        v@ == encode_spec(native@, *d),
    decreases d,
{
    match d {
        TypeDescriptor::Primitive(kind) => encode_primitive_value(native, *kind),
        TypeDescriptor::Optional(inner) => match native {
            Native::Present(x) => encode(x, inner),
            _ => Value::Null,
        },
        TypeDescriptor::Sequence(element) => match native {
            Native::List(items) => {
                proof {
                    lemma_list_view(*items);
                }
                let mut out: Vec<Value> = Vec::new();
                let mut i: usize = 0;
                while i < items.len()
                    invariant
                        i <= items.len(),
                        out.len() == i,
                        *d is Sequence,
                        d->Sequence_0 == *element,
                        forall|j: int|
                            0 <= j < i ==> out[j]@ == encode_spec(items[j]@, **element),
                    decreases items.len() - i,
                {
                    out.push(encode(&items[i], element));
                    i += 1;
                }
                proof {
                    lemma_sequence_view(out);
                    assert(items_view(out) =~= encode_spec(native@, *d)->Sequence_0);
                }
                Value::Sequence(out)
            },
            _ => Value::Null,
        },
        TypeDescriptor::Record(fields) => match native {
            Native::Record(values) => {
                if values.len() != fields.len() {
                    proof {
                        lemma_record_view(*values);
                    }
                    return Value::Null;
                }
                proof {
                    lemma_record_view(*values);
                }
                let mut out: Vec<(String, Value)> = Vec::new();
                let mut i: usize = 0;
                while i < fields.len()
                    invariant
                        i <= fields.len(),
                        values.len() == fields.len(),
                        out.len() == i,
                        *d is Record,
                        d->Record_0 == *fields,
                        forall|j: int|
                            0 <= j < i ==> out[j].0@ == fields[j].0@ && out[j].1@ == encode_spec(
                                values[j]@,
                                fields[j].1,
                            ),
                    decreases fields.len() - i,
                {
                    out.push((fields[i].0.clone(), encode(&values[i], &fields[i].1)));
                    i += 1;
                }
                proof {
                    lemma_mapping_view(out);
                    assert(entries_view(out) =~= encode_spec(native@, *d)->Mapping_0);
                }
                Value::Mapping(out)
            },
            _ => Value::Null,
        },
        TypeDescriptor::Opaque(id) => match native {
            Native::Opaque(of, raw) => {
                if *of == *id {
                    raw.duplicate()
                } else {
                    Value::Null
                }
            },
            _ => Value::Null,
        },
    }
}

} // verus!
