//! Structural descriptions of the native types that values are decoded into
//! and encoded from.

use vstd::prelude::*;

verus! {

/// The primitive native types.
#[derive(Clone, Copy, Debug, PartialEq, Eq, Structural)]
pub enum PrimitiveKind {
    Int32,
    Float64,
    Bool,
    Text,
}

/// A finite description of a native type.
///
/// A record lists its fields in declared order; an opaque type is known only
/// by the identifier of the codec that its host keeps for it.
#[derive(Debug, PartialEq)]
pub enum TypeDescriptor {
    Primitive(PrimitiveKind),
    Optional(Box<TypeDescriptor>),
    Sequence(Box<TypeDescriptor>),
    Record(Vec<(String, TypeDescriptor)>),
    Opaque(u64),
}

/// A declared parameter of a function: its name, its zero-based place among
/// the arguments, and its type.
#[derive(Debug, PartialEq)]
pub struct Parameter {
    pub name: String,
    pub position: usize,
    pub descriptor: TypeDescriptor,
}

/// Whether every record in a descriptor names each of its fields once.
pub open spec fn distinct_fields(d: TypeDescriptor) -> bool
    decreases d,
{
    match d {
        TypeDescriptor::Primitive(_) => true,
        TypeDescriptor::Opaque(_) => true,
        TypeDescriptor::Optional(inner) => distinct_fields(*inner),
        TypeDescriptor::Sequence(element) => distinct_fields(*element),
        TypeDescriptor::Record(fields) => (forall|i: int, j: int|
            0 <= i < j < fields.len() ==> fields[i].0@ != fields[j].0@) && (forall|i: int|
            0 <= i < fields.len() ==> distinct_fields(#[trigger] fields[i].1)),
    }
}

impl TypeDescriptor {
    /// Checks that every record in this descriptor names each of its fields
    /// once.
    pub fn has_distinct_fields(&self) -> (ok: bool)
        ensures
            ok == distinct_fields(*self),
        decreases self,
    {
        match self {
            TypeDescriptor::Primitive(_) => true,
            TypeDescriptor::Opaque(_) => true,
            TypeDescriptor::Optional(inner) => inner.has_distinct_fields(),
            TypeDescriptor::Sequence(element) => element.has_distinct_fields(),
            TypeDescriptor::Record(fields) => {
                let mut i: usize = 0;
                while i < fields.len()
                    invariant
                        i <= fields.len(),
                        *self is Record,
                        self->Record_0 == *fields,
                        forall|a: int, b: int| 0 <= a < b < i ==> fields[a].0@ != fields[b].0@,
                        forall|a: int| 0 <= a < i ==> distinct_fields(#[trigger] fields[a].1),
                    decreases fields.len() - i,
                {
                    if !fields[i].1.has_distinct_fields() {
                        return false;
                    }
                    let mut j: usize = 0;
                    while j < i
                        invariant
                            j <= i < fields.len(),
                            *self is Record,
                            self->Record_0 == *fields,
                            forall|a: int| 0 <= a < j ==> fields[a].0@ != fields[i as int].0@,
                        decreases i - j,
                    {
                        if fields[j].0 == fields[i].0 {
                            return false;
                        }
                        j += 1;
                    }
                    i += 1;
                }
                true
            },
        }
    }

    /// Whether this descriptor is an `Optional`.
    pub fn is_optional(&self) -> (b: bool)
        ensures
            b == (*self is Optional),
    {
        match self {
            TypeDescriptor::Optional(_) => true,
            _ => false,
        }
    }
}

} // verus!
