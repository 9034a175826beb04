//! Descriptors from the text of a Rust type, for hosts that derive a
//! function's parameters from its signature.

use vstd::prelude::*;
use vstd::string::StrSliceExecFns;
use crate::descriptor::{PrimitiveKind, TypeDescriptor};

verus! {

/// Whether `text` is `opener`, something, and a closing angle bracket.
pub open spec fn wrapped_in(text: Seq<char>, opener: Seq<char>) -> bool {
    text.len() > opener.len() && text.subrange(0, opener.len() as int) == opener && text.last()
        == '>'
}

/// What stands between `opener` and the closing angle bracket.
pub open spec fn wrapped(text: Seq<char>, opener: Seq<char>) -> Seq<char> {
    text.subrange(opener.len() as int, text.len() - 1)
}

/// The descriptor of the type that `text` names, written without spaces:
/// the four primitives by their names, `Option<T>` and `Vec<T>` by the
/// descriptor of `T`, and any other type as opaque under the identifier 0.
pub open spec fn described(text: Seq<char>) -> TypeDescriptor
    decreases text.len(),
{
    if text == "i32"@ {
        TypeDescriptor::Primitive(PrimitiveKind::Int32)
    } else if text == "f64"@ {
        TypeDescriptor::Primitive(PrimitiveKind::Float64)
    } else if text == "bool"@ {
        TypeDescriptor::Primitive(PrimitiveKind::Bool)
    } else if text == "String"@ {
        TypeDescriptor::Primitive(PrimitiveKind::Text)
    } else if wrapped_in(text, "Option<"@) {
        TypeDescriptor::Optional(Box::new(described(wrapped(text, "Option<"@))))
    } else if wrapped_in(text, "Vec<"@) {
        TypeDescriptor::Sequence(Box::new(described(wrapped(text, "Vec<"@))))
    } else {
        TypeDescriptor::Opaque(0)
    }
}

/// Whether two texts hold the same characters.
pub fn same_text(a: &str, b: &str) -> (r: bool)
    ensures
        r == (a@ == b@),
{
    let n = a.unicode_len();
    if n != b.unicode_len() {
        return false;
    }
    let mut i: usize = 0;
    while i < n
        invariant
            i <= n,
            n == a@.len(),
            n == b@.len(),
            forall|j: int| 0 <= j < i ==> a@[j] == b@[j],
        decreases n - i,
    {
        if a.get_char(i) != b.get_char(i) {
            return false;
        }
        i += 1;
    }
    assert(a@ =~= b@);
    true
}

/// What stands in `text` between `opener` and a closing angle bracket, where
/// `text` is so built.
pub fn unwrap_from<'a>(text: &'a str, opener: &str) -> (r: Option<&'a str>)
    ensures
        match r {
            Some(inner) => wrapped_in(text@, opener@) && inner@ == wrapped(text@, opener@),
            None => !wrapped_in(text@, opener@),
        },
{
    let n = text.unicode_len();
    let k = opener.unicode_len();
    if n <= k {
        return None;
    }
    if !same_text(text.substring_char(0, k), opener) {
        return None;
    }
    if text.get_char(n - 1) != '>' {
        return None;
    }
    Some(text.substring_char(k, n - 1))
}

/// The descriptor of the type that `text` names.
pub fn describe_type(text: &str) -> (d: TypeDescriptor)
    ensures
        d == described(text@),
    decreases text@.len(),
{
    if same_text(text, "i32") {
        return TypeDescriptor::Primitive(PrimitiveKind::Int32);
    }
    if same_text(text, "f64") {
        return TypeDescriptor::Primitive(PrimitiveKind::Float64);
    }
    if same_text(text, "bool") {
        return TypeDescriptor::Primitive(PrimitiveKind::Bool);
    }
    if same_text(text, "String") {
        return TypeDescriptor::Primitive(PrimitiveKind::Text);
    }
    match unwrap_from(text, "Option<") {
        Some(inner) => {
            return TypeDescriptor::Optional(Box::new(describe_type(inner)));
        },
        None => {},
    }
    match unwrap_from(text, "Vec<") {
        Some(inner) => {
            return TypeDescriptor::Sequence(Box::new(describe_type(inner)));
        },
        None => {},
    }
    TypeDescriptor::Opaque(0)
}

} // verus!
