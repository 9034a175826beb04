//! The type-directed argument binder.
//!
//! Each declared parameter is looked up in the payload, by position or by
//! name, and decoded as its descriptor directs. Values that the descriptors do
//! not ask for (further positional items, other keys) are ignored. A number
//! out of the range of a 32-bit integer is refused, never wrapped.
//!
//! An opaque argument is carried as it came, under its codec's identifier:
//! the host reads it with its codec and settles what came of it with
//! `settle_opaque`.

use vstd::prelude::*;
use crate::descriptor::{Parameter, PrimitiveKind, TypeDescriptor};
use crate::error::{
    BindError, BindErrorModel, DecodeError, DecodeErrorModel, Failure, PathStep, PathStepModel,
};
use crate::native::{
    conforms, lemma_list_view, lemma_record_view, natives_view, Native, NativeModel,
};
use crate::payload::{CallPayload, CallPayloadModel};
use crate::value::{
    entries_view, find_entry, items_view, lemma_mapping_view, lemma_sequence_view, lookup, Kind,
    Number, Value, ValueModel,
};

verus! {

/// The failure of a required value that is absent.
pub open spec fn missing() -> DecodeErrorModel {
    DecodeErrorModel { path: Seq::empty(), failure: Failure::MissingRequiredArgument }
}

/// The failure of a value of the wrong shape.
pub open spec fn mismatch(expected: Kind, v: ValueModel) -> DecodeErrorModel {
    DecodeErrorModel {
        path: Seq::empty(),
        failure: Failure::TypeMismatch { expected, actual: v.kind() },
    }
}

/// A failure inside a part, seen from the value that holds the part.
pub open spec fn under(step: PathStepModel, e: DecodeErrorModel) -> DecodeErrorModel {
    DecodeErrorModel { path: seq![step] + e.path, failure: e.failure }
}

/// What decoding `raw` against `d` yields; `None` is an absent value.
///
/// An optional takes an absent value and `Null` as "no value"; anything else
/// must be there. A 32-bit integer is an integer number within range, a float
/// any number. A sequence decodes item by item and a record field by field,
/// each field looked up by name; the first part that fails, fails the whole,
/// with its place put before its path. An opaque value is carried as it is.
pub open spec fn decode_spec(d: TypeDescriptor, raw: Option<ValueModel>) -> Result<
    NativeModel,
    DecodeErrorModel,
>
    decreases d, 0nat,
{
    match d {
        TypeDescriptor::Optional(inner) => match raw {
            None => Ok(NativeModel::Absent),
            Some(ValueModel::Null) => Ok(NativeModel::Absent),
            Some(v) => match decode_spec(*inner, Some(v)) {
                Ok(n) => Ok(NativeModel::Present(Box::new(n))),
                Err(e) => Err(e),
            },
        },
        TypeDescriptor::Primitive(kind) => match raw {
            None => Err(missing()),
            Some(v) => decode_primitive(kind, v),
        },
        TypeDescriptor::Sequence(element) => match raw {
            None => Err(missing()),
            Some(ValueModel::Sequence(items)) => match decode_items(*element, items, items.len()) {
                Ok(natives) => Ok(NativeModel::List(natives)),
                Err(e) => Err(e),
            },
            Some(v) => Err(mismatch(Kind::Sequence, v)),
        },
        TypeDescriptor::Record(fields) => match raw {
            None => Err(missing()),
            Some(ValueModel::Mapping(entries)) => match decode_fields(
                fields,
                entries,
                fields.len() as nat,
            ) {
                Ok(natives) => Ok(NativeModel::Record(natives)),
                Err(e) => Err(e),
            },
            Some(v) => Err(mismatch(Kind::Mapping, v)),
        },
        TypeDescriptor::Opaque(id) => match raw {
            None => Err(missing()),
            Some(v) => Ok(NativeModel::Opaque(id, v)),
        },
    }
}

/// What decoding a present value against a primitive type yields.
pub open spec fn decode_primitive(kind: PrimitiveKind, v: ValueModel) -> Result<
    NativeModel,
    DecodeErrorModel,
> {
    match kind {
        PrimitiveKind::Int32 => match v {
            ValueModel::Number(Number::Integer(i)) => if i32::MIN <= i <= i32::MAX {
                Ok(NativeModel::Int32(i as i32))
            } else {
                Err(mismatch(Kind::Int32, v))
            },
            _ => Err(mismatch(Kind::Int32, v)),
        },
        PrimitiveKind::Float64 => match v {
            ValueModel::Number(x) => Ok(NativeModel::Float64(x)),
            _ => Err(mismatch(Kind::Number, v)),
        },
        PrimitiveKind::Bool => match v {
            ValueModel::Bool(b) => Ok(NativeModel::Bool(b)),
            _ => Err(mismatch(Kind::Bool, v)),
        },
        PrimitiveKind::Text => match v {
            ValueModel::Text(s) => Ok(NativeModel::Text(s)),
            _ => Err(mismatch(Kind::Text, v)),
        },
    }
}

/// What decoding the first `n` items of a sequence against `element` yields:
/// the decoded items in order, or the failure of the first item that fails,
/// under its index.
pub open spec fn decode_items(element: TypeDescriptor, items: Seq<ValueModel>, n: nat) -> Result<
    Seq<NativeModel>,
    DecodeErrorModel,
>
    decreases element, n + 1,
{
    if n == 0 {
        Ok(Seq::empty())
    } else {
        match decode_items(element, items, (n - 1) as nat) {
            Err(e) => Err(e),
            Ok(before) => match decode_spec(element, Some(items[n - 1])) {
                Ok(native) => Ok(before.push(native)),
                Err(e) => Err(under(PathStepModel::Index((n - 1) as nat), e)),
            },
        }
    }
}

/// What decoding the first `n` declared fields of a record from a mapping's
/// entries yields: the fields' values in declared order, or the failure of
/// the first field that fails, under its name.
pub open spec fn decode_fields(
    fields: Vec<(String, TypeDescriptor)>,
    entries: Seq<(Seq<char>, ValueModel)>,
    n: nat,
) -> Result<Seq<NativeModel>, DecodeErrorModel>
    decreases fields, n + 1,
{
    if n == 0 || n > fields.len() {
        Ok(Seq::empty())
    } else {
        match decode_fields(fields, entries, (n - 1) as nat) {
            Err(e) => Err(e),
            Ok(before) => match decode_spec(fields[n - 1].1, lookup(entries, fields[n - 1].0@)) {
                Ok(native) => Ok(before.push(native)),
                Err(e) => Err(under(PathStepModel::Field(fields[n - 1].0@), e)),
            },
        }
    }
}

/// A failure among the first `n` items is the failure of every longer prefix.
pub proof fn lemma_items_failure_stays(
    element: TypeDescriptor,
    items: Seq<ValueModel>,
    n: nat,
    m: nat,
)
    requires
        n <= m,
        decode_items(element, items, n) is Err,
    ensures
        decode_items(element, items, m) == decode_items(element, items, n),
    decreases m,
{
    if n < m {
        lemma_items_failure_stays(element, items, n, (m - 1) as nat);
    }
}

/// A failure among the first `n` fields is the failure of every longer prefix.
pub proof fn lemma_fields_failure_stays(
    fields: Vec<(String, TypeDescriptor)>,
    entries: Seq<(Seq<char>, ValueModel)>,
    n: nat,
    m: nat,
)
    requires
        n <= m <= fields.len(),
        decode_fields(fields, entries, n) is Err,
    ensures
        decode_fields(fields, entries, m) == decode_fields(fields, entries, n),
    decreases m,
{
    if n < m {
        lemma_fields_failure_stays(fields, entries, n, (m - 1) as nat);
    }
}

/// The model of a value that may be absent.
pub open spec fn raw_view(raw: Option<&Value>) -> Option<ValueModel> {
    match raw {
        Some(v) => Some(v@),
        None => None,
    }
}

/// What binding one parameter to a payload yields: its value decoded, or the
/// failure under the parameter's name.
pub open spec fn bind_parameter(p: Parameter, payload: CallPayloadModel) -> Result<
    NativeModel,
    BindErrorModel,
> {
    match decode_spec(p.descriptor, payload.raw(p.name@, p.position as nat)) {
        Ok(native) => Ok(native),
        Err(e) => Err(BindErrorModel { parameter: p.name@, path: e.path, failure: e.failure }),
    }
}

/// What binding the first `n` parameters yields: their values in declared
/// order, or the failure of the first parameter that fails.
pub open spec fn bind_first(parameters: Seq<Parameter>, payload: CallPayloadModel, n: nat) -> Result<
    Seq<NativeModel>,
    BindErrorModel,
>
    decreases n,
{
    if n == 0 {
        Ok(Seq::empty())
    } else {
        match bind_first(parameters, payload, (n - 1) as nat) {
            Err(e) => Err(e),
            Ok(before) => match bind_parameter(parameters[n - 1], payload) {
                Ok(native) => Ok(before.push(native)),
                Err(e) => Err(e),
            },
        }
    }
}

/// What binding all the parameters to a payload yields.
pub open spec fn bind_spec(parameters: Seq<Parameter>, payload: CallPayloadModel) -> Result<
    Seq<NativeModel>,
    BindErrorModel,
> {
    bind_first(parameters, payload, parameters.len())
}

/// A failure among the first `n` parameters is the failure of every longer
/// prefix.
pub proof fn lemma_bind_failure_stays(
    parameters: Seq<Parameter>,
    payload: CallPayloadModel,
    n: nat,
    m: nat,
)
    requires
        n <= m,
        bind_first(parameters, payload, n) is Err,
    ensures
        bind_first(parameters, payload, m) == bind_first(parameters, payload, n),
    decreases m,
{
    if n < m {
        lemma_bind_failure_stays(parameters, payload, n, (m - 1) as nat);
    }
}

/// Where the first `n` items decode, there are `n` results and each is the
/// decoding of the item at its place.
pub proof fn lemma_items_in_order(element: TypeDescriptor, items: Seq<ValueModel>, n: nat)
    requires
        decode_items(element, items, n) is Ok,
    ensures
        decode_items(element, items, n)->Ok_0.len() == n,
        forall|i: int|
            0 <= i < n ==> decode_spec(element, Some(items[i])) == Ok::<
                NativeModel,
                DecodeErrorModel,
            >(#[trigger] decode_items(element, items, n)->Ok_0[i]),
    decreases n,
{
    if n > 0 {
        lemma_items_in_order(element, items, (n - 1) as nat);
    }
}

/// Where the first `n` declared fields decode, there are `n` results and
/// each is the decoding of what the mapping holds under the field's name.
pub proof fn lemma_fields_in_order(
    fields: Vec<(String, TypeDescriptor)>,
    entries: Seq<(Seq<char>, ValueModel)>,
    n: nat,
)
    requires
        n <= fields.len(),
        decode_fields(fields, entries, n) is Ok,
    ensures
        decode_fields(fields, entries, n)->Ok_0.len() == n,
        forall|i: int|
            0 <= i < n ==> decode_spec(fields[i].1, lookup(entries, fields[i].0@)) == Ok::<
                NativeModel,
                DecodeErrorModel,
            >(#[trigger] decode_fields(fields, entries, n)->Ok_0[i]),
    decreases n,
{
    if n > 0 {
        lemma_fields_in_order(fields, entries, (n - 1) as nat);
    }
}

/// What a value decodes to has the shape that the descriptor describes.
pub proof fn lemma_decoded_conforms(d: TypeDescriptor, raw: Option<ValueModel>)
    requires
        decode_spec(d, raw) is Ok,
    ensures
        conforms(decode_spec(d, raw)->Ok_0, d),
    decreases d,
{
    match d {
        TypeDescriptor::Optional(inner) => {
            if raw is Some && raw != Some(ValueModel::Null) {
                lemma_decoded_conforms(*inner, raw);
            }
        },
        TypeDescriptor::Primitive(_) => {},
        TypeDescriptor::Opaque(_) => {},
        TypeDescriptor::Sequence(element) => {
            let items = raw->Some_0->Sequence_0;
            let natives = decode_items(*element, items, items.len())->Ok_0;
            lemma_items_in_order(*element, items, items.len());
            assert forall|i: int| 0 <= i < natives.len() implies conforms(
                #[trigger] natives[i],
                *element,
            ) by {
                assert(decode_spec(*element, Some(items[i])) == Ok::<
                    NativeModel,
                    DecodeErrorModel,
                >(natives[i]));
                lemma_decoded_conforms(*element, Some(items[i]));
            }
        },
        TypeDescriptor::Record(fields) => {
            let entries = raw->Some_0->Mapping_0;
            let n = fields.len() as nat;
            let natives = decode_fields(fields, entries, n)->Ok_0;
            lemma_fields_in_order(fields, entries, n);
            assert forall|i: int| 0 <= i < n implies conforms(
                #[trigger] natives[i],
                fields[i].1,
            ) by {
                assert(decode_spec(fields[i].1, lookup(entries, fields[i].0@)) == Ok::<
                    NativeModel,
                    DecodeErrorModel,
                >(natives[i]));
                lemma_decoded_conforms(fields[i].1, lookup(entries, fields[i].0@));
            }
        },
    }
}

/// Where the first `n` parameters are bound, there are `n` arguments and
/// each has the shape that its parameter's descriptor describes.
pub proof fn lemma_bound_conform(parameters: Seq<Parameter>, payload: CallPayloadModel, n: nat)
    requires
        n <= parameters.len(),
        bind_first(parameters, payload, n) is Ok,
    ensures
        bind_first(parameters, payload, n)->Ok_0.len() == n,
        forall|i: int|
            0 <= i < n ==> conforms(
                #[trigger] bind_first(parameters, payload, n)->Ok_0[i],
                parameters[i].descriptor,
            ),
    decreases n,
{
    if n > 0 {
        lemma_bound_conform(parameters, payload, (n - 1) as nat);
        let p = parameters[n - 1];
        lemma_decoded_conforms(p.descriptor, payload.raw(p.name@, p.position as nat));
    }
}

/// The model of the outcome of a binding.
pub open spec fn bound_view(r: Result<Vec<Native>, BindError>) -> Result<
    Seq<NativeModel>,
    BindErrorModel,
> {
    match r {
        Ok(natives) => Ok(natives_view(natives)),
        Err(e) => Err(e@),
    }
}

/// The model of the outcome of a decoding.
pub open spec fn decoded_view(r: Result<Native, DecodeError>) -> Result<
    NativeModel,
    DecodeErrorModel,
> {
    match r {
        Ok(n) => Ok(n@),
        Err(e) => Err(e@),
    }
}

/// A failure with an empty path.
fn fail_here(failure: Failure) -> (e: DecodeError)
    ensures
        e@ == (DecodeErrorModel { path: Seq::empty(), failure }),
{
    let e = DecodeError { path: Vec::new(), failure };
    assert(e@.path =~= Seq::empty());
    e
}

/// Puts `step` before the path of `e`.
fn fail_under(step: PathStep, e: DecodeError) -> (r: DecodeError)
    ensures
        r@ == under(step@, e@),
{
    let mut path = e.path;
    path.insert(0, step);
    let r = DecodeError { path, failure: e.failure };
    assert(r@.path =~= seq![step@] + e@.path);
    r
}

/// Settles what a host's codec made of the value that an opaque argument
/// carries: the value that the codec read, or, where it refused, a type
/// mismatch between the opaque shape and the shape of the carried value.
pub fn settle_opaque(raw: &Value, read: Option<Native>) -> (r: Result<Native, DecodeError>)
    ensures
        decoded_view(r) == match read {
            Some(native) => Ok::<NativeModel, DecodeErrorModel>(native@),
            None => Err(mismatch(Kind::Opaque, raw@)),
        },
{
    match read {
        Some(native) => Ok(native),
        None => Err(fail_here(Failure::TypeMismatch { expected: Kind::Opaque, actual: raw.kind() })),
    }
}

/// Decodes a present value against a primitive type.
fn decode_primitive_value(kind: PrimitiveKind, v: &Value) -> (r: Result<Native, DecodeError>)
    ensures
        decoded_view(r) == decode_primitive(kind, v@),
{
    match kind {
        PrimitiveKind::Int32 => match v {
            Value::Number(Number::Integer(i)) => {
                if -2147483648 <= *i && *i <= 2147483647 {
                    Ok(Native::Int32(*i as i32))
                } else {
                    Err(fail_here(Failure::TypeMismatch { expected: Kind::Int32, actual: v.kind() }))
                }
            },
            _ => Err(fail_here(Failure::TypeMismatch { expected: Kind::Int32, actual: v.kind() })),
        },
        PrimitiveKind::Float64 => match v {
            Value::Number(x) => Ok(Native::Float64(*x)),
            _ => Err(fail_here(Failure::TypeMismatch { expected: Kind::Number, actual: v.kind() })),
        },
        PrimitiveKind::Bool => match v {
            Value::Bool(b) => Ok(Native::Bool(*b)),
            _ => Err(fail_here(Failure::TypeMismatch { expected: Kind::Bool, actual: v.kind() })),
        },
        PrimitiveKind::Text => match v {
            Value::Text(s) => Ok(Native::Text(s.clone())),
            _ => Err(fail_here(Failure::TypeMismatch { expected: Kind::Text, actual: v.kind() })),
        },
    }
}

/// Decodes one value, present or absent, against a descriptor.
pub fn decode(d: &TypeDescriptor, raw: Option<&Value>) -> (r: Result<Native, DecodeError>)
    ensures
        decoded_view(r) == decode_spec(*d, raw_view(raw)),
    decreases d,
{
    match d {
        TypeDescriptor::Optional(inner) => match raw {
            None => Ok(Native::Absent),
            Some(Value::Null) => Ok(Native::Absent),
            Some(v) => match decode(inner, Some(v)) {
                Ok(n) => Ok(Native::Present(Box::new(n))),
                Err(e) => Err(e),
            },
        },
        TypeDescriptor::Primitive(kind) => match raw {
            None => Err(fail_here(Failure::MissingRequiredArgument)),
            Some(v) => decode_primitive_value(*kind, v),
        },
        TypeDescriptor::Sequence(element) => match raw {
            None => Err(fail_here(Failure::MissingRequiredArgument)),
            Some(Value::Sequence(items)) => {
                proof {
                    lemma_sequence_view(*items);
                }
                let ghost model = items_view(*items);
                let mut out: Vec<Native> = Vec::new();
                let mut i: usize = 0;
                assert(natives_view(out) =~= Seq::<NativeModel>::empty());
                while i < items.len()
                    invariant
                        i <= items.len(),
                        *d == TypeDescriptor::Sequence(*element),
                        model == items_view(*items),
                        raw_view(raw) == Some(ValueModel::Sequence(model)),
                        decode_items(**element, model, i as nat) == Ok::<
                            Seq<NativeModel>,
                            DecodeErrorModel,
                        >(natives_view(out)),
                    decreases items.len() - i,
                {
                    assert(model[i as int] == items[i as int]@);
                    match decode(element, Some(&items[i])) {
                        Ok(n) => {
                            let ghost before = natives_view(out);
                            out.push(n);
                            assert(natives_view(out) =~= before.push(n@));
                        },
                        Err(e) => {
                            proof {
                                lemma_items_failure_stays(
                                    **element,
                                    model,
                                    (i + 1) as nat,
                                    model.len(),
                                );
                            }
                            return Err(fail_under(PathStep::Index(i), e));
                        },
                    }
                    i += 1;
                }
                proof {
                    lemma_list_view(out);
                }
                Ok(Native::List(out))
            },
            Some(v) => Err(fail_here(Failure::TypeMismatch { expected: Kind::Sequence, actual: v.kind() })),
        },
        TypeDescriptor::Record(fields) => match raw {
            None => Err(fail_here(Failure::MissingRequiredArgument)),
            Some(Value::Mapping(entries)) => {
                proof {
                    lemma_mapping_view(*entries);
                }
                let ghost model = entries_view(*entries);
                let mut out: Vec<Native> = Vec::new();
                let mut i: usize = 0;
                assert(natives_view(out) =~= Seq::<NativeModel>::empty());
                while i < fields.len()
                    invariant
                        i <= fields.len(),
                        *d == TypeDescriptor::Record(*fields),
                        model == entries_view(*entries),
                        raw_view(raw) == Some(ValueModel::Mapping(model)),
                        decode_fields(*fields, model, i as nat) == Ok::<
                            Seq<NativeModel>,
                            DecodeErrorModel,
                        >(natives_view(out)),
                    decreases fields.len() - i,
                {
                    let found = find_entry(entries, &fields[i].0);
                    match decode(&fields[i].1, found) {
                        Ok(n) => {
                            let ghost before = natives_view(out);
                            out.push(n);
                            assert(natives_view(out) =~= before.push(n@));
                        },
                        Err(e) => {
                            proof {
                                lemma_fields_failure_stays(
                                    *fields,
                                    model,
                                    (i + 1) as nat,
                                    fields.len() as nat,
                                );
                            }
                            return Err(fail_under(PathStep::Field(fields[i].0.clone()), e));
                        },
                    }
                    i += 1;
                }
                proof {
                    lemma_record_view(out);
                }
                Ok(Native::Record(out))
            },
            Some(v) => Err(fail_here(Failure::TypeMismatch { expected: Kind::Mapping, actual: v.kind() })),
        },
        TypeDescriptor::Opaque(id) => match raw {
            None => Err(fail_here(Failure::MissingRequiredArgument)),
            Some(v) => Ok(Native::Opaque(*id, v.duplicate())),
        },
    }
}

/// Binds a payload to the declared parameters: one native value for each
/// parameter, in declared order, or the failure of the first parameter that
/// cannot be bound.
pub fn bind(parameters: &Vec<Parameter>, payload: &CallPayload) -> (r: Result<
    Vec<Native>,
    BindError,
>)
    ensures
        bound_view(r) == bind_spec(parameters@, payload@),
{
    let mut out: Vec<Native> = Vec::new();
    let mut i: usize = 0;
    assert(natives_view(out) =~= Seq::<NativeModel>::empty());
    while i < parameters.len()
        invariant
            i <= parameters.len(),
            bind_first(parameters@, payload@, i as nat) == Ok::<Seq<NativeModel>, BindErrorModel>(
                natives_view(out),
            ),
        decreases parameters.len() - i,
    {
        let p = &parameters[i];
        let found = payload.raw(&p.name, p.position);
        match decode(&p.descriptor, found) {
            Ok(native) => {
                let ghost before = natives_view(out);
                out.push(native);
                assert(natives_view(out) =~= before.push(native@));
            },
            Err(e) => {
                proof {
                    lemma_bind_failure_stays(
                        parameters@,
                        payload@,
                        (i + 1) as nat,
                        parameters@.len(),
                    );
                }
                return Err(BindError { parameter: p.name.clone(), path: e.path, failure: e.failure });
            },
        }
        i += 1;
    }
    Ok(out)
}

} // verus!
