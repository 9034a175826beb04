//! Laws of binding and encoding, stated over the models and proved.

use vstd::prelude::*;
use crate::binder::{
    bind_first, bind_spec, decode_fields, decode_items, decode_spec, lemma_bind_failure_stays,
    lemma_bound_conform, lemma_fields_in_order, lemma_items_in_order, missing, under,
};
use crate::descriptor::{distinct_fields, Parameter, TypeDescriptor};
use crate::dispatcher::outcome_of;
use crate::encoder::encode_spec;
use crate::error::{BindErrorModel, CallError, DecodeErrorModel, Failure, PathStepModel};
use crate::native::{Native, NativeModel};
use crate::payload::CallPayloadModel;
use crate::registry::{
    arguments_conform, lemma_index_found, lemma_index_of, FunctionRegistry, FunctionSpec,
};
use crate::value::{lemma_lookup_distinct, lookup, Value, ValueModel};

verus! {

/// Two payloads that hold the same value, or none, for each of the first `n`
/// parameters bind those parameters alike.
pub proof fn lemma_bind_first_alike(
    parameters: Seq<Parameter>,
    one: CallPayloadModel,
    other: CallPayloadModel,
    n: nat,
)
    requires
        n <= parameters.len(),
        forall|i: int|
            0 <= i < n ==> one.raw(parameters[i].name@, parameters[i].position as nat)
                == other.raw(parameters[i].name@, parameters[i].position as nat),
    ensures
        bind_first(parameters, one, n) == bind_first(parameters, other, n),
    decreases n,
{
    if n > 0 {
        lemma_bind_first_alike(parameters, one, other, (n - 1) as nat);
    }
}

/// Mode equivalence: a positional and a named payload that carry the same
/// value, or none, for every declared parameter bind to the same arguments or
/// to the same failure, and so a call has the same outcomes on both.
pub proof fn law_mode_equivalence<F: Fn(Vec<Native>) -> Native>(
    spec: FunctionSpec<F>,
    positional: Seq<ValueModel>,
    named: Seq<(Seq<char>, ValueModel)>,
)
    requires
        forall|i: int|
            0 <= i < spec.parameters@.len() ==> CallPayloadModel::Positional(positional).raw(
                spec.parameters@[i].name@,
                spec.parameters@[i].position as nat,
            ) == CallPayloadModel::Named(named).raw(
                spec.parameters@[i].name@,
                spec.parameters@[i].position as nat,
            ),
    ensures
        bind_spec(spec.parameters@, CallPayloadModel::Positional(positional)) == bind_spec(
            spec.parameters@,
            CallPayloadModel::Named(named),
        ),
        forall|r: Result<Value, CallError>|
            outcome_of(spec, CallPayloadModel::Positional(positional), r) == outcome_of(
                spec,
                CallPayloadModel::Named(named),
                r,
            ),
{
    lemma_bind_first_alike(
        spec.parameters@,
        CallPayloadModel::Positional(positional),
        CallPayloadModel::Named(named),
        spec.parameters@.len(),
    );
}

/// An optional decodes an absent value and `Null` to "no value", and any
/// other value as its inner descriptor does, wrapped as present.
pub proof fn law_optional(inner: TypeDescriptor, v: ValueModel)
    ensures
        decode_spec(TypeDescriptor::Optional(Box::new(inner)), None) == Ok::<
            NativeModel,
            DecodeErrorModel,
        >(NativeModel::Absent),
        decode_spec(TypeDescriptor::Optional(Box::new(inner)), Some(ValueModel::Null)) == Ok::<
            NativeModel,
            DecodeErrorModel,
        >(NativeModel::Absent),
        v != ValueModel::Null ==> decode_spec(TypeDescriptor::Optional(Box::new(inner)), Some(v))
            == match decode_spec(inner, Some(v)) {
            Ok(n) => Ok::<NativeModel, DecodeErrorModel>(NativeModel::Present(Box::new(n))),
            Err(e) => Err(e),
        },
{
}

/// Where the first `n` items fail to decode, the failure is that of the
/// first item that fails, under its index.
pub proof fn lemma_items_first_failure(element: TypeDescriptor, items: Seq<ValueModel>, n: nat)
    requires
        decode_items(element, items, n) is Err,
    ensures
        exists|i: int|
            0 <= i < n && decode_spec(element, Some(items[i])) is Err && decode_items(
                element,
                items,
                n,
            )->Err_0 == under(
                PathStepModel::Index(i as nat),
                decode_spec(element, Some(items[i]))->Err_0,
            ) && decode_items(element, items, i as nat) is Ok,
    decreases n,
{
    if decode_items(element, items, (n - 1) as nat) is Err {
        lemma_items_first_failure(element, items, (n - 1) as nat);
    } else {
        assert(decode_spec(element, Some(items[n - 1])) is Err);
    }
}

/// Order is kept: a sequence decodes to a list of the same length whose item
/// at each place is the decoding of the value at that place, or fails as the
/// first item that fails, under its index; and a list encodes to a sequence
/// of the same length whose item at each place encodes the item at that
/// place.
pub proof fn law_sequence_order(
    element: TypeDescriptor,
    items: Seq<ValueModel>,
    natives: Seq<NativeModel>,
)
    ensures
        match decode_spec(
            TypeDescriptor::Sequence(Box::new(element)),
            Some(ValueModel::Sequence(items)),
        ) {
            Ok(n) => n is List && n->List_0.len() == items.len() && forall|i: int|
                0 <= i < items.len() ==> decode_spec(element, Some(items[i])) == Ok::<
                    NativeModel,
                    DecodeErrorModel,
                >(#[trigger] n->List_0[i]),
            Err(e) => exists|i: int|
                0 <= i < items.len() && decode_spec(element, Some(items[i])) is Err && e == under(
                    PathStepModel::Index(i as nat),
                    decode_spec(element, Some(items[i]))->Err_0,
                ) && decode_items(element, items, i as nat) is Ok,
        },
        encode_spec(NativeModel::List(natives), TypeDescriptor::Sequence(Box::new(element)))
            is Sequence,
        encode_spec(
            NativeModel::List(natives),
            TypeDescriptor::Sequence(Box::new(element)),
        )->Sequence_0.len() == natives.len(),
        forall|i: int|
            0 <= i < natives.len() ==> (#[trigger] encode_spec(
                NativeModel::List(natives),
                TypeDescriptor::Sequence(Box::new(element)),
            )->Sequence_0[i]) == encode_spec(natives[i], element),
{
    if decode_items(element, items, items.len()) is Ok {
        lemma_items_in_order(element, items, items.len());
    } else {
        lemma_items_first_failure(element, items, items.len());
    }
}

/// A value that is absent where the descriptor is not optional fails as a
/// missing required argument.
pub proof fn law_absent_required(d: TypeDescriptor)
    requires
        !(d is Optional),
    ensures
        decode_spec(d, None) == Err::<NativeModel, DecodeErrorModel>(missing()),
{
}

/// A required parameter for which the payload holds nothing, in either mode,
/// fails the binding as a missing required argument that names it, wherever
/// the parameters declared before it can be bound.
pub proof fn law_missing_required(parameters: Seq<Parameter>, payload: CallPayloadModel, k: int)
    requires
        0 <= k < parameters.len(),
        !(parameters[k].descriptor is Optional),
        payload.raw(parameters[k].name@, parameters[k].position as nat).is_none(),
        bind_first(parameters, payload, k as nat) is Ok,
    ensures
        bind_spec(parameters, payload) == Err::<Seq<NativeModel>, BindErrorModel>(
            BindErrorModel {
                parameter: parameters[k].name@,
                path: Seq::empty(),
                failure: Failure::MissingRequiredArgument,
            },
        ),
{
    law_absent_required(parameters[k].descriptor);
    assert(bind_first(parameters, payload, (k + 1) as nat) is Err);
    lemma_bind_failure_stays(parameters, payload, (k + 1) as nat, parameters.len());
}

/// Items that each decode to the native value at their place decode together
/// to those values in order.
pub proof fn lemma_items_from_each(
    element: TypeDescriptor,
    items: Seq<ValueModel>,
    natives: Seq<NativeModel>,
    n: nat,
)
    requires
        n <= natives.len(),
        forall|i: int|
            0 <= i < n ==> decode_spec(element, Some(#[trigger] items[i])) == Ok::<
                NativeModel,
                DecodeErrorModel,
            >(natives[i]),
    ensures
        decode_items(element, items, n) == Ok::<Seq<NativeModel>, DecodeErrorModel>(
            natives.take(n as int),
        ),
    decreases n,
{
    if n > 0 {
        lemma_items_from_each(element, items, natives, (n - 1) as nat);
        assert(decode_spec(element, Some(items[n - 1])) == Ok::<NativeModel, DecodeErrorModel>(
            natives[n - 1],
        ));
        assert(natives.take(n as int) =~= natives.take(n - 1).push(natives[n - 1]));
    } else {
        assert(natives.take(0) =~= Seq::<NativeModel>::empty());
    }
}

/// Fields that each decode to the native value at their place decode together
/// to those values in declared order.
pub proof fn lemma_fields_from_each(
    fields: Vec<(String, TypeDescriptor)>,
    entries: Seq<(Seq<char>, ValueModel)>,
    natives: Seq<NativeModel>,
    n: nat,
)
    requires
        n <= natives.len(),
        n <= fields.len(),
        forall|i: int|
            0 <= i < n ==> decode_spec((#[trigger] fields[i]).1, lookup(entries, fields[i].0@))
                == Ok::<NativeModel, DecodeErrorModel>(natives[i]),
    ensures
        decode_fields(fields, entries, n) == Ok::<Seq<NativeModel>, DecodeErrorModel>(
            natives.take(n as int),
        ),
    decreases n,
{
    if n > 0 {
        lemma_fields_from_each(fields, entries, natives, (n - 1) as nat);
        assert(decode_spec(fields[n - 1].1, lookup(entries, fields[n - 1].0@)) == Ok::<
            NativeModel,
            DecodeErrorModel,
        >(natives[n - 1]));
        assert(natives.take(n as int) =~= natives.take(n - 1).push(natives[n - 1]));
    } else {
        assert(natives.take(0) =~= Seq::<NativeModel>::empty());
    }
}

/// What a payload binds to fits the declared parameters: one argument for
/// each parameter, in declared order, each of the shape that its parameter's
/// descriptor describes.
pub proof fn law_bound_arguments_conform(parameters: Seq<Parameter>, payload: CallPayloadModel)
    requires
        bind_spec(parameters, payload) is Ok,
    ensures
        arguments_conform(bind_spec(parameters, payload)->Ok_0, parameters),
{
    lemma_bound_conform(parameters, payload, parameters.len());
}

/// Round trip: the encoding of what a value decodes to, under a descriptor
/// whose records name each field once, decodes to the same native value
/// again. For a record, that encoding is a
/// mapping of exactly the declared field names, in declared order. A value
/// that is there and not `Null` never encodes back to `Null`.
pub proof fn law_round_trip(d: TypeDescriptor, raw: Option<ValueModel>)
    requires
        distinct_fields(d),
        decode_spec(d, raw) is Ok,
    ensures
        decode_spec(d, Some(encode_spec(decode_spec(d, raw)->Ok_0, d))) == decode_spec(d, raw),
        raw is Some && raw != Some(ValueModel::Null) ==> encode_spec(decode_spec(d, raw)->Ok_0, d)
            != ValueModel::Null,
        d is Record ==> encode_spec(decode_spec(d, raw)->Ok_0, d) is Mapping && encode_spec(
            decode_spec(d, raw)->Ok_0,
            d,
        )->Mapping_0.len() == d->Record_0.len() && forall|i: int|
            0 <= i < d->Record_0.len() ==> (#[trigger] encode_spec(
                decode_spec(d, raw)->Ok_0,
                d,
            )->Mapping_0[i]).0 == d->Record_0[i].0@,
    decreases d,
{
    let native = decode_spec(d, raw)->Ok_0;
    match d {
        TypeDescriptor::Optional(inner) => {
            if raw is Some && raw != Some(ValueModel::Null) {
                law_round_trip(*inner, raw);
            }
        },
        TypeDescriptor::Primitive(_) => {},
        TypeDescriptor::Opaque(_) => {},
        TypeDescriptor::Sequence(element) => {
            let items = raw->Some_0->Sequence_0;
            let natives = decode_items(*element, items, items.len())->Ok_0;
            lemma_items_in_order(*element, items, items.len());
            let encoded = encode_spec(native, d)->Sequence_0;
            assert forall|i: int| 0 <= i < items.len() implies decode_spec(
                *element,
                Some(#[trigger] encoded[i]),
            ) == Ok::<NativeModel, DecodeErrorModel>(natives[i]) by {
                law_round_trip(*element, Some(items[i]));
            }
            lemma_items_from_each(*element, encoded, natives, items.len());
            assert(natives.take(items.len() as int) =~= natives);
        },
        TypeDescriptor::Record(fields) => {
            let entries = raw->Some_0->Mapping_0;
            let n = fields.len() as nat;
            let natives = decode_fields(fields, entries, n)->Ok_0;
            lemma_fields_in_order(fields, entries, n);
            let encoded = encode_spec(native, d)->Mapping_0;
            assert forall|i: int| 0 <= i < n implies decode_spec(
                (#[trigger] fields[i]).1,
                lookup(encoded, fields[i].0@),
            ) == Ok::<NativeModel, DecodeErrorModel>(natives[i]) by {
                assert(decode_spec(fields[i].1, lookup(entries, fields[i].0@)) == Ok::<
                    NativeModel,
                    DecodeErrorModel,
                >(natives[i]));
                law_round_trip(fields[i].1, lookup(entries, fields[i].0@));
                assert(encoded[i].0 == fields[i].0@);
                lemma_lookup_distinct(encoded, i);
            }
            lemma_fields_from_each(fields, encoded, natives, n);
            assert(natives.take(n as int) =~= natives);
        },
    }
}

/// In a registry that holds each name once, every registered function is the
/// one that its name leads to.
pub proof fn law_lookup_finds_each<F: Fn(Vec<Native>) -> Native>(
    registry: FunctionRegistry<F>,
    i: int,
)
    requires
        registry.wf(),
        0 <= i < registry.specs().len(),
    ensures
        registry.find(registry.specs()[i].name@) == Some(i),
{
    let specs = registry.specs();
    lemma_index_of(specs, specs[i].name@, i as nat);
    lemma_index_found(specs, specs[i].name@, i as nat, specs.len());
}

} // verus!
