//! The entry point: look a function up, bind the payload, invoke, encode.
//!
//! A call ignores what the payload holds beyond the declared parameters; a
//! strict call refuses positional items beyond them.

use vstd::prelude::*;
use crate::binder::{bind, bind_spec, lemma_bound_conform};
use crate::encoder::{encode, encode_spec};
use crate::error::{CallError, CallErrorModel};
use crate::native::{natives_view, Native};
use crate::payload::{CallPayload, CallPayloadModel};
use crate::registry::{arguments_conform, lemma_index_of, FunctionRegistry, FunctionSpec};
use crate::value::Value;

verus! {

/// Whether `r` is an outcome of calling `spec` on `payload`: the binding's
/// failure where the payload cannot be bound, else the encoding, under the
/// declared return type, of something that the callable returns on the bound
/// arguments.
pub open spec fn outcome_of<F: Fn(Vec<Native>) -> Native>(
    spec: FunctionSpec<F>,
    payload: CallPayloadModel,
    r: Result<Value, CallError>,
) -> bool {
    match bind_spec(spec.parameters@, payload) {
        Err(e) => r is Err && r->Err_0@ == CallErrorModel::BindFailed(e),
        Ok(bound) => r is Ok && exists|args: Vec<Native>, returned: Native|
            natives_view(args) == bound && call_ensures(spec.invoke, (args,), returned)
                && r->Ok_0@ == encode_spec(returned@, spec.return_descriptor),
    }
}

/// Calls one function on a payload: binds the payload to the declared
/// parameters, invokes the callable on the bound arguments in declared
/// order, and encodes what it returns. The callable is not invoked where the
/// payload cannot be bound.
pub fn call_function<F: Fn(Vec<Native>) -> Native>(spec: &FunctionSpec<F>, payload: &CallPayload) -> (r:
    Result<Value, CallError>)
    requires
        spec.callable(),
    ensures
        outcome_of(*spec, payload@, r),
{
    match bind(&spec.parameters, payload) {
        Err(e) => Err(CallError::BindFailed(e)),
        Ok(args) => {
            let ghost bound = args;
            proof {
                lemma_bound_conform(spec.parameters@, payload@, spec.parameters@.len());
                assert(arguments_conform(natives_view(args), spec.parameters@));
            }
            let returned = (spec.invoke)(args);
            let v = encode(&returned, &spec.return_descriptor);
            assert(natives_view(bound) == bind_spec(spec.parameters@, payload@)->Ok_0
                && call_ensures(spec.invoke, (bound,), returned));
            Ok(v)
        },
    }
}

/// Calls the function registered under `name` on a payload.
///
/// An unregistered name yields `UnknownFunction` with that name; otherwise
/// the outcome is that of calling the function registered under it.
pub fn call<F: Fn(Vec<Native>) -> Native>(
    registry: &FunctionRegistry<F>,
    name: &String,
    payload: &CallPayload,
) -> (r: Result<Value, CallError>)
    requires
        registry.callable(),
    ensures
        match registry.find(name@) {
            None => r is Err && r->Err_0@ == CallErrorModel::UnknownFunction(name@),
            Some(i) => outcome_of(registry.specs()[i], payload@, r),
        },
{
    proof {
        lemma_index_of(registry.specs(), name@, registry.specs().len());
    }
    match registry.lookup(name) {
        None => Err(CallError::UnknownFunction(name.clone())),
        Some(spec) => {
            assert(registry.specs()[registry.find(name@).unwrap()].callable());
            call_function(spec, payload)
        },
    }
}

/// Whether `r` is an outcome of a strict call of `spec` on `payload`:
/// `ArityExceeded`, with the number of parameters and the number of items,
/// where a positional payload holds more items than there are parameters,
/// and an outcome of calling `spec` on it otherwise.
pub open spec fn strict_outcome_of<F: Fn(Vec<Native>) -> Native>(
    spec: FunctionSpec<F>,
    payload: CallPayloadModel,
    r: Result<Value, CallError>,
) -> bool {
    if payload.exceeds(spec.parameters@.len()) {
        r is Err && r->Err_0@ == (CallErrorModel::ArityExceeded {
            expected: spec.parameters@.len(),
            actual: payload->Positional_0.len(),
        })
    } else {
        outcome_of(spec, payload, r)
    }
}

/// Calls one function on a payload, as `call_function` does, but refuses a
/// positional payload that holds more items than the function has
/// parameters, without binding or invoking.
pub fn call_function_strict<F: Fn(Vec<Native>) -> Native>(
    spec: &FunctionSpec<F>,
    payload: &CallPayload,
) -> (r: Result<Value, CallError>)
    requires
        spec.callable(),
    ensures
        strict_outcome_of(*spec, payload@, r),
{
    match payload.positional_len() {
        Some(actual) => {
            if actual > spec.parameters.len() {
                return Err(CallError::ArityExceeded { expected: spec.parameters.len(), actual });
            }
        },
        None => {},
    }
    call_function(spec, payload)
}

/// Calls the function registered under `name` on a payload, strictly.
///
/// An unregistered name yields `UnknownFunction` with that name; otherwise
/// the outcome is that of a strict call of the function registered under it.
pub fn call_strict<F: Fn(Vec<Native>) -> Native>(
    registry: &FunctionRegistry<F>,
    name: &String,
    payload: &CallPayload,
) -> (r: Result<Value, CallError>)
    requires
        registry.callable(),
    ensures
        match registry.find(name@) {
            None => r is Err && r->Err_0@ == CallErrorModel::UnknownFunction(name@),
            Some(i) => strict_outcome_of(registry.specs()[i], payload@, r),
        },
{
    proof {
        lemma_index_of(registry.specs(), name@, registry.specs().len());
    }
    match registry.lookup(name) {
        None => Err(CallError::UnknownFunction(name.clone())),
        Some(spec) => {
            assert(registry.specs()[registry.find(name@).unwrap()].callable());
            call_function_strict(spec, payload)
        },
    }
}

} // verus!
