//! What can go wrong while registering, binding and calling.

use vstd::prelude::*;
use crate::value::Kind;

verus! {

/// One step from a value down into one of its parts.
#[derive(Debug, PartialEq)]
pub enum PathStep {
    Field(String),
    Index(usize),
}

/// The mathematical content of a [`PathStep`].
pub ghost enum PathStepModel {
    Field(Seq<char>),
    Index(nat),
}

impl View for PathStep {
    type V = PathStepModel;

    open spec fn view(&self) -> PathStepModel {
        match self {
            PathStep::Field(name) => PathStepModel::Field(name@),
            PathStep::Index(i) => PathStepModel::Index(*i as nat),
        }
    }
}

/// The models of a path's steps, in order.
pub open spec fn path_view(path: Vec<PathStep>) -> Seq<PathStepModel> {
    Seq::new(path.len() as nat, |i: int| path[i]@)
}

/// Why a value could not be decoded.
#[derive(Clone, Copy, Debug, PartialEq, Eq, Structural)]
pub enum Failure {
    /// A value that is not optional was absent.
    MissingRequiredArgument,
    /// A value of one shape stood where another was expected.
    TypeMismatch { expected: Kind, actual: Kind },
}

/// A failure to decode one value, with the path from that value down to the
/// part that failed.
#[derive(Debug, PartialEq)]
pub struct DecodeError {
    pub path: Vec<PathStep>,
    pub failure: Failure,
}

/// The mathematical content of a [`DecodeError`].
pub ghost struct DecodeErrorModel {
    pub path: Seq<PathStepModel>,
    pub failure: Failure,
}

impl View for DecodeError {
    type V = DecodeErrorModel;

    open spec fn view(&self) -> DecodeErrorModel {
        DecodeErrorModel { path: path_view(self.path), failure: self.failure }
    }
}

/// A failure to bind one parameter: its name, the path from its value down
/// to the part that failed, and the failure (for an absent parameter, or an
/// absent field of a record, `MissingRequiredArgument`).
#[derive(Debug, PartialEq)]
pub struct BindError {
    pub parameter: String,
    pub path: Vec<PathStep>,
    pub failure: Failure,
}

/// The mathematical content of a [`BindError`].
pub ghost struct BindErrorModel {
    pub parameter: Seq<char>,
    pub path: Seq<PathStepModel>,
    pub failure: Failure,
}

impl View for BindError {
    type V = BindErrorModel;

    open spec fn view(&self) -> BindErrorModel {
        BindErrorModel {
            parameter: self.parameter@,
            path: path_view(self.path),
            failure: self.failure,
        }
    }
}

/// A refused registration.
#[derive(Clone, Copy, Debug, PartialEq, Eq, Structural)]
pub enum RegistrationError {
    /// A function of that name is registered already.
    DuplicateName,
    /// The registry was frozen.
    Frozen,
}

/// A failed call.
#[derive(Debug, PartialEq)]
pub enum CallError {
    /// No function of that name is registered.
    UnknownFunction(String),
    /// The payload could not be bound to the function's parameters.
    BindFailed(BindError),
    /// A strict call was given more positional items than the function has
    /// parameters.
    ArityExceeded { expected: usize, actual: usize },
}

/// The mathematical content of a [`CallError`].
pub ghost enum CallErrorModel {
    UnknownFunction(Seq<char>),
    BindFailed(BindErrorModel),
    ArityExceeded { expected: nat, actual: nat },
}

impl View for CallError {
    type V = CallErrorModel;

    open spec fn view(&self) -> CallErrorModel {
        match self {
            CallError::UnknownFunction(name) => CallErrorModel::UnknownFunction(name@),
            CallError::BindFailed(e) => CallErrorModel::BindFailed(e@),
            CallError::ArityExceeded { expected, actual } => CallErrorModel::ArityExceeded {
                expected: *expected as nat,
                actual: *actual as nat,
            },
        }
    }
}

} // verus!
