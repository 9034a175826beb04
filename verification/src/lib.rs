//! Call native functions by name through a generic structured-value model.
//!
//! A payload of values, positional or named, is bound to a function's declared
//! parameters by their type descriptors, the function is invoked, and its
//! result is encoded back into a value.

pub mod value;
pub mod descriptor;
pub mod native;
pub mod error;
pub mod payload;
pub mod binder;
pub mod encoder;
pub mod registry;
pub mod dispatcher;
pub mod laws;
pub mod signature;
