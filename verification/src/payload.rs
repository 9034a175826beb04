//! The arguments of one call, as the caller supplies them.

use vstd::prelude::*;
use crate::value::{entries_view, find_entry, items_view, lookup, Value, ValueModel};

verus! {

/// The arguments of a call: in order, or by name.
#[derive(Debug, PartialEq)]
pub enum CallPayload {
    Positional(Vec<Value>),
    Named(Vec<(String, Value)>),
}

/// The mathematical content of a [`CallPayload`].
pub ghost enum CallPayloadModel {
    Positional(Seq<ValueModel>),
    Named(Seq<(Seq<char>, ValueModel)>),
}

impl View for CallPayload {
    type V = CallPayloadModel;

    open spec fn view(&self) -> CallPayloadModel {
        match self {
            CallPayload::Positional(items) => CallPayloadModel::Positional(items_view(*items)),
            CallPayload::Named(entries) => CallPayloadModel::Named(entries_view(*entries)),
        }
    }
}

impl CallPayloadModel {
    /// The value that the payload holds for a parameter: the item at its
    /// position, or the entry of its name; `None` where there is none.
    pub open spec fn raw(self, name: Seq<char>, position: nat) -> Option<ValueModel> {
        match self {
            CallPayloadModel::Positional(items) => if position < items.len() {
                Some(items[position as int])
            } else {
                None
            },
            CallPayloadModel::Named(entries) => lookup(entries, name),
        }
    }

    /// Whether the payload is positional and holds more than `count` items.
    pub open spec fn exceeds(self, count: nat) -> bool {
        self is Positional && self->Positional_0.len() > count
    }
}

impl CallPayload {
    /// The number of items of a positional payload; `None` for a named one.
    pub fn positional_len(&self) -> (n: Option<usize>)
        ensures
            match n {
                Some(len) => self@ is Positional && self@->Positional_0.len() == len,
                None => self@ is Named,
            },
    {
        match self {
            CallPayload::Positional(items) => Some(items.len()),
            CallPayload::Named(_) => None,
        }
    }

    /// The value that the payload holds for the parameter of that name and
    /// position, if any.
    pub fn raw<'a>(&'a self, name: &String, position: usize) -> (found: Option<&'a Value>)
        ensures
            match found {
                Some(v) => self@.raw(name@, position as nat) == Some(v@),
                None => self@.raw(name@, position as nat).is_none(),
            },
    {
        match self {
            CallPayload::Positional(items) => {
                if position < items.len() {
                    Some(&items[position])
                } else {
                    None
                }
            },
            CallPayload::Named(entries) => find_entry(entries, name),
        }
    }
}

} // verus!
