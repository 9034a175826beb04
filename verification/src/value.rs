//! The generic value model exchanged at the call boundary.

use vstd::prelude::*;

verus! {

/// A number of the value model: an integer, or a real held as the 64 bits of
/// its IEEE 754 binary64 encoding.
#[derive(Clone, Copy, Debug, PartialEq, Eq, Structural)]
pub enum Number {
    Integer(i64),
    Real(u64),
}

/// A generic structured value.
///
/// A mapping keeps its entries in order; a lookup by name takes the first
/// entry of that name.
#[derive(Debug, PartialEq)]
pub enum Value {
    Null,
    Bool(bool),
    Number(Number),
    Text(String),
    Sequence(Vec<Value>),
    Mapping(Vec<(String, Value)>),
}

/// The mathematical content of a [`Value`].
pub ghost enum ValueModel {
    Null,
    Bool(bool),
    Number(Number),
    Text(Seq<char>),
    Sequence(Seq<ValueModel>),
    Mapping(Seq<(Seq<char>, ValueModel)>),
}

/// The coarse shape of a value, as a diagnostic names it.
#[derive(Clone, Copy, Debug, PartialEq, Eq, Structural)]
pub enum Kind {
    Null,
    Bool,
    Int32,
    Number,
    Text,
    Sequence,
    Mapping,
    /// A shape that only a host's codec knows.
    Opaque,
}

/// The model of a value: its content with every vector and string replaced
/// by the sequence it holds.
pub open spec fn model_of(v: Value) -> ValueModel
    decreases v,
{
    match v {
        Value::Null => ValueModel::Null,
        Value::Bool(b) => ValueModel::Bool(b),
        Value::Number(n) => ValueModel::Number(n),
        Value::Text(s) => ValueModel::Text(s@),
        Value::Sequence(items) => ValueModel::Sequence(
            Seq::new(
                items.len() as nat,
                |i: int|
                    if 0 <= i < items.len() {
                        model_of(items[i])
                    } else {
                        ValueModel::Null
                    },
            ),
        ),
        Value::Mapping(entries) => ValueModel::Mapping(
            Seq::new(
                entries.len() as nat,
                |i: int|
                    if 0 <= i < entries.len() {
                        (entries[i].0@, model_of(entries[i].1))
                    } else {
                        (Seq::empty(), ValueModel::Null)
                    },
            ),
        ),
    }
}

impl View for Value {
    type V = ValueModel;

    open spec fn view(&self) -> ValueModel {
        model_of(*self)
    }
}

impl ValueModel {
    /// The shape of this value.
    pub open spec fn kind(self) -> Kind {
        match self {
            ValueModel::Null => Kind::Null,
            ValueModel::Bool(_) => Kind::Bool,
            ValueModel::Number(_) => Kind::Number,
            ValueModel::Text(_) => Kind::Text,
            ValueModel::Sequence(_) => Kind::Sequence,
            ValueModel::Mapping(_) => Kind::Mapping,
        }
    }
}

/// The value of the first of the first `n` entries that is named `name`, if any.
pub open spec fn lookup_in(entries: Seq<(Seq<char>, ValueModel)>, name: Seq<char>, n: nat) -> Option<ValueModel>
    decreases n,
{
    if n == 0 {
        None
    } else {
        match lookup_in(entries, name, (n - 1) as nat) {
            Some(v) => Some(v),
            None => if entries[n - 1].0 == name {
                Some(entries[n - 1].1)
            } else {
                None
            },
        }
    }
}

/// The value that a mapping holds under `name`: that of its first entry of
/// that name.
pub open spec fn lookup(entries: Seq<(Seq<char>, ValueModel)>, name: Seq<char>) -> Option<ValueModel> {
    lookup_in(entries, name, entries.len())
}

impl Value {
    /// The shape of this value.
    pub fn kind(&self) -> (k: Kind)
        ensures
            k == self@.kind(),
    {
        match self {
            Value::Null => Kind::Null,
            Value::Bool(_) => Kind::Bool,
            Value::Number(_) => Kind::Number,
            Value::Text(_) => Kind::Text,
            Value::Sequence(_) => Kind::Sequence,
            Value::Mapping(_) => Kind::Mapping,
        }
    }

    /// Whether this value is `Null`.
    pub fn is_null(&self) -> (b: bool)
        ensures
            b == (self@ == ValueModel::Null),
    {
        match self {
            Value::Null => true,
            _ => false,
        }
    }
}

/// The model of a vector of values, item by item.
pub open spec fn items_view(items: Vec<Value>) -> Seq<ValueModel> {
    Seq::new(items.len() as nat, |i: int| items[i]@)
}

/// The model of a vector of named values, entry by entry.
pub open spec fn entries_view(entries: Vec<(String, Value)>) -> Seq<(Seq<char>, ValueModel)> {
    Seq::new(entries.len() as nat, |i: int| (entries[i].0@, entries[i].1@))
}

/// The view of a sequence value is the sequence of its items' views.
pub proof fn lemma_sequence_view(items: Vec<Value>)
    ensures
        Value::Sequence(items)@ == ValueModel::Sequence(items_view(items)),
{
    assert(Value::Sequence(items)@->Sequence_0 =~= items_view(items));
}

/// The view of a mapping value is the sequence of its entries' names and views.
pub proof fn lemma_mapping_view(entries: Vec<(String, Value)>)
    ensures
        Value::Mapping(entries)@ == ValueModel::Mapping(entries_view(entries)),
{
    assert(Value::Mapping(entries)@->Mapping_0 =~= entries_view(entries));
}

impl Value {
    /// A copy of this value.
    pub fn duplicate(&self) -> (copy: Value)
        ensures
            copy@ == self@,
        decreases self,
    {
        match self {
            Value::Null => Value::Null,
            Value::Bool(b) => Value::Bool(*b),
            Value::Number(n) => Value::Number(*n),
            Value::Text(s) => Value::Text(s.clone()),
            Value::Sequence(items) => {
                let mut out: Vec<Value> = Vec::new();
                let mut i: usize = 0;
                while i < items.len()
                    invariant
                        i <= items.len(),
                        out.len() == i,
                        *self is Sequence,
                        self->Sequence_0 == *items,
                        forall|j: int| 0 <= j < i ==> out[j]@ == items[j]@,
                    decreases items.len() - i,
                {
                    out.push(items[i].duplicate());
                    i += 1;
                }
                proof {
                    lemma_sequence_view(*items);
                    lemma_sequence_view(out);
                    assert(items_view(out) =~= items_view(*items));
                }
                Value::Sequence(out)
            },
            Value::Mapping(entries) => {
                let mut out: Vec<(String, Value)> = Vec::new();
                let mut i: usize = 0;
                while i < entries.len()
                    invariant
                        i <= entries.len(),
                        out.len() == i,
                        *self is Mapping,
                        self->Mapping_0 == *entries,
                        forall|j: int|
                            0 <= j < i ==> out[j].0@ == entries[j].0@ && out[j].1@ == entries[j].1@,
                    decreases entries.len() - i,
                {
                    out.push((entries[i].0.clone(), entries[i].1.duplicate()));
                    i += 1;
                }
                proof {
                    lemma_mapping_view(*entries);
                    lemma_mapping_view(out);
                    assert(entries_view(out) =~= entries_view(*entries));
                }
                Value::Mapping(out)
            },
        }
    }

    /// Whether this value and `other` hold the same content: the same shape,
    /// the same items in the same order, the same entries in the same order.
    pub fn same(&self, other: &Value) -> (r: bool)
        ensures
            r == (self@ == other@),
        decreases self,
    {
        match (self, other) {
            (Value::Null, Value::Null) => true,
            (Value::Bool(x), Value::Bool(y)) => *x == *y,
            (Value::Number(x), Value::Number(y)) => *x == *y,
            (Value::Text(x), Value::Text(y)) => *x == *y,
            (Value::Sequence(xs), Value::Sequence(ys)) => {
                proof {
                    lemma_sequence_view(*xs);
                    lemma_sequence_view(*ys);
                }
                if xs.len() != ys.len() {
                    assert(items_view(*xs).len() != items_view(*ys).len());
                    return false;
                }
                let mut i: usize = 0;
                while i < xs.len()
                    invariant
                        i <= xs.len(),
                        xs.len() == ys.len(),
                        *self is Sequence,
                        self->Sequence_0 == *xs,
                        self@ == ValueModel::Sequence(items_view(*xs)),
                        other@ == ValueModel::Sequence(items_view(*ys)),
                        forall|j: int| 0 <= j < i ==> xs[j]@ == ys[j]@,
                    decreases xs.len() - i,
                {
                    if !xs[i].same(&ys[i]) {
                        assert(items_view(*xs)[i as int] != items_view(*ys)[i as int]);
                        return false;
                    }
                    i += 1;
                }
                assert(items_view(*xs) =~= items_view(*ys));
                true
            },
            (Value::Mapping(xs), Value::Mapping(ys)) => {
                proof {
                    lemma_mapping_view(*xs);
                    lemma_mapping_view(*ys);
                }
                if xs.len() != ys.len() {
                    assert(entries_view(*xs).len() != entries_view(*ys).len());
                    return false;
                }
                let mut i: usize = 0;
                while i < xs.len()
                    invariant
                        i <= xs.len(),
                        xs.len() == ys.len(),
                        *self is Mapping,
                        self->Mapping_0 == *xs,
                        self@ == ValueModel::Mapping(entries_view(*xs)),
                        other@ == ValueModel::Mapping(entries_view(*ys)),
                        forall|j: int|
                            0 <= j < i ==> xs[j].0@ == ys[j].0@ && xs[j].1@ == ys[j].1@,
                    decreases xs.len() - i,
                {
                    if !(xs[i].0 == ys[i].0) || !xs[i].1.same(&ys[i].1) {
                        assert(entries_view(*xs)[i as int] != entries_view(*ys)[i as int]);
                        return false;
                    }
                    i += 1;
                }
                assert(entries_view(*xs) =~= entries_view(*ys));
                true
            },
            _ => false,
        }
    }
}

/// Looks `name` up among the entries of a mapping.
pub fn find_entry<'a>(entries: &'a Vec<(String, Value)>, name: &String) -> (found: Option<&'a Value>)
    ensures
        match found {
            Some(v) => lookup(entries_view(*entries), name@) == Some(v@),
            None => lookup(entries_view(*entries), name@).is_none(),
        },
{
    let ghost model = entries_view(*entries);
    let mut i: usize = 0;
    while i < entries.len()
        invariant
            i <= entries.len(),
            model == entries_view(*entries),
            lookup_in(model, name@, i as nat).is_none(),
        decreases entries.len() - i,
    {
        if entries[i].0 == *name {
            proof {
                lemma_lookup_found(model, name@, i as nat, model.len());
            }
            return Some(&entries[i].1);
        }
        i += 1;
    }
    None
}

/// What a lookup among the first `n` entries finds: the value of the first
/// entry of the name, or nothing where no entry bears it.
pub proof fn lemma_lookup_first(entries: Seq<(Seq<char>, ValueModel)>, name: Seq<char>, n: nat)
    ensures
        match lookup_in(entries, name, n) {
            Some(v) => exists|i: int|
                0 <= i < n && entries[i].0 == name && v == entries[i].1 && forall|j: int|
                    0 <= j < i ==> entries[j].0 != name,
            None => forall|j: int| 0 <= j < n ==> entries[j].0 != name,
        },
    decreases n,
{
    if n > 0 {
        lemma_lookup_first(entries, name, (n - 1) as nat);
        if lookup_in(entries, name, (n - 1) as nat).is_none() && entries[n - 1].0 == name {
            assert(0 <= n - 1 < n && entries[n - 1].0 == name && forall|j: int|
                0 <= j < n - 1 ==> entries[j].0 != name);
        }
    }
}

/// Among entries of distinct names, a lookup by an entry's name finds that
/// entry.
pub proof fn lemma_lookup_distinct(entries: Seq<(Seq<char>, ValueModel)>, i: int)
    requires
        0 <= i < entries.len(),
        forall|a: int, b: int| 0 <= a < b < entries.len() ==> entries[a].0 != entries[b].0,
    ensures
        lookup(entries, entries[i].0) == Some(entries[i].1),
{
    lemma_lookup_first(entries, entries[i].0, i as nat);
    lemma_lookup_found(entries, entries[i].0, i as nat, entries.len());
}

/// Once an entry of the name is found and none stands before it, every longer
/// prefix yields that entry.
pub proof fn lemma_lookup_found(entries: Seq<(Seq<char>, ValueModel)>, name: Seq<char>, i: nat, n: nat)
    requires
        i < n <= entries.len(),
        lookup_in(entries, name, i).is_none(),
        entries[i as int].0 == name,
    ensures
        lookup_in(entries, name, n) == Some(entries[i as int].1),
    decreases n,
{
    if n > i + 1 {
        lemma_lookup_found(entries, name, i, (n - 1) as nat);
    }
}

} // verus!
