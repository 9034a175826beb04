//! Function specifications and the registry that holds them by name.
//!
//! A registry is filled while it is open and read once it is frozen. A name is
//! registered once: a second registration under it is refused.

use vstd::prelude::*;
use crate::descriptor::{Parameter, TypeDescriptor};
use crate::error::RegistrationError;
use crate::native::{conforms, natives_view, Native, NativeModel};

verus! {

/// A function that can be called by name: its declared parameters in order,
/// the type of what it returns, and the native callable, which takes the
/// bound arguments in declared order.
pub struct FunctionSpec<F> {
    pub name: String,
    pub parameters: Vec<Parameter>,
    pub return_descriptor: TypeDescriptor,
    pub invoke: F,
}

/// Whether a parameter list is well formed: each parameter stands at its
/// own position and no two share a name.
pub open spec fn parameters_well_formed(parameters: Seq<Parameter>) -> bool {
    &&& forall|i: int| 0 <= i < parameters.len() ==> (#[trigger] parameters[i]).position == i
    &&& forall|i: int, j: int|
        0 <= i < j < parameters.len() ==> parameters[i].name@ != parameters[j].name@
}

/// Checks that each parameter stands at its own position and that no two
/// share a name.
pub fn check_parameters(parameters: &Vec<Parameter>) -> (ok: bool)
    ensures
        ok == parameters_well_formed(parameters@),
{
    let mut i: usize = 0;
    while i < parameters.len()
        invariant
            i <= parameters.len(),
            forall|a: int| 0 <= a < i ==> (#[trigger] parameters@[a]).position == a,
            forall|a: int, b: int| 0 <= a < b < i ==> parameters@[a].name@ != parameters@[b].name@,
        decreases parameters.len() - i,
    {
        if parameters[i].position != i {
            return false;
        }
        let mut j: usize = 0;
        while j < i
            invariant
                j <= i < parameters.len(),
                forall|a: int| 0 <= a < j ==> parameters@[a].name@ != parameters@[i as int].name@,
            decreases i - j,
        {
            if parameters[j].name == parameters[i].name {
                return false;
            }
            j += 1;
        }
        i += 1;
    }
    true
}

impl<F: Fn(Vec<Native>) -> Native> FunctionSpec<F> {
    /// Whether the declared parameters are well formed.
    pub open spec fn well_formed(self) -> bool {
        parameters_well_formed(self.parameters@)
    }

    /// Checks that the declared parameters are well formed.
    pub fn is_well_formed(&self) -> (ok: bool)
        ensures
            ok == self.well_formed(),
    {
        check_parameters(&self.parameters)
    }

    /// Whether the callable may be invoked on every list of arguments that
    /// holds one value for each declared parameter, in declared order, of the
    /// shape that the parameter's descriptor describes.
    pub open spec fn callable(self) -> bool {
        forall|args: Vec<Native>| #[trigger]
            arguments_conform(natives_view(args), self.parameters@) ==> call_requires(
                self.invoke,
                (args,),
            )
    }
}

/// Whether `args` holds one value for each parameter, in order, of the shape
/// that the parameter's descriptor describes.
pub open spec fn arguments_conform(args: Seq<NativeModel>, parameters: Seq<Parameter>) -> bool {
    args.len() == parameters.len() && forall|i: int|
        0 <= i < args.len() ==> conforms(#[trigger] args[i], parameters[i].descriptor)
}

/// The index of the first of the first `n` specifications that is named
/// `name`, if any.
pub open spec fn index_of<F>(specs: Seq<FunctionSpec<F>>, name: Seq<char>, n: nat) -> Option<int>
    decreases n,
{
    if n == 0 {
        None
    } else {
        match index_of(specs, name, (n - 1) as nat) {
            Some(i) => Some(i),
            None => if specs[n - 1].name@ == name {
                Some(n - 1)
            } else {
                None
            },
        }
    }
}

/// What `index_of` finds: an index whose specification bears the name, or
/// nothing where none of the first `n` does.
pub proof fn lemma_index_of<F>(specs: Seq<FunctionSpec<F>>, name: Seq<char>, n: nat)
    ensures
        match index_of(specs, name, n) {
            Some(i) => 0 <= i < n && specs[i].name@ == name && forall|j: int|
                0 <= j < i ==> specs[j].name@ != name,
            None => forall|j: int| 0 <= j < n ==> specs[j].name@ != name,
        },
    decreases n,
{
    if n > 0 {
        lemma_index_of(specs, name, (n - 1) as nat);
    }
}

/// A name-keyed table of function specifications.
pub struct FunctionRegistry<F> {
    entries: Vec<FunctionSpec<F>>,
    frozen: bool,
}

impl<F: Fn(Vec<Native>) -> Native> FunctionRegistry<F> {
    /// The registered specifications, in the order of their registration.
    pub closed spec fn specs(&self) -> Seq<FunctionSpec<F>> {
        self.entries@
    }

    /// Whether the registry takes no further registration.
    pub closed spec fn frozen(&self) -> bool {
        self.frozen
    }

    /// No two registered specifications bear the same name.
    pub open spec fn wf(&self) -> bool {
        forall|i: int, j: int|
            0 <= i < j < self.specs().len() ==> self.specs()[i].name@ != self.specs()[j].name@
    }

    /// Whether every registered callable may be invoked on the arguments that
    /// its declared parameters describe.
    pub open spec fn callable(&self) -> bool {
        forall|i: int| 0 <= i < self.specs().len() ==> (#[trigger] self.specs()[i]).callable()
    }

    /// The index of the specification registered under `name`, if any.
    pub open spec fn find(&self, name: Seq<char>) -> Option<int> {
        index_of(self.specs(), name, self.specs().len())
    }

    /// An empty registry, open for registration.
    pub fn new() -> (registry: Self)
        ensures
            registry.specs() == Seq::<FunctionSpec<F>>::empty(),
            !registry.frozen(),
            registry.wf(),
    {
        FunctionRegistry { entries: Vec::new(), frozen: false }
    }

    /// The number of registered functions.
    pub fn len(&self) -> (n: usize)
        ensures
            n == self.specs().len(),
    {
        self.entries.len()
    }

    /// Whether the registry was frozen.
    pub fn is_frozen(&self) -> (b: bool)
        ensures
            b == self.frozen(),
    {
        self.frozen
    }

    /// Ends the registration phase. The registered functions stay as they are.
    pub fn freeze(&mut self)
        ensures
            final(self).frozen(),
            final(self).specs() == old(self).specs(),
    {
        self.frozen = true;
    }

    /// The position of the function registered under `name`, if any.
    pub fn position(&self, name: &String) -> (found: Option<usize>)
        ensures
            match found {
                Some(i) => self.find(name@) == Some(i as int) && i < self.specs().len(),
                None => self.find(name@).is_none(),
            },
    {
        let mut i: usize = 0;
        while i < self.entries.len()
            invariant
                i <= self.entries.len(),
                index_of(self.specs(), name@, i as nat).is_none(),
            decreases self.entries.len() - i,
        {
            if self.entries[i].name == *name {
                proof {
                    lemma_index_found(self.specs(), name@, i as nat, self.specs().len());
                }
                return Some(i);
            }
            i += 1;
        }
        None
    }

    /// The function registered under `name`, if any.
    pub fn lookup(&self, name: &String) -> (found: Option<&FunctionSpec<F>>)
        ensures
            match found {
                Some(spec) => self.find(name@).is_some() && 0 <= self.find(name@).unwrap()
                    < self.specs().len() && *spec == self.specs()[self.find(name@).unwrap()]
                    && spec.name@ == name@,
                None => self.find(name@).is_none() && forall|i: int|
                    0 <= i < self.specs().len() ==> self.specs()[i].name@ != name@,
            },
    {
        proof {
            lemma_index_of(self.specs(), name@, self.specs().len());
        }
        match self.position(name) {
            Some(i) => Some(&self.entries[i]),
            None => None,
        }
    }

    /// Registers a function.
    ///
    /// A frozen registry refuses with `Frozen`; an open one that holds a
    /// function of the same name refuses with `DuplicateName`; either way it
    /// stays as it was. Otherwise the function is added after those already
    /// registered.
    pub fn register(&mut self, spec: FunctionSpec<F>) -> (r: Result<(), RegistrationError>)
        ensures
            final(self).frozen() == old(self).frozen(),
            old(self).wf() ==> final(self).wf(),
            old(self).callable() && spec.callable() ==> final(self).callable(),
            old(self).frozen() ==> r == Err::<(), RegistrationError>(RegistrationError::Frozen)
                && final(self).specs() == old(self).specs(),
            !old(self).frozen() && old(self).find(spec.name@).is_some() ==> r == Err::<
                (),
                RegistrationError,
            >(RegistrationError::DuplicateName) && final(self).specs() == old(self).specs(),
            !old(self).frozen() && old(self).find(spec.name@).is_none() ==> r == Ok::<
                (),
                RegistrationError,
            >(()) && final(self).specs() == old(self).specs().push(spec) && final(self).find(
                spec.name@,
            ) == Some(old(self).specs().len() as int),
            forall|other: Seq<char>|
                other != spec.name@ ==> final(self).find(other) == old(self).find(other),
    {
        proof {
            assert forall|other: Seq<char>| other != spec.name@ implies index_of(
                self.specs().push(spec),
                other,
                self.specs().len() + 1,
            ) == self.find(other) by {
                lemma_index_of_pushed(self.specs(), spec, other, self.specs().len());
            }
        }
        if self.frozen {
            return Err(RegistrationError::Frozen);
        }
        match self.position(&spec.name) {
            Some(_) => Err(RegistrationError::DuplicateName),
            None => {
                proof {
                    lemma_index_of(self.specs(), spec.name@, self.specs().len());
                    lemma_index_of_pushed(self.specs(), spec, spec.name@, self.specs().len());
                }
                self.entries.push(spec);
                Ok(())
            },
        }
    }
}

/// A specification added at the end changes nothing among those before it.
pub proof fn lemma_index_of_pushed<F>(
    specs: Seq<FunctionSpec<F>>,
    added: FunctionSpec<F>,
    name: Seq<char>,
    n: nat,
)
    requires
        n <= specs.len(),
    ensures
        index_of(specs.push(added), name, n) == index_of(specs, name, n),
    decreases n,
{
    if n > 0 {
        lemma_index_of_pushed(specs, added, name, (n - 1) as nat);
    }
}

/// Once a specification of the name is found and none stands before it,
/// every longer prefix yields its index.
pub proof fn lemma_index_found<F>(specs: Seq<FunctionSpec<F>>, name: Seq<char>, i: nat, n: nat)
    requires
        i < n <= specs.len(),
        index_of(specs, name, i).is_none(),
        specs[i as int].name@ == name,
    ensures
        index_of(specs, name, n) == Some(i as int),
    decreases n,
{
    if n > i + 1 {
        lemma_index_found(specs, name, i, (n - 1) as nat);
    }
}

} // verus!
