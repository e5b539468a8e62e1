//! What the interpreter attaches to a call: the evaluation domain, the
//! stage and the qualification of its data, and the execution context.

use crate::value::Value;
use vstd::prelude::*;

verus! {

/// An evaluation domain: the party to which data is known. Data of a lower
/// domain is known to every higher one.
#[derive(Clone, Copy, Debug, PartialEq, Eq, Structural)]
pub enum DomainType {
    Public,
    Verifier,
    Prover,
}

/// The stage of a value: fixed before the run, or computed during it.
#[derive(Clone, Copy, Debug, PartialEq, Eq, Structural)]
pub enum StageType {
    Pre,
    Post,
}

/// How a value is represented: as itself, or in committed form.
#[derive(Clone, Copy, Debug, PartialEq, Eq, Structural)]
pub enum QualifiedType {
    Plain,
    Committed,
}

impl DomainType {
    /// The height of the domain in the order of visibility.
    pub open spec fn rank(self) -> nat {
        match self {
            DomainType::Public => 0,
            DomainType::Verifier => 1,
            DomainType::Prover => 2,
        }
    }

    /// Whether data of this domain can be observed by a party that executes
    /// in `current`.
    pub open spec fn visible_in_spec(self, current: DomainType) -> bool {
        self.rank() <= current.rank()
    }

    /// Whether data of this domain can be observed by a party that executes
    /// in `current`.
    #[verifier::when_used_as_spec(visible_in_spec)]
    pub fn visible_in(self, current: DomainType) -> (r: bool)
        ensures
            r == self.visible_in_spec(current),
    {
        match (self, current) {
            (DomainType::Public, _) => true,
            (DomainType::Verifier, DomainType::Public) => false,
            (DomainType::Verifier, _) => true,
            (DomainType::Prover, DomainType::Prover) => true,
            (DomainType::Prover, _) => false,
        }
    }
}

/// Visibility orders the domains: every domain sees itself, two domains that
/// see each other are one, and what is visible in a domain is visible in
/// every domain that sees it.
pub proof fn lemma_visibility_is_an_order(a: DomainType, b: DomainType, c: DomainType)
    ensures
        a.visible_in(a),
        a.visible_in(b) && b.visible_in(a) ==> a == b,
        a.visible_in(b) && b.visible_in(c) ==> a.visible_in(c),
{
}

/// The execution context of a call. It carries the domain in which the
/// running party executes.
#[derive(Debug)]
pub struct ContextRef {
    pub current_domain: DomainType,
}

impl ContextRef {
    /// The context of a party that executes in `current_domain`.
    pub fn new(current_domain: DomainType) -> (ctx: ContextRef)
        ensures
            ctx.current_domain == current_domain,
    {
        ContextRef { current_domain }
    }

    /// The placeholder for a value that the running party cannot observe.
    pub fn unknown(&self) -> (v: Value)
        ensures
            v@ is Unknown,
    {
        Value::Unknown
    }
}

/// The evaluation stack of the interpreter, which a native function that
/// evaluates further may push to and pop from.
#[derive(Debug)]
pub struct Stack {
    pub slots: Vec<Value>,
}

impl Stack {
    /// The empty stack.
    pub fn new() -> (stack: Stack)
        ensures
            stack.slots@.len() == 0,
    {
        Stack { slots: Vec::new() }
    }
}

} // verus!
