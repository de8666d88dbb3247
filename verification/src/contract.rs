//! Capability contracts as data.
//!
//! A capability contract is a named set of operations, each either required
//! (an implementer must supply its own body) or defaulted (a body is inherited
//! unless the implementer overrides it).  Whether a concrete type satisfies a
//! bound is resolved structurally: the type's provided operations must cover
//! every required operation of the contract.  Composition of two contracts as
//! a bound is the union of their operations.

use vstd::prelude::*;

use crate::errors::CoreError;

verus! {

/// A capability contract over operation identifiers.
pub struct Contract {
    /// Operations an implementer must supply itself.
    pub required: Vec<u64>,
    /// Operations with a default body, inherited unless overridden.
    pub defaulted: Vec<u64>,
}

/// The operations a concrete type supplies: its own bodies for required
/// operations, plus any defaults it chooses to override.
pub struct Implementation {
    /// Identifiers of the operations the type supplies itself.
    pub provided: Vec<u64>,
}

/// `provided` covers `required`: every required operation is supplied.
pub open spec fn covers(provided: Seq<u64>, required: Seq<u64>) -> bool {
    forall|op: u64| required.contains(op) ==> provided.contains(op)
}

/// Whether a vector of operation identifiers holds `op`.
fn holds_op(ops: &Vec<u64>, op: u64) -> (r: bool)
    ensures
        r == ops@.contains(op),
{
    for i in 0..ops.len()
        invariant
            forall|j: int| 0 <= j < i ==> ops@[j] != op,
    {
        if ops[i] == op {
            return true;
        }
    }
    false
}

/// Whether `imp` satisfies `contract`: every required operation is provided.
/// Defaulted operations never constrain the implementer.
pub fn satisfies(imp: &Implementation, contract: &Contract) -> (r: bool)
    ensures
        r == covers(imp.provided@, contract.required@),
{
    for i in 0..contract.required.len()
        invariant
            forall|j: int| 0 <= j < i ==> imp.provided@.contains(#[trigger] contract.required@[j]),
    {
        if !holds_op(&imp.provided, contract.required[i]) {
            assert(contract.required@.contains(contract.required@[i as int]));
            return false;
        }
    }
    true
}

/// Composition of two contracts as a single bound: a type must satisfy both
/// simultaneously, so the required and defaulted operations are unioned.
pub fn compose(a: &Contract, b: &Contract) -> (r: Contract)
    ensures
        r.required@ == a.required@ + b.required@,
        r.defaulted@ == a.defaulted@ + b.defaulted@,
{
    let mut required = a.required.clone();
    let mut rest = b.required.clone();
    required.append(&mut rest);
    let mut defaulted = a.defaulted.clone();
    let mut rest = b.defaulted.clone();
    defaulted.append(&mut rest);
    Contract { required, defaulted }
}

/// A bound instantiated for a concrete implementation: the witness that the
/// implementation satisfies the contract, checked at construction.
pub struct BoundedInstance {
    /// The contract the bound names.
    pub contract: Contract,
    /// The implementation the bound was instantiated with.
    pub implementation: Implementation,
}

impl BoundedInstance {
    /// The instance is well formed: its implementation satisfies its contract.
    pub open spec fn wf(self) -> bool {
        covers(self.implementation.provided@, self.contract.required@)
    }

    /// An operation is available on the instance when the implementation
    /// provides it or the contract carries a default for it.
    pub open spec fn available_spec(self, op: u64) -> bool {
        self.implementation.provided@.contains(op) || self.contract.defaulted@.contains(op)
    }

    /// Instantiate a bound: succeeds exactly when `imp` satisfies `contract`,
    /// and fails with `CapabilityMissing` otherwise, before any data flows.
    pub fn new(imp: Implementation, contract: Contract) -> (r: Result<BoundedInstance, CoreError>)
        ensures
            r is Ok <==> covers(imp.provided@, contract.required@),
            r matches Ok(b) ==> b == (BoundedInstance { contract, implementation: imp }) && b.wf(),
            r matches Err(e) ==> e == CoreError::CapabilityMissing,
    {
        if satisfies(&imp, &contract) {
            Ok(BoundedInstance { contract, implementation: imp })
        } else {
            Err(CoreError::CapabilityMissing)
        }
    }

    /// Whether `op` may be invoked on this instance: either the implementation
    /// provides it, or the contract's default body is inherited.
    pub fn has_op(&self, op: u64) -> (r: bool)
        ensures
            r == self.available_spec(op),
    {
        holds_op(&self.implementation.provided, op) || holds_op(&self.contract.defaulted, op)
    }
}

/// An implementation that lacks one required operation never satisfies the
/// contract, no matter what else it provides: dropping a required operation
/// makes instantiation fail with `CapabilityMissing`.
pub proof fn lemma_capability_missing(weakened: Seq<u64>, required: Seq<u64>, op: u64)
    requires
        required.contains(op),
        !weakened.contains(op),
    ensures
        !covers(weakened, required),
{
}

/// A composed bound is satisfied exactly when both parts are: composition is
/// the structural intersection of the satisfying types.
pub proof fn lemma_compose_bound(provided: Seq<u64>, req_a: Seq<u64>, req_b: Seq<u64>)
    ensures
        covers(provided, req_a + req_b) <==> covers(provided, req_a) && covers(provided, req_b),
{
    assert forall|op: u64| req_a.contains(op) implies (req_a + req_b).contains(op) by {
        let i = choose|i: int| 0 <= i < req_a.len() && req_a[i] == op;
        assert((req_a + req_b)[i] == op);
    }
    assert forall|op: u64| req_b.contains(op) implies (req_a + req_b).contains(op) by {
        let i = choose|i: int| 0 <= i < req_b.len() && req_b[i] == op;
        assert((req_a + req_b)[req_a.len() + i] == op);
    }
}

/// Resolve an opaque contract-typed return: every code path must commit to the
/// same concrete type.  Succeeds with that type when all branches agree, and
/// fails with `AmbiguousOpaqueReturn` when two branches differ.
pub fn resolve_opaque_return(branches: &Vec<u64>) -> (r: Result<u64, CoreError>)
    requires
        branches@.len() >= 1,
    ensures
        r is Ok <==> (forall|i: int| 0 <= i < branches@.len() ==> #[trigger] branches@[i] == branches@[0]),
        r matches Ok(t) ==> t == branches@[0],
        r matches Err(e) ==> e == CoreError::AmbiguousOpaqueReturn,
{
    let first = branches[0];
    for i in 1..branches.len()
        invariant
            branches@.len() >= 1,
            first == branches@[0],
            forall|j: int| 0 <= j < i ==> #[trigger] branches@[j] == branches@[0],
    {
        if branches[i] != first {
            return Err(CoreError::AmbiguousOpaqueReturn);
        }
    }
    Ok(first)
}

} // verus!
