//! The error taxonomy of the core.

use vstd::prelude::*;

verus! {

/// Every failure the core can report.
///
/// Structural errors (`CapabilityMissing`, `AmbiguousOpaqueReturn`) arise when
/// a bound or an opaque return is resolved, before any data is processed.
/// Data-dependent errors (`IncomparableValues`, `KeyAbsent`) are returned to
/// the immediate caller of the operation that hit them.
#[derive(Clone, Copy, Debug, PartialEq, Eq, Structural)]
pub enum CoreError {
    /// A type lacks a required, non-defaulted operation of a contract.
    CapabilityMissing,
    /// An opaque contract-typed return would yield differing concrete types
    /// across branches.
    AmbiguousOpaqueReturn,
    /// A partial-order sort met a pair of values with no resolution.
    IncomparableValues,
    /// A lookup found no entry, and the caller supplied no fallback.
    KeyAbsent,
}

} // verus!
