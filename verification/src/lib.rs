//! Bounded polymorphism and aggregation core.
//!
//! The library models capability contracts (named sets of operations that a
//! type may satisfy), generic containers whose methods are gated by such
//! capabilities, static and dynamic dispatch over capability operations, and
//! an engine that sorts partially or totally ordered sequences and aggregates
//! key sequences into frequency maps.

pub mod basics;
pub mod capability;
pub mod container;
pub mod contract;
pub mod counting;
pub mod errors;
pub mod objects;
pub mod sorting;
pub mod values;

pub use errors::CoreError;
