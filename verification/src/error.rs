//! Error type shared by the page table engine.

use vstd::prelude::*;

verus! {

/// The only recoverable error this core defines: a caller asked for an
/// operation that conflicts with the current table state, such as mapping an
/// already-present leaf or unmapping an absent one.
#[derive(Clone, Copy, Debug, PartialEq, Eq, Structural)]
pub enum RvmError {
    InvalidParam,
}

/// Result type of the page table operations.
pub type RvmResult<T> = Result<T, RvmError>;

} // verus!
