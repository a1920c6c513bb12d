use vstd::prelude::*;

verus! {

/// The error kinds that every engine operation can report.
#[derive(Clone, Copy, Debug, PartialEq, Eq, Structural)]
pub enum AppError {
    /// A referenced entity does not exist.
    NotFound,
    /// A field is malformed or out of range.
    InvalidInput,
    /// The requested booking-status change is not allowed.
    InvalidTransition,
    /// The booking would oversell its session; `remaining` seats are still free.
    CapacityExceeded { remaining: u32 },
    /// The store cannot take more records.
    StorageUnavailable,
}

} // verus!
