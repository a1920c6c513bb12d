use vstd::prelude::*;

use crate::error::AppError;

verus! {

/// Lifecycle state of a booking. `Active` is the initial state; the two
/// others are terminal.
#[derive(Clone, Copy, Debug, PartialEq, Eq, Structural)]
pub enum BookingStatus {
    Active,
    Completed,
    Cancelled,
}

/// A requested change of a booking's status.
#[derive(Clone, Copy, Debug, PartialEq, Eq, Structural)]
pub enum StatusAction {
    Confirm,
    Cancel,
}

impl BookingStatus {
    /// Whether a booking in this state keeps its seats reserved.
    pub open spec fn holds_seats(self) -> bool {
        self != BookingStatus::Cancelled
    }

    /// The name under which the state is stored and reported.
    pub open spec fn name(self) -> Seq<char> {
        match self {
            BookingStatus::Active => "active"@,
            BookingStatus::Completed => "completed"@,
            BookingStatus::Cancelled => "cancelled"@,
        }
    }

    pub fn as_str(&self) -> (r: &'static str)
        ensures
            r@ == self.name(),
    {
        match self {
            BookingStatus::Active => "active",
            BookingStatus::Completed => "completed",
            BookingStatus::Cancelled => "cancelled",
        }
    }
}

/// The transition table. Confirming or cancelling an active booking moves it
/// to the matching terminal state; repeating the transition that led to a
/// terminal state leaves it there; any other change is refused.
pub open spec fn step(s: BookingStatus, a: StatusAction) -> Result<BookingStatus, AppError> {
    match (s, a) {
        (BookingStatus::Active, StatusAction::Confirm) => Ok(BookingStatus::Completed),
        (BookingStatus::Active, StatusAction::Cancel) => Ok(BookingStatus::Cancelled),
        (BookingStatus::Completed, StatusAction::Confirm) => Ok(BookingStatus::Completed),
        (BookingStatus::Cancelled, StatusAction::Cancel) => Ok(BookingStatus::Cancelled),
        _ => Err(AppError::InvalidTransition),
    }
}

/// Applies `a` to a booking in state `s`.
pub fn next_status(s: BookingStatus, a: StatusAction) -> (r: Result<BookingStatus, AppError>)
    ensures
        r == step(s, a),
{
    match (s, a) {
        (BookingStatus::Active, StatusAction::Confirm) => Ok(BookingStatus::Completed),
        (BookingStatus::Active, StatusAction::Cancel) => Ok(BookingStatus::Cancelled),
        (BookingStatus::Completed, StatusAction::Confirm) => Ok(BookingStatus::Completed),
        (BookingStatus::Cancelled, StatusAction::Cancel) => Ok(BookingStatus::Cancelled),
        _ => Err(AppError::InvalidTransition),
    }
}

} // verus!
