use vstd::prelude::*;

use crate::error::AppError;
use crate::ledger::{
    after_transition, new_sale, sale_error, seats_held, transition_result, Ledger, LedgerModel,
};
use crate::models::CreateTicketSaleRequest;
use crate::models::{Booking, Session, TicketSale};
use crate::sales::{revenue, sale_price, tickets_sold};
use crate::status::{step, BookingStatus, StatusAction};

verus! {

/// The other of the two status changes.
pub open spec fn other(a: StatusAction) -> StatusAction {
    match a {
        StatusAction::Confirm => StatusAction::Cancel,
        StatusAction::Cancel => StatusAction::Confirm,
    }
}

/// No session of a well-formed ledger is oversold: the tickets of its active
/// and completed bookings never exceed its capacity. Every operation that
/// changes a ledger keeps it well-formed, so this holds at all times.
pub proof fn capacity_never_exceeded(l: Ledger, sid: i32)
    requires
        l.wf(),
        l@.known_session(sid),
    ensures
        0 <= seats_held(l@.bookings, sid) <= l@.session(sid).capacity,
{
    lemma_held_nonneg(l@.bookings, sid);
}

proof fn lemma_held_nonneg(bs: Seq<Booking>, sid: i32)
    requires
        forall|i: int| 0 <= i < bs.len() ==> (#[trigger] bs[i]).ticket_count > 0,
    ensures
        seats_held(bs, sid) >= 0,
    decreases bs.len(),
{
    if bs.len() > 0 {
        lemma_held_nonneg(bs.drop_last(), sid);
    }
}

/// Only an active booking changes state, and only to the terminal state that
/// the action names; repeating a transition that succeeded changes nothing;
/// the other transition from the terminal state it reached is refused.
pub proof fn transitions_are_legal(s: BookingStatus, a: StatusAction)
    ensures
        step(s, a) is Ok && step(s, a)->Ok_0 != s ==> s == BookingStatus::Active,
        step(s, a) is Ok && a == StatusAction::Confirm ==> step(s, a)->Ok_0
            == BookingStatus::Completed,
        step(s, a) is Ok && a == StatusAction::Cancel ==> step(s, a)->Ok_0
            == BookingStatus::Cancelled,
        step(s, a) is Ok ==> step(step(s, a)->Ok_0, a) == step(s, a),
        step(s, a) is Ok ==> step(step(s, a)->Ok_0, other(a)) == Err::<BookingStatus, AppError>(
            AppError::InvalidTransition,
        ),
        step(s, a) is Err ==> step(s, a) == Err::<BookingStatus, AppError>(
            AppError::InvalidTransition,
        ),
{
}

/// Cancelling a booking a second time leaves the bookings as the first
/// cancellation left them, and reports the same booking.
pub proof fn cancel_is_idempotent(bs: Seq<Booking>, id: i32)
    requires
        transition_result(bs, id, StatusAction::Cancel) is Ok,
    ensures
        after_transition(after_transition(bs, id, StatusAction::Cancel), id, StatusAction::Cancel)
            == after_transition(bs, id, StatusAction::Cancel),
        transition_result(after_transition(bs, id, StatusAction::Cancel), id, StatusAction::Cancel)
            == transition_result(bs, id, StatusAction::Cancel),
{
    let once = after_transition(bs, id, StatusAction::Cancel);
    let b = transition_result(bs, id, StatusAction::Cancel)->Ok_0;
    assert(once[id - 1] == b);
    assert(once.update(id - 1, b) =~= once);
}

/// Confirming a booking a second time leaves the bookings as the first
/// confirmation left them, and reports the same booking.
pub proof fn confirm_is_idempotent(bs: Seq<Booking>, id: i32)
    requires
        transition_result(bs, id, StatusAction::Confirm) is Ok,
    ensures
        after_transition(after_transition(bs, id, StatusAction::Confirm), id, StatusAction::Confirm)
            == after_transition(bs, id, StatusAction::Confirm),
        transition_result(
            after_transition(bs, id, StatusAction::Confirm),
            id,
            StatusAction::Confirm,
        ) == transition_result(bs, id, StatusAction::Confirm),
{
    let once = after_transition(bs, id, StatusAction::Confirm);
    let b = transition_result(bs, id, StatusAction::Confirm)->Ok_0;
    assert(once[id - 1] == b);
    assert(once.update(id - 1, b) =~= once);
}

/// When a confirmation and a cancellation of one active booking race, the
/// one applied first wins and the other is refused with
/// `InvalidTransition`: the booking ends completed or cancelled, as the first
/// one says, and nothing else changes.
pub proof fn confirm_cancel_race(bs: Seq<Booking>, id: i32, first: StatusAction)
    requires
        1 <= id <= bs.len(),
        bs[id - 1].status == BookingStatus::Active,
    ensures
        transition_result(bs, id, first) is Ok,
        transition_result(after_transition(bs, id, first), id, other(first)) == Err::<
            Booking,
            AppError,
        >(AppError::InvalidTransition),
        after_transition(after_transition(bs, id, first), id, other(first)) == after_transition(
            bs,
            id,
            first,
        ),
        after_transition(bs, id, first) == bs.update(
            id - 1,
            Booking {
                status: if first == StatusAction::Confirm {
                    BookingStatus::Completed
                } else {
                    BookingStatus::Cancelled
                },
                ..bs[id - 1]
            },
        ),
{
}

/// Recording one more sale raises the revenue by exactly that sale's price
/// and the ticket total by its ticket count.
pub proof fn revenue_counts_each_sale(
    sales: Seq<TicketSale>,
    sessions: Seq<Session>,
    s: TicketSale,
)
    ensures
        revenue(sales.push(s), sessions) == revenue(sales, sessions) + sale_price(s, sessions),
        tickets_sold(sales.push(s)) == tickets_sold(sales) + s.ticket_count,
{
    assert(sales.push(s).drop_last() =~= sales);
}

/// A sale that the ledger accepts shows in the revenue at once: the revenue
/// after it is the revenue before plus its ticket count times its session's
/// ticket price.
pub proof fn accepted_sale_shows_in_revenue(m: LedgerModel, req: CreateTicketSaleRequest, now: i64)
    requires
        m.inv(),
        sale_error(m, req) is None,
    ensures
        revenue(m.sales.push(new_sale(m, req, now)), m.sessions) == revenue(m.sales, m.sessions)
            + req.ticket_count * m.session(req.session_id).ticket_price_cents,
{
    revenue_counts_each_sale(m.sales, m.sessions, new_sale(m, req, now));
}

/// The revenue of a list of sales is the sum of its parts: splitting the
/// list anywhere splits the revenue.
pub proof fn revenue_is_additive(a: Seq<TicketSale>, b: Seq<TicketSale>, sessions: Seq<Session>)
    ensures
        revenue(a + b, sessions) == revenue(a, sessions) + revenue(b, sessions),
    decreases b.len(),
{
    if b.len() == 0 {
        assert(a + b =~= a);
    } else {
        assert((a + b).drop_last() =~= a + b.drop_last());
        revenue_is_additive(a, b.drop_last(), sessions);
    }
}

} // verus!
