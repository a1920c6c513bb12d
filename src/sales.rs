use vstd::prelude::*;

use crate::models::{Session, TicketSale};

verus! {

/// The price of sale `s`: its ticket count times the ticket price of its
/// session, session `sid` standing at index `sid - 1` of `sessions`.
pub open spec fn sale_price(s: TicketSale, sessions: Seq<Session>) -> int {
    s.ticket_count * sessions[s.session_id - 1].ticket_price_cents
}

/// The revenue of the sales `sales`: the sum of their prices.
pub open spec fn revenue(sales: Seq<TicketSale>, sessions: Seq<Session>) -> int
    decreases sales.len(),
{
    if sales.len() == 0 {
        0
    } else {
        revenue(sales.drop_last(), sessions) + sale_price(sales.last(), sessions)
    }
}

/// The tickets of the sales `sales`.
pub open spec fn tickets_sold(sales: Seq<TicketSale>) -> int
    decreases sales.len(),
{
    if sales.len() == 0 {
        0
    } else {
        tickets_sold(sales.drop_last()) + sales.last().ticket_count
    }
}

/// The price of `ticket_count` tickets at `price_cents` each.
pub fn sale_total_cents(ticket_count: i32, price_cents: u32) -> (r: u64)
    requires
        ticket_count >= 0,
    ensures
        r == ticket_count * price_cents,
{
    proof {
        assert(ticket_count * price_cents <= 0x7fff_ffff * 0xffff_ffffint) by (nonlinear_arith)
            requires
                0 <= ticket_count <= 0x7fff_ffff,
                0 <= price_cents <= 0xffff_ffff,
        ;
    }
    (ticket_count as u64) * (price_cents as u64)
}

} // verus!
