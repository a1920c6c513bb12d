use vstd::prelude::*;

use crate::status::BookingStatus;

verus! {

/// A screening: one film in one cinema at one time. Times are seconds since
/// the Unix epoch (UTC); prices are in cents.
#[derive(Clone, Copy, Debug, PartialEq, Eq, Structural)]
pub struct Session {
    pub session_id: i32,
    pub film_id: i32,
    pub cinema_id: i32,
    pub start_time: i64,
    pub ticket_price_cents: u32,
    pub capacity: u32,
}

/// A seat reservation for a session.
#[derive(Clone, Copy, Debug, PartialEq, Eq, Structural)]
pub struct Booking {
    pub booking_id: i32,
    pub session_id: i32,
    pub customer_id: i32,
    pub ticket_count: i32,
    pub booking_time: i64,
    pub status: BookingStatus,
}

/// A realized sale of tickets for a session.
#[derive(Clone, Copy, Debug, PartialEq, Eq, Structural)]
pub struct TicketSale {
    pub sale_id: i32,
    pub session_id: i32,
    pub customer_id: i32,
    pub employee_id: i32,
    pub ticket_count: i32,
    pub sale_time: i64,
}

/// A sale together with its price, `ticket_count` times the session's ticket price.
#[derive(Clone, Copy, Debug, PartialEq, Eq, Structural)]
pub struct SaleReceipt {
    pub sale: TicketSale,
    pub total_price_cents: u64,
}

/// Aggregate figures over all recorded sales.
#[derive(Clone, Copy, Debug, PartialEq, Eq, Structural)]
pub struct SalesStats {
    pub total_sales: u64,
    pub total_revenue_cents: u128,
    pub total_tickets: u64,
}

pub struct Customer {
    pub customer_id: i32,
    pub first_name: String,
    pub last_name: String,
    pub phone: String,
}

pub struct NewCustomer {
    pub first_name: String,
    pub last_name: String,
    pub phone: String,
}

pub struct Employee {
    pub employee_id: i32,
    pub cinema_id: i32,
    pub first_name: String,
    pub last_name: String,
    pub position: String,
    pub age: i32,
}

pub struct NewEmployee {
    pub cinema_id: i32,
    pub first_name: String,
    pub last_name: String,
    pub position: String,
    pub age: i32,
}

/// A request to open a screening. `start_time` is written `YYYY-MM-DD HH:MM:SS`.
pub struct CreateSessionRequest {
    pub film_id: i32,
    pub cinema_id: i32,
    pub start_time: String,
    pub ticket_price_cents: u32,
    pub capacity: u32,
}

#[derive(Clone, Copy, Debug, PartialEq, Eq, Structural)]
pub struct CreateBookingRequest {
    pub session_id: i32,
    pub customer_id: i32,
    pub ticket_count: i32,
}

#[derive(Clone, Copy, Debug, PartialEq, Eq, Structural)]
pub struct CreateTicketSaleRequest {
    pub session_id: i32,
    pub customer_id: i32,
    pub employee_id: i32,
    pub ticket_count: i32,
}

/// A booking as reported to clients: the time as text, the status by name.
pub struct BookingResponse {
    pub booking_id: i32,
    pub session_id: i32,
    pub customer_id: i32,
    pub ticket_count: i32,
    pub booking_time: String,
    pub status: String,
}

/// A booking joined with the names a client shows: film, cinema, start of
/// the session as text, and the customer's full name.
pub struct BookingWithDetailsResponse {
    pub booking_id: i32,
    pub film_title: String,
    pub cinema_name: String,
    pub start_time: String,
    pub customer_name: String,
    pub ticket_count: i32,
    pub status: String,
}

/// A request to add or change a cinema. Times of day are written `HH:MM:SS`.
pub struct CreateCinemaRequest {
    pub name: String,
    pub address: String,
    pub employee_count: i32,
    pub hall_count: i32,
    pub opening_time: String,
    pub closing_time: String,
}

/// A request to add or change a film. Dates are written `YYYY-MM-DD`.
pub struct CreateFilmRequest {
    pub title: String,
    pub age_restriction: String,
    pub is_booking_available: bool,
    pub start_date: String,
    pub end_date: String,
}

} // verus!
