use cinema_booking::error::AppError;
use cinema_booking::ledger::Ledger;
use cinema_booking::models::{
    CreateBookingRequest, CreateSessionRequest, CreateTicketSaleRequest, NewCustomer, NewEmployee,
};
use cinema_booking::status::{next_status, BookingStatus, StatusAction};

const NOW: i64 = 1_700_000_000;

fn session_request(start: &str, price_cents: u32, capacity: u32) -> CreateSessionRequest {
    CreateSessionRequest {
        film_id: 1,
        cinema_id: 1,
        start_time: start.to_string(),
        ticket_price_cents: price_cents,
        capacity,
    }
}

fn customer(name: &str) -> NewCustomer {
    NewCustomer {
        first_name: name.to_string(),
        last_name: "Doe".to_string(),
        phone: "555-0100".to_string(),
    }
}

/// A ledger with one customer and one session of the given capacity.
fn ledger_with_session(capacity: u32) -> (Ledger, i32, i32) {
    let mut l = Ledger::new();
    let c = l.add_customer(customer("Ann")).unwrap();
    let s = l.create_session(&session_request("2030-01-01 18:00:00", 1250, capacity)).unwrap();
    (l, c, s.session_id)
}

fn book(l: &mut Ledger, session_id: i32, customer_id: i32, n: i32) -> Result<i32, AppError> {
    l.create_booking(&CreateBookingRequest { session_id, customer_id, ticket_count: n }, NOW)
        .map(|r| r.booking_id)
}

#[test]
fn full_session_rejects_further_booking() {
    let (mut l, c, s) = ledger_with_session(2);
    let first = l.create_booking(
        &CreateBookingRequest { session_id: s, customer_id: c, ticket_count: 2 },
        NOW,
    );
    assert!(first.is_ok());
    let second = book(&mut l, s, c, 1);
    assert_eq!(second, Err(AppError::CapacityExceeded { remaining: 0 }));
    assert_eq!(l.remaining_seats(s), Ok(0));
}

#[test]
fn confirmed_booking_cannot_be_cancelled() {
    let (mut l, c, s) = ledger_with_session(10);
    let id = book(&mut l, s, c, 3).unwrap();
    let confirmed = l.confirm_booking(id).unwrap();
    assert_eq!(confirmed.status, "completed");
    assert_eq!(l.cancel_booking(id).err(), Some(AppError::InvalidTransition));
    assert_eq!(l.get_booking(id).unwrap().status, "completed");
}

#[test]
fn sale_price_and_stats() {
    let (mut l, c, s) = ledger_with_session(10);
    let e = l
        .add_employee(NewEmployee {
            cinema_id: 1,
            first_name: "Eve".to_string(),
            last_name: "Roe".to_string(),
            position: "cashier".to_string(),
            age: 30,
        })
        .unwrap();
    let receipt = l
        .create_ticket_sale(
            &CreateTicketSaleRequest { session_id: s, customer_id: c, employee_id: e, ticket_count: 3 },
            NOW,
        )
        .unwrap();
    assert_eq!(receipt.total_price_cents, 3750);
    let stats = l.get_sales_stats();
    assert!(stats.total_sales >= 1);
    assert!(stats.total_revenue_cents >= 3750);
    assert_eq!(stats.total_tickets, 3);
    assert_eq!(l.get_ticket_sale(receipt.sale.sale_id).unwrap().total_price_cents, 3750);
}

#[test]
fn bookings_fill_capacity_exactly() {
    let (mut l, c, s) = ledger_with_session(5);
    let results: Vec<Result<i32, AppError>> = (0..4).map(|_| book(&mut l, s, c, 2)).collect();
    let ok = results.iter().filter(|r| r.is_ok()).count();
    assert_eq!(ok, 2);
    assert_eq!(results[2], Err(AppError::CapacityExceeded { remaining: 1 }));
    assert_eq!(results[3], Err(AppError::CapacityExceeded { remaining: 1 }));
    assert_eq!(book(&mut l, s, c, 1).is_ok(), true);
    assert_eq!(l.remaining_seats(s), Ok(0));
}

#[test]
fn cancelling_releases_seats() {
    let (mut l, c, s) = ledger_with_session(4);
    let id = book(&mut l, s, c, 4).unwrap();
    assert_eq!(l.remaining_seats(s), Ok(0));
    l.cancel_booking(id).unwrap();
    assert_eq!(l.remaining_seats(s), Ok(4));
    assert!(book(&mut l, s, c, 4).is_ok());
}

#[test]
fn completed_booking_keeps_seats() {
    let (mut l, c, s) = ledger_with_session(4);
    let id = book(&mut l, s, c, 3).unwrap();
    l.confirm_booking(id).unwrap();
    assert_eq!(l.remaining_seats(s), Ok(1));
}

#[test]
fn cancel_twice_is_same_state() {
    let (mut l, c, s) = ledger_with_session(4);
    let id = book(&mut l, s, c, 2).unwrap();
    let a = l.cancel_booking(id).unwrap();
    let b = l.cancel_booking(id).unwrap();
    assert_eq!(a.status, "cancelled");
    assert_eq!(b.status, "cancelled");
    assert_eq!(a.booking_time, b.booking_time);
    assert_eq!(l.remaining_seats(s), Ok(4));
}

#[test]
fn confirm_twice_succeeds() {
    let (mut l, c, s) = ledger_with_session(4);
    let id = book(&mut l, s, c, 2).unwrap();
    assert_eq!(l.confirm_booking(id).unwrap().status, "completed");
    assert_eq!(l.confirm_booking(id).unwrap().status, "completed");
}

#[test]
fn cancelled_booking_cannot_be_confirmed() {
    let (mut l, c, s) = ledger_with_session(4);
    let id = book(&mut l, s, c, 2).unwrap();
    l.cancel_booking(id).unwrap();
    assert_eq!(l.confirm_booking(id).err(), Some(AppError::InvalidTransition));
}

#[test]
fn unknown_booking_is_not_found() {
    let (mut l, _, _) = ledger_with_session(4);
    assert_eq!(l.confirm_booking(7).err(), Some(AppError::NotFound));
    assert_eq!(l.cancel_booking(0).err(), Some(AppError::NotFound));
    assert_eq!(l.get_booking(-1).err(), Some(AppError::NotFound));
}

#[test]
fn booking_rejects_bad_input() {
    let (mut l, c, s) = ledger_with_session(4);
    assert_eq!(book(&mut l, s, c, 0), Err(AppError::InvalidInput));
    assert_eq!(book(&mut l, s, c, -2), Err(AppError::InvalidInput));
    assert_eq!(book(&mut l, s + 1, c, 1), Err(AppError::NotFound));
    assert_eq!(book(&mut l, s, c + 1, 1), Err(AppError::NotFound));
}

#[test]
fn started_session_rejects_booking() {
    let (mut l, c, s) = ledger_with_session(4);
    let late = l.create_booking(
        &CreateBookingRequest { session_id: s, customer_id: c, ticket_count: 1 },
        1_893_520_800,
    );
    assert_eq!(late.err(), Some(AppError::InvalidInput));
    let just_before = l.create_booking(
        &CreateBookingRequest { session_id: s, customer_id: c, ticket_count: 1 },
        1_893_520_799,
    );
    assert!(just_before.is_ok());
}

#[test]
fn booking_response_reports_time_and_status() {
    let (mut l, c, s) = ledger_with_session(4);
    let r = l
        .create_booking(&CreateBookingRequest { session_id: s, customer_id: c, ticket_count: 2 }, NOW)
        .unwrap();
    assert_eq!(r.booking_id, 1);
    assert_eq!(r.session_id, s);
    assert_eq!(r.customer_id, c);
    assert_eq!(r.ticket_count, 2);
    assert_eq!(r.booking_time, "2023-11-14 22:13:20");
    assert_eq!(r.status, "active");
}

#[test]
fn unrepresentable_booking_time_is_rejected() {
    let (mut l, c, s) = ledger_with_session(4);
    let r = l.create_booking(
        &CreateBookingRequest { session_id: s, customer_id: c, ticket_count: 1 },
        i64::MIN,
    );
    assert_eq!(r.err(), Some(AppError::InvalidInput));
}

#[test]
fn session_start_is_parsed() {
    let mut l = Ledger::new();
    let s = l.create_session(&session_request("2030-01-01 18:00:00", 900, 50)).unwrap();
    assert_eq!(s.session_id, 1);
    assert_eq!(s.start_time, 1_893_520_800);
    assert_eq!(s.ticket_price_cents, 900);
    assert_eq!(s.capacity, 50);
    assert_eq!(l.get_session(1), Ok(s));
    assert_eq!(
        l.create_session(&session_request("tomorrow evening", 900, 50)).err(),
        Some(AppError::InvalidInput)
    );
    assert_eq!(l.get_session(2).err(), Some(AppError::NotFound));
}

#[test]
fn worklist_is_ordered_by_session_start() {
    let mut l = Ledger::new();
    let c = l.add_customer(customer("Ann")).unwrap();
    let late = l.create_session(&session_request("2030-01-02 12:00:00", 1000, 10)).unwrap();
    let early = l.create_session(&session_request("2030-01-01 18:00:00", 1000, 10)).unwrap();
    let b1 = book(&mut l, late.session_id, c, 1).unwrap();
    let b2 = book(&mut l, early.session_id, c, 1).unwrap();
    let b3 = book(&mut l, late.session_id, c, 1).unwrap();
    let b4 = book(&mut l, early.session_id, c, 1).unwrap();
    l.cancel_booking(b4).unwrap();
    let b5 = book(&mut l, early.session_id, c, 1).unwrap();
    l.confirm_booking(b5).unwrap();
    let list: Vec<i32> = l.get_active_bookings(NOW).iter().map(|b| b.booking_id).collect();
    assert_eq!(list, vec![b2, b1, b3]);
    let after_early: Vec<i32> =
        l.get_active_bookings(1_893_520_800).iter().map(|b| b.booking_id).collect();
    assert_eq!(after_early, vec![b1, b3]);
    assert_eq!(l.get_active_bookings(1_893_585_600).len(), 0);
    assert!(l.get_active_bookings(NOW).iter().all(|b| b.status == BookingStatus::Active));
}

#[test]
fn session_deletion_respects_references() {
    let (mut l, c, s) = ledger_with_session(4);
    let free = l.create_session(&session_request("2030-01-02 12:00:00", 500, 4)).unwrap();
    book(&mut l, s, c, 1).unwrap();
    assert_eq!(l.delete_session(s), Err(AppError::InvalidInput));
    assert_eq!(l.delete_session(free.session_id), Ok(()));
    assert_eq!(l.delete_session(free.session_id), Err(AppError::NotFound));
    assert_eq!(l.get_session(free.session_id).err(), Some(AppError::NotFound));
    assert_eq!(l.get_sessions().len(), 1);
    assert_eq!(book(&mut l, free.session_id, c, 1), Err(AppError::NotFound));
}

#[test]
fn sale_rejections() {
    let (mut l, c, s) = ledger_with_session(4);
    let req = |session_id, employee_id, ticket_count| CreateTicketSaleRequest {
        session_id,
        customer_id: c,
        employee_id,
        ticket_count,
    };
    assert_eq!(l.create_ticket_sale(&req(s, 1, 0), NOW).err(), Some(AppError::InvalidInput));
    assert_eq!(l.create_ticket_sale(&req(s + 5, 1, 1), NOW).err(), Some(AppError::NotFound));
    assert_eq!(l.create_ticket_sale(&req(s, 1, 1), NOW).err(), Some(AppError::NotFound));
    assert_eq!(l.get_ticket_sale(1).err(), Some(AppError::NotFound));
}

#[test]
fn stats_sum_over_sessions_with_different_prices() {
    let (mut l, c, s) = ledger_with_session(10);
    let s2 = l.create_session(&session_request("2030-01-02 12:00:00", 799, 10)).unwrap();
    let e = l
        .add_employee(NewEmployee {
            cinema_id: 1,
            first_name: "Eve".to_string(),
            last_name: "Roe".to_string(),
            position: "cashier".to_string(),
            age: 30,
        })
        .unwrap();
    assert_eq!(l.get_sales_stats().total_sales, 0);
    assert_eq!(l.get_sales_stats().total_revenue_cents, 0);
    for (sid, n) in [(s, 2), (s2.session_id, 5), (s, 1)] {
        l.create_ticket_sale(
            &CreateTicketSaleRequest { session_id: sid, customer_id: c, employee_id: e, ticket_count: n },
            NOW,
        )
        .unwrap();
    }
    let stats = l.get_sales_stats();
    assert_eq!(stats.total_sales, 3);
    assert_eq!(stats.total_revenue_cents, 2 * 1250 + 5 * 799 + 1250);
    assert_eq!(stats.total_tickets, 8);
    // a sale does not draw on booking capacity
    assert_eq!(l.remaining_seats(s), Ok(10));
}

#[test]
fn transition_table() {
    assert_eq!(next_status(BookingStatus::Active, StatusAction::Confirm), Ok(BookingStatus::Completed));
    assert_eq!(next_status(BookingStatus::Active, StatusAction::Cancel), Ok(BookingStatus::Cancelled));
    assert_eq!(next_status(BookingStatus::Completed, StatusAction::Confirm), Ok(BookingStatus::Completed));
    assert_eq!(next_status(BookingStatus::Cancelled, StatusAction::Cancel), Ok(BookingStatus::Cancelled));
    assert_eq!(next_status(BookingStatus::Completed, StatusAction::Cancel), Err(AppError::InvalidTransition));
    assert_eq!(next_status(BookingStatus::Cancelled, StatusAction::Confirm), Err(AppError::InvalidTransition));
    assert_eq!(BookingStatus::Active.as_str(), "active");
}

#[test]
fn confirm_cancel_race_has_one_winner() {
    let (mut l, c, s) = ledger_with_session(4);
    let a = book(&mut l, s, c, 1).unwrap();
    let b = book(&mut l, s, c, 1).unwrap();
    assert!(l.confirm_booking(a).is_ok());
    assert_eq!(l.cancel_booking(a).err(), Some(AppError::InvalidTransition));
    assert!(l.cancel_booking(b).is_ok());
    assert_eq!(l.confirm_booking(b).err(), Some(AppError::InvalidTransition));
    assert_eq!(l.get_booking(a).unwrap().status, "completed");
    assert_eq!(l.get_booking(b).unwrap().status, "cancelled");
}

#[test]
fn booking_details_join_names() {
    let (mut l, c, s) = ledger_with_session(4);
    let id = book(&mut l, s, c, 2).unwrap();
    let d = l.get_booking_details(id, "Arrival".to_string(), "Rex".to_string()).unwrap();
    assert_eq!(d.booking_id, id);
    assert_eq!(d.film_title, "Arrival");
    assert_eq!(d.cinema_name, "Rex");
    assert_eq!(d.start_time, "2030-01-01 18:00:00");
    assert_eq!(d.customer_name, "Ann Doe");
    assert_eq!(d.ticket_count, 2);
    assert_eq!(d.status, "active");
    assert!(l.get_booking_details(id + 1, String::new(), String::new()).is_err());
}
