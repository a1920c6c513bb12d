use vstd::prelude::*;

use crate::clock::{format_timestamp, parse_timestamp, parsed_timestamp, timestamp_text};
use crate::error::AppError;
use crate::models::{
    Booking, BookingResponse, BookingWithDetailsResponse, CreateBookingRequest, CreateSessionRequest, Customer, Employee,
    CreateTicketSaleRequest, NewCustomer, NewEmployee, SaleReceipt, SalesStats, Session,
    TicketSale,
};
use crate::sales::{revenue, sale_price, sale_total_cents, tickets_sold};
use crate::status::{next_status, step, BookingStatus, StatusAction};

verus! {

/// The most records of one kind that a ledger holds, so that every
/// identifier fits in an `i32`.
pub const MAX_RECORDS: usize = 2147483646;

/// The seats that a booking keeps for session `sid`.
pub open spec fn contribution(b: Booking, sid: i32) -> int {
    if b.session_id == sid && b.status.holds_seats() {
        b.ticket_count as int
    } else {
        0
    }
}

/// The seats that the bookings `bs` keep for session `sid`: the sum of
/// `ticket_count` over its active and completed bookings.
pub open spec fn seats_held(bs: Seq<Booking>, sid: i32) -> int
    decreases bs.len(),
{
    if bs.len() == 0 {
        0
    } else {
        seats_held(bs.drop_last(), sid) + contribution(bs.last(), sid)
    }
}

/// The contents of a ledger. Sessions, bookings and sales are numbered from
/// one in the order they were recorded; a deleted session keeps its place but
/// is no longer live. Customers and employees are numbered the same way.
pub struct LedgerModel {
    pub sessions: Seq<Session>,
    pub live: Seq<bool>,
    pub bookings: Seq<Booking>,
    pub sales: Seq<TicketSale>,
    pub customers: Seq<Customer>,
    pub employees: nat,
}

impl LedgerModel {
    pub open spec fn known_session(self, sid: i32) -> bool {
        1 <= sid <= self.sessions.len()
    }

    pub open spec fn has_session(self, sid: i32) -> bool {
        self.known_session(sid) && self.live[sid - 1]
    }

    pub open spec fn session(self, sid: i32) -> Session {
        self.sessions[sid - 1]
    }

    pub open spec fn has_customer(self, id: i32) -> bool {
        1 <= id <= self.customers.len()
    }

    pub open spec fn has_employee(self, id: i32) -> bool {
        1 <= id <= self.employees
    }

    /// Seats of session `sid` that no booking keeps.
    pub open spec fn remaining(self, sid: i32) -> int {
        self.session(sid).capacity - seats_held(self.bookings, sid)
    }

    /// No session is oversold: its active and completed bookings keep at most
    /// its capacity.
    pub open spec fn within_capacity(self) -> bool {
        forall|sid: i32|
            self.known_session(sid) ==> #[trigger] seats_held(self.bookings, sid)
                <= self.session(sid).capacity
    }

    pub open spec fn inv(self) -> bool {
        &&& self.sessions.len() == self.live.len()
        &&& self.sessions.len() <= MAX_RECORDS
        &&& self.bookings.len() <= MAX_RECORDS
        &&& self.sales.len() <= MAX_RECORDS
        &&& self.customers.len() <= MAX_RECORDS
        &&& self.employees <= MAX_RECORDS
        &&& forall|i: int|
            0 <= i < self.sessions.len() ==> {
                let s = #[trigger] self.sessions[i];
                &&& s.session_id == i + 1
                &&& timestamp_text(s.start_time as int) is Some
            }
        &&& forall|i: int|
            0 <= i < self.customers.len() ==> #[trigger] self.customers[i].customer_id == i + 1
        &&& forall|i: int|
            0 <= i < self.bookings.len() ==> {
                let b = #[trigger] self.bookings[i];
                &&& b.booking_id == i + 1
                &&& self.has_session(b.session_id)
                &&& self.has_customer(b.customer_id)
                &&& b.ticket_count > 0
                &&& timestamp_text(b.booking_time as int) is Some
            }
        &&& forall|i: int|
            0 <= i < self.sales.len() ==> {
                let s = #[trigger] self.sales[i];
                &&& s.sale_id == i + 1
                &&& self.has_session(s.session_id)
                &&& s.ticket_count > 0
            }
        &&& self.within_capacity()
    }
}

/// `r` reports booking `b`.
pub open spec fn reports(r: BookingResponse, b: Booking) -> bool {
    &&& r.booking_id == b.booking_id
    &&& r.session_id == b.session_id
    &&& r.customer_id == b.customer_id
    &&& r.ticket_count == b.ticket_count
    &&& timestamp_text(b.booking_time as int) == Some(r.booking_time@)
    &&& r.status@ == b.status.name()
}

/// The booking that a successful request records.
pub open spec fn new_booking(m: LedgerModel, req: CreateBookingRequest, now: i64) -> Booking {
    Booking {
        booking_id: (m.bookings.len() + 1) as i32,
        session_id: req.session_id,
        customer_id: req.customer_id,
        ticket_count: req.ticket_count,
        booking_time: now,
        status: BookingStatus::Active,
    }
}

/// Why a booking request made at time `now` is refused, checked in this
/// order; none where it is accepted.
pub open spec fn booking_error(m: LedgerModel, req: CreateBookingRequest, now: i64) -> Option<
    AppError,
> {
    let sid = req.session_id;
    if req.ticket_count <= 0 || timestamp_text(now as int) is None {
        Some(AppError::InvalidInput)
    } else if !m.has_session(sid) || !m.has_customer(req.customer_id) {
        Some(AppError::NotFound)
    } else if m.session(sid).start_time <= now {
        Some(AppError::InvalidInput)
    } else if seats_held(m.bookings, sid) + req.ticket_count > m.session(sid).capacity {
        Some(AppError::CapacityExceeded { remaining: m.remaining(sid) as u32 })
    } else if m.bookings.len() >= MAX_RECORDS {
        Some(AppError::StorageUnavailable)
    } else {
        None
    }
}

/// The session that a successful request records.
pub open spec fn new_session(m: LedgerModel, req: CreateSessionRequest, start: int) -> Session {
    Session {
        session_id: (m.sessions.len() + 1) as i32,
        film_id: req.film_id,
        cinema_id: req.cinema_id,
        start_time: start as i64,
        ticket_price_cents: req.ticket_price_cents,
        capacity: req.capacity,
    }
}

proof fn lemma_held_push(bs: Seq<Booking>, b: Booking, sid: i32)
    ensures
        seats_held(bs.push(b), sid) == seats_held(bs, sid) + contribution(b, sid),
{
    assert(bs.push(b).drop_last() =~= bs);
}

proof fn lemma_held_prefix(bs: Seq<Booking>, j: int, sid: i32)
    requires
        0 <= j <= bs.len(),
        forall|i: int| 0 <= i < bs.len() ==> (#[trigger] bs[i]).ticket_count > 0,
    ensures
        seats_held(bs.take(j), sid) <= seats_held(bs, sid),
    decreases bs.len(),
{
    if j == bs.len() {
        assert(bs.take(j) =~= bs);
    } else {
        assert(bs.take(j) =~= bs.drop_last().take(j));
        lemma_held_prefix(bs.drop_last(), j, sid);
    }
}

proof fn lemma_held_update(bs: Seq<Booking>, k: int, b: Booking, sid: i32)
    requires
        0 <= k < bs.len(),
    ensures
        seats_held(bs.update(k, b), sid) == seats_held(bs, sid) - contribution(bs[k], sid)
            + contribution(b, sid),
    decreases bs.len(),
{
    if k == bs.len() - 1 {
        assert(bs.update(k, b).drop_last() =~= bs.drop_last());
    } else {
        assert(bs.update(k, b).drop_last() =~= bs.drop_last().update(k, b));
        lemma_held_update(bs.drop_last(), k, b, sid);
    }
}

/// The booking engine and sales ledger: sessions with their seat inventory,
/// bookings and ticket sales. All capacity checks and status changes go
/// through one `&mut` borrow, which serializes them.
pub struct Ledger {
    sessions: Vec<Session>,
    live: Vec<bool>,
    bookings: Vec<Booking>,
    sales: Vec<TicketSale>,
    customers: Vec<Customer>,
    employees: Vec<Employee>,
}

impl View for Ledger {
    type V = LedgerModel;

    closed spec fn view(&self) -> LedgerModel {
        LedgerModel {
            sessions: self.sessions@,
            live: self.live@,
            bookings: self.bookings@,
            sales: self.sales@,
            customers: self.customers@,
            employees: self.employees@.len(),
        }
    }
}

fn respond(b: &Booking) -> (r: BookingResponse)
    requires
        timestamp_text(b.booking_time as int) is Some,
    ensures
        reports(r, *b),
{
    let text = match format_timestamp(b.booking_time) {
        Some(t) => t,
        None => String::new(),
    };
    BookingResponse {
        booking_id: b.booking_id,
        session_id: b.session_id,
        customer_id: b.customer_id,
        ticket_count: b.ticket_count,
        booking_time: text,
        status: b.status.as_str().to_owned(),
    }
}

impl Ledger {
    pub open spec fn wf(&self) -> bool {
        self@.inv()
    }

    pub fn new() -> (r: Ledger)
        ensures
            r.wf(),
            r@.sessions.len() == 0,
            r@.bookings.len() == 0,
            r@.sales.len() == 0,
            r@.customers.len() == 0,
            r@.employees == 0,
    {
        Ledger {
            sessions: Vec::new(),
            live: Vec::new(),
            bookings: Vec::new(),
            sales: Vec::new(),
            customers: Vec::new(),
            employees: Vec::new(),
        }
    }

    /// Registers a customer and returns its identifier.
    pub fn add_customer(&mut self, c: NewCustomer) -> (r: Result<i32, AppError>)
        requires
            old(self).wf(),
        ensures
            final(self).wf(),
            old(self)@.customers.len() >= MAX_RECORDS ==> r == Err::<i32, AppError>(
                AppError::StorageUnavailable,
            ) && final(self)@ == old(self)@,
            old(self)@.customers.len() < MAX_RECORDS ==> r == Ok::<i32, AppError>(
                (old(self)@.customers.len() + 1) as i32,
            ) && final(self)@ == (LedgerModel {
                customers: old(self)@.customers.push(
                    Customer {
                        customer_id: (old(self)@.customers.len() + 1) as i32,
                        first_name: c.first_name,
                        last_name: c.last_name,
                        phone: c.phone,
                    },
                ),
                ..old(self)@
            }),
    {
        if self.customers.len() >= MAX_RECORDS {
            return Err(AppError::StorageUnavailable);
        }
        let id = (self.customers.len() + 1) as i32;
        let ghost old_m = self@;
        self.customers.push(
            Customer {
                customer_id: id,
                first_name: c.first_name,
                last_name: c.last_name,
                phone: c.phone,
            },
        );
        proof {
            let m = self@;
            assert forall|i: int| 0 <= i < m.bookings.len() implies #[trigger] m.bookings[i].customer_id <= m.customers.len() by {
                assert(old_m.has_customer(old_m.bookings[i].customer_id));
            }
            assert forall|s: i32| m.known_session(s) implies #[trigger] seats_held(m.bookings, s)
                <= m.session(s).capacity by {
                assert(old_m.known_session(s));
            }
        }
        Ok(id)
    }

    /// Registers an employee and returns its identifier.
    pub fn add_employee(&mut self, e: NewEmployee) -> (r: Result<i32, AppError>)
        requires
            old(self).wf(),
        ensures
            final(self).wf(),
            old(self)@.employees >= MAX_RECORDS ==> r == Err::<i32, AppError>(
                AppError::StorageUnavailable,
            ) && final(self)@ == old(self)@,
            old(self)@.employees < MAX_RECORDS ==> r == Ok::<i32, AppError>(
                (old(self)@.employees + 1) as i32,
            ) && final(self)@ == (LedgerModel { employees: old(self)@.employees + 1, ..old(self)@ }),
    {
        if self.employees.len() >= MAX_RECORDS {
            return Err(AppError::StorageUnavailable);
        }
        let id = (self.employees.len() + 1) as i32;
        self.employees.push(
            Employee {
                employee_id: id,
                cinema_id: e.cinema_id,
                first_name: e.first_name,
                last_name: e.last_name,
                position: e.position,
                age: e.age,
            },
        );
        Ok(id)
    }

    /// Opens a screening. Its start time is parsed from the request; a text
    /// that does not parse, or names an instant that cannot be written back
    /// as text, is `InvalidInput`.
    pub fn create_session(&mut self, req: &CreateSessionRequest) -> (r: Result<Session, AppError>)
        requires
            old(self).wf(),
        ensures
            final(self).wf(),
            match parsed_timestamp(req.start_time@) {
                None => r == Err::<Session, AppError>(AppError::InvalidInput) && final(self)@
                    == old(self)@,
                Some(t) => if timestamp_text(t) is None {
                    r == Err::<Session, AppError>(AppError::InvalidInput) && final(self)@
                        == old(self)@
                } else if old(self)@.sessions.len() >= MAX_RECORDS {
                    r == Err::<Session, AppError>(AppError::StorageUnavailable) && final(self)@
                        == old(self)@
                } else {
                    &&& r == Ok::<Session, AppError>(new_session(old(self)@, *req, t))
                    &&& final(self)@ == (LedgerModel {
                        sessions: old(self)@.sessions.push(new_session(old(self)@, *req, t)),
                        live: old(self)@.live.push(true),
                        ..old(self)@
                    })
                },
            },
    {
        let start = match parse_timestamp(req.start_time.as_str()) {
            Some(t) => t,
            None => return Err(AppError::InvalidInput),
        };
        match format_timestamp(start) {
            Some(_) => {},
            None => return Err(AppError::InvalidInput),
        }
        if self.sessions.len() >= MAX_RECORDS {
            return Err(AppError::StorageUnavailable);
        }
        let s = Session {
            session_id: (self.sessions.len() + 1) as i32,
            film_id: req.film_id,
            cinema_id: req.cinema_id,
            start_time: start,
            ticket_price_cents: req.ticket_price_cents,
            capacity: req.capacity,
        };
        let ghost old_m = self@;
        self.sessions.push(s);
        self.live.push(true);
        proof {
            let m = self@;
            assert forall|sid: i32| m.known_session(sid) implies #[trigger] seats_held(
                m.bookings,
                sid,
            ) <= m.session(sid).capacity by {
                if sid == m.sessions.len() {
                    assert(seats_held(m.bookings, sid) == 0) by {
                        lemma_held_absent(m.bookings, sid);
                    }
                } else {
                    assert(old_m.known_session(sid));
                }
            }
            assert forall|i: int| 0 <= i < m.bookings.len() implies #[trigger] m.live[m.bookings[i].session_id - 1] by {
                assert(old_m.has_session(old_m.bookings[i].session_id));
            }
            assert forall|i: int| 0 <= i < m.sales.len() implies #[trigger] m.live[m.sales[i].session_id - 1] by {
                assert(old_m.has_session(old_m.sales[i].session_id));
            }
        }
        Ok(s)
    }
}


/// The booking that a status change of booking `id` leaves, or why it is refused.
pub open spec fn transition_result(bs: Seq<Booking>, id: i32, a: StatusAction) -> Result<
    Booking,
    AppError,
> {
    if 1 <= id <= bs.len() {
        match step(bs[id - 1].status, a) {
            Ok(st) => Ok(Booking { status: st, ..bs[id - 1] }),
            Err(e) => Err(e),
        }
    } else {
        Err(AppError::NotFound)
    }
}

/// The bookings after a status change of booking `id`; unchanged where it is refused.
pub open spec fn after_transition(bs: Seq<Booking>, id: i32, a: StatusAction) -> Seq<Booking> {
    match transition_result(bs, id, a) {
        Ok(b) => bs.update(id - 1, b),
        Err(_) => bs,
    }
}

impl Ledger {
    /// Seats of session `sid` kept by its active and completed bookings,
    /// counted from the bookings themselves.
    fn held_seats(&self, sid: i32) -> (r: u64)
        requires
            self.wf(),
            self@.known_session(sid),
        ensures
            r == seats_held(self@.bookings, sid),
    {
        let ghost bs = self@.bookings;
        proof {
            assert(seats_held(bs, sid) <= self@.session(sid).capacity);
        }
        let mut acc: u64 = 0;
        let mut i: usize = 0;
        while i < self.bookings.len()
            invariant
                bs == self.bookings@,
                self@.inv(),
                0 <= i <= bs.len(),
                acc == seats_held(bs.take(i as int), sid),
                seats_held(bs, sid) <= u32::MAX,
            decreases bs.len() - i,
        {
            let b = self.bookings[i];
            proof {
                assert(bs.take(i + 1).drop_last() =~= bs.take(i as int));
                assert(bs[i as int] == b);
                lemma_held_prefix(bs, i + 1, sid);
            }
            if b.session_id == sid && b.status != BookingStatus::Cancelled {
                acc = acc + b.ticket_count as u64;
            }
            i = i + 1;
        }
        proof {
            assert(bs.take(bs.len() as int) =~= bs);
        }
        acc
    }

    /// Seats of live session `sid` that are still free.
    pub fn remaining_seats(&self, sid: i32) -> (r: Result<u32, AppError>)
        requires
            self.wf(),
        ensures
            self@.has_session(sid) ==> r == Ok::<u32, AppError>(self@.remaining(sid) as u32),
            !self@.has_session(sid) ==> r == Err::<u32, AppError>(AppError::NotFound),
            self@.has_session(sid) ==> 0 <= self@.remaining(sid),
    {
        if sid < 1 || sid as usize > self.sessions.len() || !self.live[(sid - 1) as usize] {
            return Err(AppError::NotFound);
        }
        let held = self.held_seats(sid);
        Ok(self.sessions[(sid - 1) as usize].capacity - held as u32)
    }

    /// Reserves seats: records an active booking made at time `now`, provided
    /// the ticket count is positive, `now` is a representable instant, the
    /// session is live and has not started, the customer is known, and the
    /// session keeps enough free seats. Otherwise nothing changes and the first
    /// reason of `booking_error` is returned; an oversell reports the seats
    /// that are still free.
    pub fn create_booking(&mut self, req: &CreateBookingRequest, now: i64) -> (r: Result<
        BookingResponse,
        AppError,
    >)
        requires
            old(self).wf(),
        ensures
            final(self).wf(),
            match booking_error(old(self)@, *req, now) {
                Some(e) => r == Err::<BookingResponse, AppError>(e) && final(self)@ == old(self)@,
                None => {
                    &&& r is Ok
                    &&& reports(r->Ok_0, new_booking(old(self)@, *req, now))
                    &&& final(self)@ == (LedgerModel {
                        bookings: old(self)@.bookings.push(new_booking(old(self)@, *req, now)),
                        ..old(self)@
                    })
                },
            },
    {
        let sid = req.session_id;
        if req.ticket_count <= 0 {
            return Err(AppError::InvalidInput);
        }
        match format_timestamp(now) {
            Some(_) => {},
            None => return Err(AppError::InvalidInput),
        }
        if sid < 1 || sid as usize > self.sessions.len() || !self.live[(sid - 1) as usize] {
            return Err(AppError::NotFound);
        }
        if req.customer_id < 1 || req.customer_id as usize > self.customers.len() {
            return Err(AppError::NotFound);
        }
        let session = self.sessions[(sid - 1) as usize];
        if session.start_time <= now {
            return Err(AppError::InvalidInput);
        }
        let held = self.held_seats(sid);
        if held + req.ticket_count as u64 > session.capacity as u64 {
            return Err(AppError::CapacityExceeded { remaining: session.capacity - held as u32 });
        }
        if self.bookings.len() >= MAX_RECORDS {
            return Err(AppError::StorageUnavailable);
        }
        let b = Booking {
            booking_id: (self.bookings.len() + 1) as i32,
            session_id: sid,
            customer_id: req.customer_id,
            ticket_count: req.ticket_count,
            booking_time: now,
            status: BookingStatus::Active,
        };
        let ghost old_m = self@;
        self.bookings.push(b);
        proof {
            let m = self@;
            assert forall|s: i32| m.known_session(s) implies #[trigger] seats_held(m.bookings, s)
                <= m.session(s).capacity by {
                lemma_held_push(old_m.bookings, b, s);
                assert(old_m.known_session(s));
            }
        }
        Ok(respond(&b))
    }

    /// Applies a status change to booking `id`, following the transition table
    /// `step`.
    fn transition(&mut self, id: i32, a: StatusAction) -> (r: Result<BookingResponse, AppError>)
        requires
            old(self).wf(),
        ensures
            final(self).wf(),
            final(self)@ == (LedgerModel {
                bookings: after_transition(old(self)@.bookings, id, a),
                ..old(self)@
            }),
            match transition_result(old(self)@.bookings, id, a) {
                Ok(b) => r is Ok && reports(r->Ok_0, b),
                Err(e) => r == Err::<BookingResponse, AppError>(e),
            },
    {
        if id < 1 || id as usize > self.bookings.len() {
            return Err(AppError::NotFound);
        }
        let k = (id - 1) as usize;
        let old_b = self.bookings[k];
        let st = match next_status(old_b.status, a) {
            Ok(st) => st,
            Err(e) => return Err(e),
        };
        let nb = Booking { status: st, ..old_b };
        let ghost old_m = self@;
        self.bookings.set(k, nb);
        proof {
            let m = self@;
            assert(m.bookings == old_m.bookings.update(k as int, nb));
            assert forall|s: i32| m.known_session(s) implies #[trigger] seats_held(m.bookings, s)
                <= m.session(s).capacity by {
                lemma_held_update(old_m.bookings, k as int, nb, s);
                assert(old_m.known_session(s));
            }
            assert forall|i: int| 0 <= i < m.bookings.len() implies {
                let b = #[trigger] m.bookings[i];
                &&& b.booking_id == i + 1
                &&& m.has_session(b.session_id)
                &&& b.ticket_count > 0
                &&& timestamp_text(b.booking_time as int) is Some
            } by {
                assert(old_m.bookings[i].booking_id == i + 1);
            }
        }
        Ok(respond(&nb))
    }

    /// Confirms booking `id`: an active booking becomes completed; confirming a
    /// completed one again changes nothing and succeeds; a cancelled one is
    /// `InvalidTransition`; an unknown one is `NotFound`.
    pub fn confirm_booking(&mut self, id: i32) -> (r: Result<BookingResponse, AppError>)
        requires
            old(self).wf(),
        ensures
            final(self).wf(),
            final(self)@ == (LedgerModel {
                bookings: after_transition(old(self)@.bookings, id, StatusAction::Confirm),
                ..old(self)@
            }),
            match transition_result(old(self)@.bookings, id, StatusAction::Confirm) {
                Ok(b) => r is Ok && reports(r->Ok_0, b),
                Err(e) => r == Err::<BookingResponse, AppError>(e),
            },
    {
        self.transition(id, StatusAction::Confirm)
    }

    /// Cancels booking `id`, releasing its seats: an active booking becomes
    /// cancelled; cancelling a cancelled one again changes nothing and
    /// succeeds; a completed one is `InvalidTransition`; an unknown one is
    /// `NotFound`.
    pub fn cancel_booking(&mut self, id: i32) -> (r: Result<BookingResponse, AppError>)
        requires
            old(self).wf(),
        ensures
            final(self).wf(),
            final(self)@ == (LedgerModel {
                bookings: after_transition(old(self)@.bookings, id, StatusAction::Cancel),
                ..old(self)@
            }),
            match transition_result(old(self)@.bookings, id, StatusAction::Cancel) {
                Ok(b) => r is Ok && reports(r->Ok_0, b),
                Err(e) => r == Err::<BookingResponse, AppError>(e),
            },
    {
        self.transition(id, StatusAction::Cancel)
    }

    /// Reports booking `id`, or `NotFound`.
    pub fn get_booking(&self, id: i32) -> (r: Result<BookingResponse, AppError>)
        requires
            self.wf(),
        ensures
            1 <= id <= self@.bookings.len() ==> r is Ok && reports(r->Ok_0, self@.bookings[id - 1]),
            !(1 <= id <= self@.bookings.len()) ==> r == Err::<BookingResponse, AppError>(
                AppError::NotFound,
            ),
    {
        if id < 1 || id as usize > self.bookings.len() {
            return Err(AppError::NotFound);
        }
        let b = self.bookings[(id - 1) as usize];
        proof {
            assert(self@.bookings[id - 1] == b);
        }
        Ok(respond(&b))
    }
}


/// The start time of the session of booking `b`.
pub open spec fn start_of(m: LedgerModel, b: Booking) -> i64 {
    m.session(b.session_id).start_time
}

/// Booking `b` belongs on the worklist at time `now`: it is active and its
/// session has not started.
pub open spec fn listed(m: LedgerModel, b: Booking, now: i64) -> bool {
    b.status == BookingStatus::Active && start_of(m, b) > now
}

/// The worklist order: soonest session first, then earliest booking.
pub open spec fn precedes(m: LedgerModel, a: Booking, b: Booking) -> bool {
    start_of(m, a) < start_of(m, b) || (start_of(m, a) == start_of(m, b) && a.booking_id
        < b.booking_id)
}

/// Some booking or sale refers to session `sid`.
pub open spec fn referenced(m: LedgerModel, sid: i32) -> bool {
    (exists|i: int| 0 <= i < m.bookings.len() && #[trigger] m.bookings[i].session_id == sid) || (
    exists|i: int| 0 <= i < m.sales.len() && #[trigger] m.sales[i].session_id == sid)
}

/// Why a sale request is refused, checked in this order; none where it is
/// accepted.
pub open spec fn sale_error(m: LedgerModel, req: CreateTicketSaleRequest) -> Option<AppError> {
    if req.ticket_count <= 0 {
        Some(AppError::InvalidInput)
    } else if !m.has_session(req.session_id) || !m.has_customer(req.customer_id)
        || !m.has_employee(req.employee_id) {
        Some(AppError::NotFound)
    } else if m.sales.len() >= MAX_RECORDS {
        Some(AppError::StorageUnavailable)
    } else {
        None
    }
}

/// The sale that a successful request made at time `now` records.
pub open spec fn new_sale(m: LedgerModel, req: CreateTicketSaleRequest, now: i64) -> TicketSale {
    TicketSale {
        sale_id: (m.sales.len() + 1) as i32,
        session_id: req.session_id,
        customer_id: req.customer_id,
        employee_id: req.employee_id,
        ticket_count: req.ticket_count,
        sale_time: now,
    }
}

/// The figures that `get_sales_stats` reports for sales `sales`.
pub open spec fn stats_of(sales: Seq<TicketSale>, sessions: Seq<Session>) -> SalesStats {
    SalesStats {
        total_sales: sales.len() as u64,
        total_revenue_cents: revenue(sales, sessions) as u128,
        total_tickets: tickets_sold(sales) as u64,
    }
}

impl Ledger {
    /// Session `sid` while it is live, or `NotFound`.
    pub fn get_session(&self, sid: i32) -> (r: Result<Session, AppError>)
        requires
            self.wf(),
        ensures
            self@.has_session(sid) ==> r == Ok::<Session, AppError>(self@.session(sid)),
            !self@.has_session(sid) ==> r == Err::<Session, AppError>(AppError::NotFound),
    {
        if sid < 1 || sid as usize > self.sessions.len() || !self.live[(sid - 1) as usize] {
            return Err(AppError::NotFound);
        }
        Ok(self.sessions[(sid - 1) as usize])
    }

    /// The live sessions, in the order they were opened.
    pub fn get_sessions(&self) -> (r: Vec<Session>)
        requires
            self.wf(),
        ensures
            forall|j: int| 0 <= j < r.len() ==> self@.has_session(#[trigger] r@[j].session_id)
                && self@.session(r@[j].session_id) == r@[j],
            forall|sid: i32| #[trigger] self@.has_session(sid) ==> r@.contains(self@.session(sid)),
            forall|j: int, k: int| 0 <= j < k < r.len() ==> r@[j].session_id < r@[k].session_id,
    {
        let mut out: Vec<Session> = Vec::new();
        let mut i: usize = 0;
        while i < self.sessions.len()
            invariant
                self@.inv(),
                0 <= i <= self@.sessions.len(),
                forall|j: int| 0 <= j < out.len() ==> self@.has_session(#[trigger] out@[j].session_id)
                    && self@.session(out@[j].session_id) == out@[j] && out@[j].session_id <= i,
                forall|sid: i32| 1 <= sid <= i && #[trigger] self@.has_session(sid) ==> out@.contains(
                    self@.session(sid),
                ),
                forall|j: int, k: int| 0 <= j < k < out.len() ==> out@[j].session_id < out@[k].session_id,
            decreases self@.sessions.len() - i,
        {
            if self.live[i] {
                let s = self.sessions[i];
                proof {
                    assert(self@.sessions[i as int] == s);
                }
                let ghost before = out@;
                out.push(s);
                proof {
                    assert forall|sid: i32| 1 <= sid <= i + 1 && #[trigger] self@.has_session(sid)
                        implies out@.contains(self@.session(sid)) by {
                        if sid == i + 1 {
                            assert(out@[before.len() as int] == s);
                        } else {
                            let j = choose|j: int| 0 <= j < before.len() && before[j] == self@.session(sid);
                            assert(out@[j] == before[j]);
                        }
                    }
                }
            }
            i = i + 1;
        }
        out
    }

    /// Removes session `sid`. It is `NotFound` unless live, and refused with
    /// `InvalidInput` while any booking or sale refers to it.
    pub fn delete_session(&mut self, sid: i32) -> (r: Result<(), AppError>)
        requires
            old(self).wf(),
        ensures
            final(self).wf(),
            !old(self)@.has_session(sid) ==> r == Err::<(), AppError>(AppError::NotFound)
                && final(self)@ == old(self)@,
            old(self)@.has_session(sid) && referenced(old(self)@, sid) ==> r == Err::<(), AppError>(
                AppError::InvalidInput,
            ) && final(self)@ == old(self)@,
            old(self)@.has_session(sid) && !referenced(old(self)@, sid) ==> r == Ok::<(), AppError>(
                (),
            ) && final(self)@ == (LedgerModel {
                live: old(self)@.live.update(sid - 1, false),
                ..old(self)@
            }),
    {
        if sid < 1 || sid as usize > self.sessions.len() || !self.live[(sid - 1) as usize] {
            return Err(AppError::NotFound);
        }
        let mut i: usize = 0;
        while i < self.bookings.len()
            invariant
                self@ == old(self)@,
                old(self)@.inv(),
                old(self)@.has_session(sid),
                0 <= i <= self@.bookings.len(),
                forall|j: int| 0 <= j < i ==> (#[trigger] self@.bookings[j]).session_id != sid,
            decreases self@.bookings.len() - i,
        {
            if self.bookings[i].session_id == sid {
                proof {
                    assert(self@.bookings[i as int].session_id == sid);
                }
                return Err(AppError::InvalidInput);
            }
            i = i + 1;
        }
        let mut i: usize = 0;
        while i < self.sales.len()
            invariant
                self@ == old(self)@,
                old(self)@.inv(),
                old(self)@.has_session(sid),
                0 <= i <= self@.sales.len(),
                forall|j: int| 0 <= j < self@.bookings.len() ==> (#[trigger] self@.bookings[j]).session_id != sid,
                forall|j: int| 0 <= j < i ==> (#[trigger] self@.sales[j]).session_id != sid,
            decreases self@.sales.len() - i,
        {
            if self.sales[i].session_id == sid {
                proof {
                    assert(self@.sales[i as int].session_id == sid);
                }
                return Err(AppError::InvalidInput);
            }
            i = i + 1;
        }
        let ghost old_m = self@;
        self.live.set((sid - 1) as usize, false);
        proof {
            let m = self@;
            assert forall|i: int| 0 <= i < m.bookings.len() implies #[trigger] m.live[m.bookings[i].session_id - 1] by {
                assert(old_m.has_session(old_m.bookings[i].session_id));
            }
            assert forall|i: int| 0 <= i < m.sales.len() implies #[trigger] m.live[m.sales[i].session_id - 1] by {
                assert(old_m.has_session(old_m.sales[i].session_id));
            }
            assert forall|s: i32| m.known_session(s) implies #[trigger] seats_held(m.bookings, s)
                <= m.session(s).capacity by {
                assert(old_m.known_session(s));
            }
        }
        Ok(())
    }

    /// The operator worklist at time `now`: every active booking whose session
    /// has not started, soonest session first.
    pub fn get_active_bookings(&self, now: i64) -> (r: Vec<Booking>)
        requires
            self.wf(),
        ensures
            forall|j: int|
                0 <= j < r.len() ==> {
                    let b = #[trigger] r@[j];
                    &&& listed(self@, b, now)
                    &&& 1 <= b.booking_id <= self@.bookings.len()
                    &&& self@.bookings[b.booking_id - 1] == b
                },
            forall|i: int|
                0 <= i < self@.bookings.len() && listed(self@, #[trigger] self@.bookings[i], now)
                    ==> r@.contains(self@.bookings[i]),
            forall|j: int, k: int| 0 <= j < k < r.len() ==> precedes(self@, r@[j], r@[k]),
    {
        let ghost m = self@;
        let mut out: Vec<Booking> = Vec::new();
        let mut i: usize = 0;
        while i < self.bookings.len()
            invariant
                m == self@,
                m.inv(),
                0 <= i <= m.bookings.len(),
                on_worklist(m, out@, now, i as int),
            decreases m.bookings.len() - i,
        {
            let b = self.bookings[i];
            proof {
                assert(m.bookings[i as int] == b);
            }
            if b.status == BookingStatus::Active {
                let start = self.sessions[(b.session_id - 1) as usize].start_time;
                if start > now {
                    let mut p: usize = 0;
                    while p < out.len() && self.sessions[(out[p].session_id - 1) as usize].start_time
                        <= start
                        invariant
                            m == self@,
                            m.inv(),
                            0 <= p <= out.len(),
                            start == start_of(m, b),
                            on_worklist(m, out@, now, i as int),
                            forall|q: int| 0 <= q < p ==> start_of(m, #[trigger] out@[q]) <= start,
                        decreases out.len() - p,
                    {
                        p = p + 1;
                    }
                    let ghost before = out@;
                    out.insert(p, b);
                    proof {
                        lemma_worklist_insert(m, before, p as int, b, now, i as int);
                    }
                }
            }
            i = i + 1;
        }
        out
    }

    /// Records a ticket sale made at time `now`, priced at the session's
    /// ticket price. A sale is a walk-in transaction of its own: it does not
    /// draw on the seats that bookings reserve.
    pub fn create_ticket_sale(&mut self, req: &CreateTicketSaleRequest, now: i64) -> (r: Result<
        SaleReceipt,
        AppError,
    >)
        requires
            old(self).wf(),
        ensures
            final(self).wf(),
            match sale_error(old(self)@, *req) {
                Some(e) => r == Err::<SaleReceipt, AppError>(e) && final(self)@ == old(self)@,
                None => {
                    let s = new_sale(old(self)@, *req, now);
                    &&& r == Ok::<SaleReceipt, AppError>(
                        SaleReceipt {
                            sale: s,
                            total_price_cents: sale_price(s, old(self)@.sessions) as u64,
                        },
                    )
                    &&& final(self)@ == (LedgerModel {
                        sales: old(self)@.sales.push(s),
                        ..old(self)@
                    })
                },
            },
    {
        let sid = req.session_id;
        if req.ticket_count <= 0 {
            return Err(AppError::InvalidInput);
        }
        if sid < 1 || sid as usize > self.sessions.len() || !self.live[(sid - 1) as usize] {
            return Err(AppError::NotFound);
        }
        if req.customer_id < 1 || req.customer_id as usize > self.customers.len() {
            return Err(AppError::NotFound);
        }
        if req.employee_id < 1 || req.employee_id as usize > self.employees.len() {
            return Err(AppError::NotFound);
        }
        if self.sales.len() >= MAX_RECORDS {
            return Err(AppError::StorageUnavailable);
        }
        let sale = TicketSale {
            sale_id: (self.sales.len() + 1) as i32,
            session_id: sid,
            customer_id: req.customer_id,
            employee_id: req.employee_id,
            ticket_count: req.ticket_count,
            sale_time: now,
        };
        let total = sale_total_cents(
            req.ticket_count,
            self.sessions[(sid - 1) as usize].ticket_price_cents,
        );
        self.sales.push(sale);
        Ok(SaleReceipt { sale, total_price_cents: total })
    }

    /// Sale `id` with its price, or `NotFound`.
    pub fn get_ticket_sale(&self, id: i32) -> (r: Result<SaleReceipt, AppError>)
        requires
            self.wf(),
        ensures
            1 <= id <= self@.sales.len() ==> r == Ok::<SaleReceipt, AppError>(
                SaleReceipt {
                    sale: self@.sales[id - 1],
                    total_price_cents: sale_price(self@.sales[id - 1], self@.sessions) as u64,
                },
            ),
            !(1 <= id <= self@.sales.len()) ==> r == Err::<SaleReceipt, AppError>(
                AppError::NotFound,
            ),
    {
        if id < 1 || id as usize > self.sales.len() {
            return Err(AppError::NotFound);
        }
        let sale = self.sales[(id - 1) as usize];
        proof {
            assert(self@.sales[id - 1] == sale);
            assert(self@.has_session(sale.session_id));
        }
        let total = sale_total_cents(
            sale.ticket_count,
            self.sessions[(sale.session_id - 1) as usize].ticket_price_cents,
        );
        Ok(SaleReceipt { sale, total_price_cents: total })
    }

    /// Sale count, total revenue and total tickets over all recorded sales,
    /// read from one state of the ledger.
    pub fn get_sales_stats(&self) -> (r: SalesStats)
        requires
            self.wf(),
        ensures
            r == stats_of(self@.sales, self@.sessions),
            r.total_sales == self@.sales.len(),
            r.total_revenue_cents == revenue(self@.sales, self@.sessions),
            r.total_tickets == tickets_sold(self@.sales),
    {
        let ghost m = self@;
        let mut rev: u128 = 0;
        let mut tickets: u64 = 0;
        let mut i: usize = 0;
        while i < self.sales.len()
            invariant
                m == self@,
                m.inv(),
                0 <= i <= m.sales.len(),
                rev == revenue(m.sales.take(i as int), m.sessions),
                tickets == tickets_sold(m.sales.take(i as int)),
                rev <= i * (0x7fff_ffff * 0xffff_ffffint),
                tickets <= i * 0x7fff_ffffint,
            decreases m.sales.len() - i,
        {
            let s = self.sales[i];
            proof {
                assert(m.sales[i as int] == s);
                assert(m.sales.take(i + 1).drop_last() =~= m.sales.take(i as int));
                assert(m.has_session(s.session_id));
                let c = s.ticket_count as int;
                let pc = m.session(s.session_id).ticket_price_cents as int;
                assert(c * pc <= 0x7fff_ffff * 0xffff_ffffint) by (nonlinear_arith)
                    requires
                        0 <= c <= 0x7fff_ffff,
                        0 <= pc <= 0xffff_ffff,
                ;
            }
            let price = sale_total_cents(
                s.ticket_count,
                self.sessions[(s.session_id - 1) as usize].ticket_price_cents,
            );
            rev = rev + price as u128;
            tickets = tickets + s.ticket_count as u64;
            i = i + 1;
        }
        proof {
            assert(m.sales.take(m.sales.len() as int) =~= m.sales);
        }
        SalesStats { total_sales: i as u64, total_revenue_cents: rev, total_tickets: tickets }
    }
}

/// `r` reports booking `b` of ledger `m`, for a film and a cinema of the
/// given names.
pub open spec fn reports_details(
    r: BookingWithDetailsResponse,
    m: LedgerModel,
    b: Booking,
    film_title: Seq<char>,
    cinema_name: Seq<char>,
) -> bool {
    let c = m.customers[b.customer_id - 1];
    &&& r.booking_id == b.booking_id
    &&& r.film_title@ == film_title
    &&& r.cinema_name@ == cinema_name
    &&& timestamp_text(m.session(b.session_id).start_time as int) == Some(r.start_time@)
    &&& r.customer_name@ == c.first_name@ + " "@ + c.last_name@
    &&& r.ticket_count == b.ticket_count
    &&& r.status@ == b.status.name()
}

impl Ledger {
    /// Reports booking `id` with its session's start and its customer's full
    /// name (first and last name, one space between), together with the film
    /// and cinema names that the catalog gives for the session; `NotFound`
    /// for an unknown booking.
    pub fn get_booking_details(&self, id: i32, film_title: String, cinema_name: String) -> (r:
        Result<BookingWithDetailsResponse, AppError>)
        requires
            self.wf(),
        ensures
            1 <= id <= self@.bookings.len() ==> r is Ok && reports_details(
                r->Ok_0,
                self@,
                self@.bookings[id - 1],
                film_title@,
                cinema_name@,
            ),
            !(1 <= id <= self@.bookings.len()) ==> r is Err && r->Err_0 == AppError::NotFound,
    {
        if id < 1 || id as usize > self.bookings.len() {
            return Err(AppError::NotFound);
        }
        let b = self.bookings[(id - 1) as usize];
        proof {
            assert(self@.bookings[id - 1] == b);
            assert(self@.has_session(b.session_id));
            assert(self@.has_customer(b.customer_id));
            assert(self@.sessions[b.session_id - 1].session_id == b.session_id);
        }
        let session = self.sessions[(b.session_id - 1) as usize];
        let start = match format_timestamp(session.start_time) {
            Some(t) => t,
            None => String::new(),
        };
        let customer = &self.customers[(b.customer_id - 1) as usize];
        let mut name = customer.first_name.clone();
        name.append(" ");
        name.append(customer.last_name.as_str());
        Ok(
            BookingWithDetailsResponse {
                booking_id: b.booking_id,
                film_title,
                cinema_name,
                start_time: start,
                customer_name: name,
                ticket_count: b.ticket_count,
                status: b.status.as_str().to_owned(),
            },
        )
    }
}

/// `out` is the worklist at time `now` of the first `i` bookings: each entry
/// is a listed booking among them, each listed one among them is an entry,
/// and the entries stand in worklist order.
pub open spec fn on_worklist(m: LedgerModel, out: Seq<Booking>, now: i64, i: int) -> bool {
    &&& forall|j: int|
        0 <= j < out.len() ==> {
            let b = #[trigger] out[j];
            &&& listed(m, b, now)
            &&& m.has_session(b.session_id)
            &&& 1 <= b.booking_id <= i
            &&& m.bookings[b.booking_id - 1] == b
        }
    &&& forall|k: int|
        0 <= k < i && listed(m, #[trigger] m.bookings[k], now) ==> out.contains(m.bookings[k])
    &&& forall|j: int, k: int| 0 <= j < k < out.len() ==> precedes(m, out[j], out[k])
}

/// Inserting booking `i + 1` at the first entry whose session starts later
/// extends the worklist of the first `i` bookings to the first `i + 1`.
#[verifier::rlimit(30)]
proof fn lemma_worklist_insert(
    m: LedgerModel,
    before: Seq<Booking>,
    p: int,
    b: Booking,
    now: i64,
    i: int,
)
    requires
        m.inv(),
        0 <= i < m.bookings.len(),
        m.bookings[i] == b,
        listed(m, b, now),
        on_worklist(m, before, now, i),
        0 <= p <= before.len(),
        forall|q: int| 0 <= q < p ==> start_of(m, #[trigger] before[q]) <= start_of(m, b),
        p < before.len() ==> start_of(m, before[p]) > start_of(m, b),
    ensures
        on_worklist(m, before.insert(p, b), now, i + 1),
{
    let out = before.insert(p, b);
    before.insert_ensures(p, b);
    assert(b.booking_id == i + 1);
    assert(m.has_session(b.session_id));
    assert forall|j: int, k: int| 0 <= j < k < out.len() implies precedes(m, out[j], out[k]) by {
        if k < p {
        } else if k == p {
            assert(start_of(m, before[j]) <= start_of(m, b));
        } else if j < p {
        } else if j == p {
            assert(start_of(m, before[p]) > start_of(m, b));
            if p < k - 1 {
                assert(precedes(m, before[p], before[k - 1]));
            }
        } else {
            assert(precedes(m, before[j - 1], before[k - 1]));
        }
    }
    assert forall|j: int| 0 <= j < out.len() implies {
        let c = #[trigger] out[j];
        &&& listed(m, c, now)
        &&& m.has_session(c.session_id)
        &&& 1 <= c.booking_id <= i + 1
        &&& m.bookings[c.booking_id - 1] == c
    } by {
        if j < p {
            assert(out[j] == before[j]);
        } else if j > p {
            assert(out[j] == before[j - 1]);
        }
    }
    assert forall|k: int| 0 <= k < i + 1 && listed(m, #[trigger] m.bookings[k], now) implies out.contains(
        m.bookings[k],
    ) by {
        if k < i {
            let j = choose|j: int| 0 <= j < before.len() && before[j] == m.bookings[k];
            if j < p {
                assert(out[j] == before[j]);
            } else {
                assert(out[j + 1] == before[j]);
            }
        } else {
            assert(out[p] == b);
        }
    }
}

/// No booking of a session that is not yet known keeps a seat.
proof fn lemma_held_absent(bs: Seq<Booking>, sid: i32)
    requires
        forall|i: int| 0 <= i < bs.len() ==> (#[trigger] bs[i]).session_id != sid,
    ensures
        seats_held(bs, sid) == 0,
    decreases bs.len(),
{
    if bs.len() > 0 {
        lemma_held_absent(bs.drop_last(), sid);
    }
}

} // verus!
