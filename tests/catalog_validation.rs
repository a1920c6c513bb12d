use cinema_booking::catalog::{validate_cinema_request, validate_film_request, CinemaHours, FilmRun};
use cinema_booking::error::AppError;
use cinema_booking::models::{CreateCinemaRequest, CreateFilmRequest};
use cinema_booking::sales::sale_total_cents;

fn cinema(open: &str, close: &str, halls: i32) -> CreateCinemaRequest {
    CreateCinemaRequest {
        name: "Rex".to_string(),
        address: "1 Main St".to_string(),
        employee_count: 12,
        hall_count: halls,
        opening_time: open.to_string(),
        closing_time: close.to_string(),
    }
}

fn film(start: &str, end: &str) -> CreateFilmRequest {
    CreateFilmRequest {
        title: "Arrival".to_string(),
        age_restriction: "12+".to_string(),
        is_booking_available: true,
        start_date: start.to_string(),
        end_date: end.to_string(),
    }
}

#[test]
fn cinema_hours_are_parsed() {
    assert_eq!(
        validate_cinema_request(&cinema("09:00:00", "23:30:00", 3)),
        Ok(CinemaHours { opening_secs: 32400, closing_secs: 84600 })
    );
}

#[test]
fn cinema_rejects_bad_fields() {
    assert_eq!(validate_cinema_request(&cinema("9 am", "23:30:00", 3)), Err(AppError::InvalidInput));
    assert_eq!(validate_cinema_request(&cinema("09:00:00", "25:00:00", 3)), Err(AppError::InvalidInput));
    assert_eq!(validate_cinema_request(&cinema("09:00:00", "23:30:00", -1)), Err(AppError::InvalidInput));
}

#[test]
fn film_run_is_parsed() {
    assert_eq!(
        validate_film_request(&film("2024-01-01", "2024-03-31")),
        Ok(FilmRun { start_day: 738886, end_day: 738976 })
    );
}

#[test]
fn film_rejects_bad_dates() {
    assert_eq!(validate_film_request(&film("2024-13-01", "2024-03-31")), Err(AppError::InvalidInput));
    assert_eq!(validate_film_request(&film("2024-03-31", "2024-01-01")), Err(AppError::InvalidInput));
}

#[test]
fn sale_total_is_count_times_price() {
    assert_eq!(sale_total_cents(3, 1250), 3750);
    assert_eq!(sale_total_cents(0, 1250), 0);
    assert_eq!(sale_total_cents(i32::MAX, u32::MAX), 2147483647u64 * 4294967295u64);
}
