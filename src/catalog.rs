use vstd::prelude::*;

use crate::clock::{parse_date, parse_time_of_day, parsed_date, parsed_time_of_day};
use crate::error::AppError;
use crate::models::{CreateCinemaRequest, CreateFilmRequest};

verus! {

/// A cinema's opening and closing times, in seconds since midnight.
#[derive(Clone, Copy, Debug, PartialEq, Eq, Structural)]
pub struct CinemaHours {
    pub opening_secs: u32,
    pub closing_secs: u32,
}

/// A film's run, as day numbers of its first and last day.
#[derive(Clone, Copy, Debug, PartialEq, Eq, Structural)]
pub struct FilmRun {
    pub start_day: i32,
    pub end_day: i32,
}

/// What a cinema request is accepted as: negative counts and times that do
/// not parse are rejected.
pub open spec fn cinema_request_result(req: CreateCinemaRequest) -> Result<CinemaHours, AppError> {
    if req.employee_count < 0 || req.hall_count < 0 {
        Err(AppError::InvalidInput)
    } else {
        match (parsed_time_of_day(req.opening_time@), parsed_time_of_day(req.closing_time@)) {
            (Some(o), Some(c)) => Ok(CinemaHours { opening_secs: o as u32, closing_secs: c as u32 }),
            _ => Err(AppError::InvalidInput),
        }
    }
}

/// What a film request is accepted as: dates that do not parse, or a run that
/// ends before it starts, are rejected.
pub open spec fn film_request_result(req: CreateFilmRequest) -> Result<FilmRun, AppError> {
    match (parsed_date(req.start_date@), parsed_date(req.end_date@)) {
        (Some(s), Some(e)) => if s <= e {
            Ok(FilmRun { start_day: s as i32, end_day: e as i32 })
        } else {
            Err(AppError::InvalidInput)
        },
        _ => Err(AppError::InvalidInput),
    }
}

/// Checks a request to add or change a cinema and reads its opening hours.
pub fn validate_cinema_request(req: &CreateCinemaRequest) -> (r: Result<CinemaHours, AppError>)
    ensures
        r == cinema_request_result(*req),
{
    if req.employee_count < 0 || req.hall_count < 0 {
        return Err(AppError::InvalidInput);
    }
    let opening = parse_time_of_day(req.opening_time.as_str());
    let closing = parse_time_of_day(req.closing_time.as_str());
    match (opening, closing) {
        (Some(o), Some(c)) => Ok(CinemaHours { opening_secs: o, closing_secs: c }),
        _ => Err(AppError::InvalidInput),
    }
}

/// Checks a request to add or change a film and reads its run.
pub fn validate_film_request(req: &CreateFilmRequest) -> (r: Result<FilmRun, AppError>)
    ensures
        r == film_request_result(*req),
{
    let start = parse_date(req.start_date.as_str());
    let end = parse_date(req.end_date.as_str());
    match (start, end) {
        (Some(s), Some(e)) => if s <= e {
            Ok(FilmRun { start_day: s, end_day: e })
        } else {
            Err(AppError::InvalidInput)
        },
        _ => Err(AppError::InvalidInput),
    }
}

} // verus!
