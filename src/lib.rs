//! A cinema booking engine: booking lifecycle with seat-capacity enforcement,
//! a ticket-sales ledger with revenue accounting, and validation of catalog
//! requests.

pub mod error;
pub mod status;
pub mod models;
pub mod clock;
pub mod catalog;
pub mod sales;
pub mod ledger;
pub mod laws;
