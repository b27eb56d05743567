//! A FIX (Financial Information eXchange) session engine for buy-side initiators.
use vstd::prelude::*;

pub mod application;
pub mod calendar;
pub mod clock;
pub mod config;
pub mod decimal;
pub mod error;
pub mod message;
pub mod session;
pub mod session_schedule;
pub mod store;
pub mod timestamp;
pub mod transport;

verus! {
} // verus!
