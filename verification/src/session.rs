//! The FIX session layer.
use vstd::prelude::*;

pub mod ctx;
pub mod engine;
pub mod error;
pub mod event;
pub mod info;
pub mod state;

verus! {
} // verus!
