//! Evaluation core of a unit-aware calculator language.
//!
//! A parsed line is classified against the session state, then either
//! registers a declaration or is reduced to a value: an exact decimal
//! magnitude paired with a physical unit.

pub mod decimal;
pub mod error;
pub mod laws;
pub mod model;
pub mod runtime;
pub mod syntax;
pub mod unit;
pub mod value;
