//! Rates and time.

pub mod clock;
pub mod frequency;
pub mod sync;
