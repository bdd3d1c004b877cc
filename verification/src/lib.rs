//! A scheduler that runs a fixed set of recurring game loops at independent
//! rates, on the main thread or on worker threads, and moves them between
//! threads while the program runs.

pub mod exec;
pub mod logging;
pub mod scenes;
pub mod utils;
