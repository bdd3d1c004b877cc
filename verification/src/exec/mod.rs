//! The loops, the container that paces them, and the bookkeeping that moves
//! them between threads.

pub mod credit;
pub mod loop_impl;
pub mod loops;
pub mod manager;
pub mod mode;
pub mod msg;
pub mod ownership;
pub mod runner;
