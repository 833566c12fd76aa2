//! Resilient acquisition of connections from a bounded Redis connection pool.
//!
//! The crate is split into the pure retry policy (`policy`), the per-call
//! acquisition state machine that decides between trying, waiting, handing
//! out a connection and giving up (`acquire`), and the construction of the
//! pool itself (`pool`).
pub mod acquire;
pub mod policy;
pub mod pool;
