//! A fixed-size worker thread pool, modelled and verified.
//!
//! The pool hands submitted jobs to a bounded set of long-lived workers over a
//! single FIFO dispatch queue and shuts down in a deterministic order, joining
//! every worker exactly once.  The `pool` module holds the verified state
//! machine of the pool: construction, job dispatch, the worker run loop and
//! idempotent shutdown.  The `http` module holds the verified pure parts of
//! the surrounding web server: request routing and response formatting.

pub mod http;
pub mod pool;
