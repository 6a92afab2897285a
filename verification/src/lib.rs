//! A verified core for a URL-shortening service.
//!
//! The library owns the short-key allocation protocol, the link-record
//! lifecycle (reservation, finalization, redirect-and-count, authorized
//! stats reads) and the construction of the public URLs, all stated against
//! a mathematical model of the backing key-value store. The HTTP layer and
//! the real store client live outside the library and exchange only plain
//! values with it.

use vstd::prelude::*;

pub mod token_gen;
pub mod record;
pub mod store;
pub mod service;
pub mod laws;

verus! {

/// Length of a short key, in characters.
pub const KEY_LEN: usize = 6;

/// Length of a per-link secret stats token, in characters.
pub const TOKEN_LEN: usize = 24;

/// Attempts the allocator makes before giving up on finding a free key.
pub const MAX_ALLOC_ATTEMPTS: usize = 3;

/// Time-to-live of a record, in seconds (30 days), counted from reservation.
pub const RECORD_TTL_SECONDS: u64 = 2592000;

/// Everything that can go wrong inside the core operations.
#[derive(Clone, Copy, Debug, PartialEq, Eq, Structural)]
pub enum LinkError {
    /// The allocator found no free short key within its attempt budget.
    Exhausted,
    /// The backing store refused an operation it was asked to perform.
    StoreUnavailable,
    /// The requested record does not exist, or the caller may not learn
    /// whether it exists.
    NotFound,
    /// A stats token was supplied but does not match the stored one.
    Unauthorized,
}

} // verus!
