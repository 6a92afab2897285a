//! The link record: the value stored under one short key.
//!
//! A record is born "reserved" (empty URL, no token yet) when the allocator
//! claims a key, and becomes "active" (URL, secret token and click counter
//! all present) when it is finalized.

use vstd::prelude::*;
use crate::RECORD_TTL_SECONDS;

verus! {

/// One stored link record, as the store holds it under a short key.
pub struct LinkRecord {
    /// The redirect target; the empty string is the sentinel for a key that
    /// is reserved but not yet finalized.
    pub url: String,
    /// The secret stats token; absent while the record is only reserved.
    pub token: Option<String>,
    /// How many redirects the record has served.
    pub clicks: u64,
    /// The seconds of life granted when the key was reserved; the external
    /// store counts them down and deletes the whole record at zero. No later
    /// step renews the grant.
    pub ttl_seconds: u64,
}

/// The mathematical shape of a stored record.
pub ghost struct RecordModel {
    pub url: Seq<char>,
    pub token: Option<Seq<char>>,
    pub clicks: u64,
    pub ttl_seconds: u64,
}

impl View for LinkRecord {
    type V = RecordModel;

    open spec fn view(&self) -> RecordModel {
        RecordModel {
            url: self.url@,
            token: match self.token {
                Some(t) => Some(t@),
                None => None,
            },
            clicks: self.clicks,
            ttl_seconds: self.ttl_seconds,
        }
    }
}

/// The record a fresh reservation writes: an empty URL, nothing else yet,
/// and the full thirty-day time-to-live.
pub open spec fn reserved_model() -> RecordModel {
    RecordModel { url: Seq::empty(), token: None, clicks: 0, ttl_seconds: RECORD_TTL_SECONDS }
}

/// The record finalization writes: the submitted URL, a secret token, a
/// click counter starting at zero, and the time-to-live the reservation
/// granted, unrenewed.
pub open spec fn active_model(url: Seq<char>, token: Seq<char>, ttl_seconds: u64) -> RecordModel {
    RecordModel { url: url, token: Some(token), clicks: 0, ttl_seconds: ttl_seconds }
}

/// The record after one served redirect: the same URL, token and remaining
/// time-to-live, one more click.
pub open spec fn counted_model(m: RecordModel) -> RecordModel {
    RecordModel { url: m.url, token: m.token, clicks: (m.clicks + 1) as u64, ttl_seconds: m.ttl_seconds }
}

} // verus!
