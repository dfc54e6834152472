//! Cache entries.

use std::sync::atomic::AtomicBool;
use std::sync::Arc;
use std::time::Instant;
use vstd::prelude::*;

verus! {

#[verifier::external_type_specification]
#[verifier::external_body]
pub struct ExInstant(std::time::Instant);

/// `std::time::Instant::now`: nothing is claimed of the result.
pub assume_specification [std::time::Instant::now]() -> std::time::Instant;

/// An entry of a cache. The value can be shared on a hit, and the flag can be
/// set without removing the entry.
///
/// A value that is absent stands for a key that is known to have none.
#[derive(Debug)]
pub struct Entry<V> {
    pub value: Option<V>,
    pub fetched_at: Instant,
    /// Whether a refresh of the value is on its way.
    pub refresh_in_flight: AtomicBool,
}

impl<V> Entry<V> {
    /// An entry that was fetched now. The flag is clear; contracts cannot
    /// speak of what an `AtomicBool` holds.
    pub fn new(value: Option<V>) -> (r: Arc<Self>)
        ensures
            r.value == value,
    {
        Arc::new(
            Entry {
                value,
                fetched_at: Instant::now(),
                refresh_in_flight: AtomicBool::new(false),
            },
        )
    }
}

} // verus!
