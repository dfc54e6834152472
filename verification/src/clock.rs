//! What comes from outside: the time and new identifiers.

use vstd::prelude::*;
use vstd::string::*;

verus! {

/// The ISO 8601 form, in UTC, of the time so many nanoseconds after the epoch,
/// where it has one.
pub uninterp spec fn iso8601_of(nanos: i128) -> Option<Seq<char>>;

/// The times that can be represented, in nanoseconds from the epoch: some
/// years more than a million before and after it.
pub open spec fn is_time(nanos: i128) -> bool {
    -40_000_000_000_000_000_000_000 < nanos < 40_000_000_000_000_000_000_000
}

/// Calls `time::OffsetDateTime::now_utc` and hands out its
/// `unix_timestamp_nanos`. Nothing is claimed of the result but the range of
/// the type, whose years have at most six digits.
#[verifier::external_body]
pub(crate) fn now_nanos() -> (r: i128)
    ensures
        is_time(r),
{
    time::OffsetDateTime::now_utc().unix_timestamp_nanos()
}

/// Calls `bson::DateTime::now` and hands out its `timestamp_millis`. Nothing
/// is claimed of the result.
#[verifier::external_body]
pub(crate) fn now_millis() -> (r: i64) {
    bson::DateTime::now().timestamp_millis()
}

/// Calls `time::OffsetDateTime::format` with `Iso8601::DEFAULT` on the time in
/// UTC so many nanoseconds after the epoch; `None` stands for an error.
#[verifier::external_body]
pub(crate) fn format_iso8601(nanos: i128) -> (r: Option<String>)
    ensures
        match r {
            Some(s) => iso8601_of(nanos) == Some(s@),
            None => iso8601_of(nanos) is None,
        },
{
    let at = time::OffsetDateTime::from_unix_timestamp_nanos(nanos).ok()?;
    at.format(&time::format_description::well_known::Iso8601::DEFAULT).ok()
}

/// Calls `uuid::Uuid::new_v4` and writes it in its hyphenated form, which has
/// 36 characters.
#[verifier::external_body]
pub(crate) fn new_uuid() -> (r: String)
    ensures
        r@.len() == 36,
{
    uuid::Uuid::new_v4().to_string()
}

#[verifier::external_type_specification]
#[verifier::external_body]
pub struct ExSystemTime(std::time::SystemTime);

/// `std::time::SystemTime::now`: nothing is claimed of the result.
pub assume_specification [std::time::SystemTime::now]() -> std::time::SystemTime;

/// Calls `std::time::SystemTime::duration_since` with the epoch; `None` stands
/// for its error. Nothing is claimed of the result.
#[verifier::external_body]
fn since_epoch(t: std::time::SystemTime) -> (r: Option<std::time::Duration>) {
    t.duration_since(std::time::UNIX_EPOCH).ok()
}

/// `std::time::Duration::as_millis`: nothing is claimed of the result.
pub assume_specification [std::time::Duration::as_millis](d: &std::time::Duration) -> u128;

/// `std::time::Duration::as_secs`: nothing is claimed of the result.
pub assume_specification [std::time::Duration::as_secs](d: &std::time::Duration) -> u64;

/// The time in milliseconds from the epoch; zero before it.
pub fn epoch_millis() -> (r: u128) {
    match since_epoch(std::time::SystemTime::now()) {
        Some(d) => d.as_millis(),
        None => 0,
    }
}

/// The time in seconds from the epoch; zero before it.
pub fn now_epoch_secs() -> (r: u64) {
    match since_epoch(std::time::SystemTime::now()) {
        Some(d) => d.as_secs(),
        None => 0,
    }
}

/// The time in milliseconds.
pub fn current_millis() -> (r: i64) {
    now_millis()
}

/// A time, in nanoseconds from the epoch, has a date: its second lies between
/// the first of the year -999,999 and the last of the year 999,999.
pub open spec fn has_date(nanos: int) -> bool {
    -31_619_087_596_800 <= second_of(nanos) <= 31_494_784_780_799
}

/// Calls `time::OffsetDateTime::from_unix_timestamp_nanos` and hands out
/// whether it succeeds: with the crate's large dates, which `bson` switches on,
/// it does so in the years of at most six digits.
#[verifier::external_body]
fn is_dated(nanos: i128) -> (r: bool)
    ensures
        r == has_date(nanos as int),
{
    time::OffsetDateTime::from_unix_timestamp_nanos(nanos).is_ok()
}

/// A time in milliseconds as one in nanoseconds; the epoch stands for a time
/// without a date.
pub open spec fn dated_nanos(millis: i64) -> i128 {
    let nanos = (millis * 1_000_000) as i128;
    if has_date(nanos as int) {
        nanos
    } else {
        0
    }
}

/// A time in milliseconds as one in nanoseconds; the epoch stands for a time
/// without a date.
pub fn to_offset_nanos(millis: i64) -> (r: i128)
    ensures
        r == dated_nanos(millis),
{
    let nanos: i128 = (millis as i128) * 1_000_000;
    if is_dated(nanos) {
        nanos
    } else {
        0
    }
}

/// The time in nanoseconds.
pub fn current_nanos() -> (r: i128)
    ensures
        is_time(r),
{
    now_nanos()
}

/// The label of a stream that is enabled at a time.
pub open spec fn label_at(nanos: i128) -> Seq<char> {
    match iso8601_of(nanos) {
        Some(s) => s,
        None => "unknown"@,
    }
}

/// The label of a stream that is enabled at a time.
pub fn stream_label(nanos: i128) -> (r: String)
    ensures
        r@ == label_at(nanos),
{
    match format_iso8601(nanos) {
        Some(s) => s,
        None => "unknown".to_owned(),
    }
}

/// The second in which a time lies.
pub open spec fn second_of(nanos: int) -> int {
    nanos / 1_000_000_000
}

/// The second in which a time lies.
pub fn seconds_at(nanos: i128) -> (r: i64)
    requires
        is_time(nanos),
    ensures
        r == second_of(nanos as int),
        -40_000_000_000_000 <= r <= 40_000_000_000_000,
{
    let q: i128 = if nanos >= 0 {
        nanos / 1_000_000_000
    } else {
        let m: i128 = (-(nanos + 1)) / 1_000_000_000;
        -m - 1
    };
    q as i64
}

/// What an operation that creates tables or indexes needs from outside.
#[derive(Debug, PartialEq)]
pub struct Fresh {
    /// The time in nanoseconds.
    pub now_nanos: i128,
    /// The time in milliseconds.
    pub now_millis: i64,
    /// A new identifier.
    pub id: String,
    /// Further new identifiers.
    pub ids: Vec<String>,
}

/// Draws the time, a new identifier and `n` further ones.
pub fn draw_fresh(n: usize) -> (r: Fresh)
    ensures
        r.ids@.len() == n,
        is_time(r.now_nanos),
        r.id@.len() == 36,
        forall|i: int| 0 <= i < n ==> (#[trigger] r.ids@[i])@.len() == 36,
{
    let mut ids: Vec<String> = Vec::new();
    let mut i: usize = 0;
    while i < n
        invariant
            i <= n,
            ids@.len() == i,
            forall|j: int| 0 <= j < i ==> (#[trigger] ids@[j])@.len() == 36,
        decreases n - i,
    {
        ids.push(new_uuid());
        i += 1;
    }
    Fresh { now_nanos: now_nanos(), now_millis: now_millis(), id: new_uuid(), ids }
}

} // verus!
