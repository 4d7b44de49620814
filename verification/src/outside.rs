//! The calls that leave the library: the clock, the random generator and the
//! identifier generator. Their contracts are assumed, not proved.

use vstd::prelude::*;

verus! {

/// Upper bound of every reading of the clock, in milliseconds.
pub const CLOCK_LIMIT_MS: i64 = 200_000_000_000_000_000;

/// Whether `t` can be a reading of the clock.
pub open spec fn is_clock_reading(t: i64) -> bool {
    0 <= t < CLOCK_LIMIT_MS
}

/// Reads the clock: `chrono::Utc::now()`, as milliseconds since the Unix epoch
/// (`DateTime::timestamp_millis`).
///
/// Assumed: the reading is not negative and lies below [`CLOCK_LIMIT_MS`].
/// `Utc::now` panics when the system time is before the epoch, and builds its
/// result with `DateTime::from_timestamp`, which gives `None` once the day
/// count leaves `i32`, so a reading is below `2^31 * 86_400_000`.
#[verifier::external_body]
pub(crate) fn now_millis() -> (t: i64)
    ensures
        is_clock_reading(t),
{
    chrono::Utc::now().timestamp_millis()
}

/// Draws a number: `rand::rng().random_range(low..=high)`.
///
/// Assumed: the number lies in the range, ends included. `random_range`
/// panics on an empty range, which `requires` leaves out.
#[verifier::external_body]
pub(crate) fn random_in(low: u64, high: u64) -> (n: u64)
    requires
        low <= high,
    ensures
        low <= n <= high,
{
    rand::Rng::random_range(&mut rand::rng(), low..=high)
}

/// Compares two texts: `==` of `str`.
///
/// Assumed: the answer is whether the texts hold the same characters.
#[verifier::external_body]
pub(crate) fn same_text(a: &str, b: &str) -> (same: bool)
    ensures
        same == (a@ == b@),
{
    a == b
}

/// Makes an identifier: `uuid::Uuid::new_v4()`, written out by `to_string`.
///
/// Assumed: the text has 36 characters, the length of the hyphenated form
/// that `Display` writes for a `Uuid`.
#[verifier::external_body]
pub(crate) fn new_id() -> (id: String)
    ensures
        id@.len() == 36,
{
    uuid::Uuid::new_v4().to_string()
}

} // verus!
