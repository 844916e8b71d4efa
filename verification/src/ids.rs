//! Job identifiers and wall-clock readings.
//!
//! Job identifiers are random version-4 UUIDs, carried as their 128-bit value.

use vstd::prelude::*;

verus! {

/// The 128-bit value of a job's UUID.
pub type JobId = u128;

/// Draws a fresh random job identifier.
///
/// Calls `uuid::Uuid::new_v4` and returns its 128-bit value
/// (`uuid::Uuid::as_u128`). The value comes from a random number generator,
/// so nothing is promised about it.
#[verifier::external_body]
pub(crate) fn new_job_id() -> (id: JobId) {
    uuid::Uuid::new_v4().as_u128()
}

/// The lower-case hexadecimal digit for a value below 16.
pub open spec fn hex_digit(n: nat) -> char {
    if n < 10 {
        (48 + n) as char
    } else {
        (87 + n) as char
    }
}

/// The `n` lowest hexadecimal digits of `v`, most significant first.
pub open spec fn hex_digits(v: nat, n: nat) -> Seq<char>
    decreases n,
{
    if n == 0 {
        Seq::empty()
    } else {
        hex_digits(v / 16, (n - 1) as nat).push(hex_digit(v % 16))
    }
}

/// The text form of a job identifier: its 32 lower-case hexadecimal digits,
/// most significant first, grouped 8-4-4-4-12 with hyphens.
pub open spec fn uuid_text(id: u128) -> Seq<char> {
    let d = hex_digits(id as nat, 32);
    d.subrange(0, 8) + seq!['-'] + d.subrange(8, 12) + seq!['-'] + d.subrange(12, 16) + seq!['-']
        + d.subrange(16, 20) + seq!['-'] + d.subrange(20, 32)
}

/// Renders a job identifier as text.
///
/// Calls `uuid::Uuid::from_u128`, which takes the value's bytes in big-endian
/// order, and formats the result with its `Display` impl, which writes the
/// hyphenated lower-case form (`uuid_text`).
#[verifier::external_body]
pub(crate) fn job_id_text(id: JobId) -> (s: String)
    ensures
        s@ == uuid_text(id),
{
    uuid::Uuid::from_u128(id).to_string()
}

/// Reads the wall clock: milliseconds since the Unix epoch.
///
/// Calls `chrono::Utc::now()` and `DateTime::timestamp_millis`. The value
/// depends on the time of the call, so nothing is promised about it.
#[verifier::external_body]
pub(crate) fn now_millis() -> (t: i64) {
    chrono::Utc::now().timestamp_millis()
}

/// Reads the wall clock as an RFC 3339 timestamp.
///
/// Calls `chrono::Utc::now()` and `DateTime::to_rfc3339`. The value depends on
/// the time of the call, so nothing is promised about it.
#[verifier::external_body]
pub(crate) fn now_rfc3339() -> (s: String) {
    chrono::Utc::now().to_rfc3339()
}

} // verus!
