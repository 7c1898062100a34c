//! Identifiers and the current time, drawn from the environment.

use vstd::prelude::*;
use chrono::{Datelike, Timelike};
use crate::document_info::UtcDateTime;

verus! {

/// An ASCII letter or digit.
pub open spec fn is_alphanumeric(c: char) -> bool {
    ('0' <= c && c <= '9') || ('A' <= c && c <= 'Z') || ('a' <= c && c <= 'z')
}

/// Relies on rand's `thread_rng` sampled with the `Alphanumeric`
/// distribution: `n` characters, each an ASCII letter or digit.
#[verifier::external_body]
fn random_alphanumeric(n: usize) -> (r: String)
    ensures
        r@.len() == n,
        forall|i: int| 0 <= i < n ==> is_alphanumeric(#[trigger] r@[i]),
{
    rand::Rng::sample_iter(rand::thread_rng(), &rand::distributions::Alphanumeric).take(n).map(char::from).collect()
}

/// Relies on chrono's `Utc::now` and its `Datelike` / `Timelike` fields:
/// (year, month 1-12, day 1-31, hour 0-23, minute 0-59, second 0-59).
#[verifier::external_body]
fn utc_now_fields() -> (r: (i32, u32, u32, u32, u32, u32))
    ensures
        1 <= r.1 <= 12,
        1 <= r.2 <= 31,
        r.3 < 24,
        r.4 < 60,
        r.5 < 60,
{
    let t = chrono::Utc::now();
    (t.year(), t.month(), t.day(), t.hour(), t.minute(), t.second())
}

/// A fresh identifier of 32 ASCII letters and digits.
pub fn new_identifier() -> (r: String)
    ensures
        r@.len() == 32,
        forall|i: int| 0 <= i < 32 ==> is_alphanumeric(#[trigger] r@[i]),
{
    random_alphanumeric(32)
}

/// A year clamped to `0..=9999`, the years a PDF date can write.
pub open spec fn clamped_year(y: int) -> int {
    if y < 0 { 0 } else if y > 9999 { 9999 } else { y }
}

/// A timestamp from calendar fields, the year clamped to `0..=9999`.
pub fn utc_from_fields(year: i32, month: u32, day: u32, hour: u32, minute: u32, second: u32) -> (r: UtcDateTime)
    ensures
        r.year == clamped_year(year as int),
        r.month == month && r.day == day && r.hour == hour && r.minute == minute && r.second == second,
{
    let y: u32 = if year < 0 { 0 } else if year > 9999 { 9999 } else { year as u32 };
    UtcDateTime { year: y, month, day, hour, minute, second }
}

/// The current time in UTC; years outside 0..=9999 are clamped to that range.
pub fn utc_now() -> (r: UtcDateTime)
    ensures
        r.wf(),
{
    let (y, month, day, hour, minute, second) = utc_now_fields();
    utc_from_fields(y, month, day, hour, minute, second)
}

} // verus!
