//! The calls into outside crates that the library relies on, each behind a
//! contract that states only what the outside source shows.

use vstd::prelude::*;

use rand::Rng;

use crate::sensor::{uuid_v4_text_shape, MAX_TIMESTAMP_MILLIS};

verus! {

/// What chrono renders for an instant: RFC 3339 text in UTC with millisecond
/// precision and a `Z` suffix. The text is a function of the millisecond
/// value alone.
pub uninterp spec fn rfc3339_of(millis: i64) -> Seq<char>;

/// Relies on `uuid::Uuid::new_v4` and its `Display` impl: a fresh random
/// version-4 UUID in the hyphenated form — 36 characters, hyphens between
/// the five groups, and the version nibble masked to `4`, which opens the
/// third group. The remaining characters are random; nothing can be
/// promised of them.
#[verifier::external_body]
pub(crate) fn fresh_uuid_text() -> (r: String)
    ensures
        uuid_v4_text_shape(r@),
{
    uuid::Uuid::new_v4().to_string()
}

/// Relies on `chrono::Utc::now` and `DateTime::timestamp_millis`: the current
/// wall-clock time as milliseconds since the Unix epoch. The clock decides
/// the value, so nothing is promised of it.
#[verifier::external_body]
pub(crate) fn now_millis() -> (r: i64)
{
    chrono::Utc::now().timestamp_millis()
}

/// Relies on `chrono::DateTime::from_timestamp_millis` (defined on the whole
/// required range, `None` only out of range) and `DateTime::to_rfc3339_opts`:
/// the rendering depends on the millisecond value alone, named `rfc3339_of`.
#[verifier::external_body]
pub(crate) fn format_rfc3339(millis: i64) -> (r: String)
    requires
        0 <= millis <= MAX_TIMESTAMP_MILLIS,
    ensures
        r@ == rfc3339_of(millis),
{
    match chrono::DateTime::<chrono::Utc>::from_timestamp_millis(millis) {
        Some(dt) => dt.to_rfc3339_opts(chrono::SecondsFormat::Millis, true),
        None => String::new(),
    }
}

/// Relies on `rand::thread_rng` and `Rng::gen_range` on an inclusive range:
/// the sample lies within the bounds; the range is never empty, so the call
/// does not panic.
#[verifier::external_body]
pub(crate) fn sample_inclusive(lo: u32, hi: u32) -> (r: u32)
    requires
        lo <= hi,
    ensures
        lo <= r <= hi,
{
    rand::thread_rng().gen_range(lo..=hi)
}

/// Relies on `String::push`: appends exactly the given character.
#[verifier::external_body]
pub(crate) fn push_char(s: &mut String, c: char)
    ensures
        final(s)@ == old(s)@ + seq![c],
{
    s.push(c);
}

} // verus!
