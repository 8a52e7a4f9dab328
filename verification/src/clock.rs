//! Points in time, and their RFC 3339 form.

use crate::text::{opt_view, owned};
use vstd::prelude::*;

verus! {

/// What `OffsetDateTime::parse` reads from a text in RFC 3339 form, in nanoseconds since
/// 1970 in UTC; `None` where it refuses the text.
pub uninterp spec fn rfc3339_nanos(text: Seq<char>) -> Option<i128>;

/// What `OffsetDateTime::format` writes in RFC 3339 form for a number of nanoseconds since
/// 1970 in UTC; `None` where no date is that far away or the year has no four digits.
pub uninterp spec fn rfc3339_text(nanos: i128) -> Option<Seq<char>>;

/// `time::OffsetDateTime::parse` with the well-known RFC 3339 format, then
/// `unix_timestamp_nanos`. The years of a date lie between -9999 and 9999, which bounds the
/// number of nanoseconds.
#[verifier::external_body]
pub(crate) fn parse_rfc3339(text: &str) -> (r: Option<i128>)
    ensures
        r == rfc3339_nanos(text@),
        r matches Some(n) ==> -1_000_000_000_000_000_000_000 < n < 1_000_000_000_000_000_000_000,
{
    let format = time::format_description::well_known::Rfc3339;
    time::OffsetDateTime::parse(text, &format).ok().map(|value| value.unix_timestamp_nanos())
}

/// `time::OffsetDateTime::from_unix_timestamp_nanos`, then `format` with the well-known
/// RFC 3339 format.
#[verifier::external_body]
pub(crate) fn format_rfc3339(nanos: i128) -> (r: Option<String>)
    ensures
        opt_view(r) == rfc3339_text(nanos),
{
    let format = time::format_description::well_known::Rfc3339;
    time::OffsetDateTime::from_unix_timestamp_nanos(nanos).ok()?.format(&format).ok()
}

/// `time::OffsetDateTime::now_utc`, in nanoseconds since 1970: the clock of the machine, of
/// which nothing is promised.
#[verifier::external_body]
pub(crate) fn unix_nanos_now() -> (r: i128) {
    time::OffsetDateTime::now_utc().unix_timestamp_nanos()
}

/// The text that stands for a point in time.
pub open spec fn iso_text(nanos: i128) -> Seq<char> {
    match rfc3339_text(nanos) {
        Some(text) => text,
        None => "1970-01-01T00:00:00Z"@,
    }
}

/// The RFC 3339 form of a point in time.
pub fn iso_of(nanos: i128) -> (r: String)
    ensures
        r@ == iso_text(nanos),
{
    match format_rfc3339(nanos) {
        Some(text) => text,
        None => owned("1970-01-01T00:00:00Z"),
    }
}

/// The current time.
pub fn now_iso() -> (r: String)
    ensures
        exists|nanos: i128| r@ == #[trigger] iso_text(nanos),
{
    iso_of(unix_nanos_now())
}

/// The whole seconds from one point in time to another, zero where the second is earlier.
pub open spec fn seconds_between(start: i128, end: i128) -> int {
    if end <= start {
        0
    } else {
        (end - start) / 1_000_000_000
    }
}

/// The whole seconds between two points in time that lie within the range of dates.
pub fn elapsed_seconds(start: i128, end: i128) -> (r: u64)
    requires
        -1_000_000_000_000_000_000_000 < start < 1_000_000_000_000_000_000_000,
        -1_000_000_000_000_000_000_000 < end < 1_000_000_000_000_000_000_000,
    ensures
        r == seconds_between(start, end),
{
    if end <= start {
        0
    } else {
        ((end - start) / 1_000_000_000) as u64
    }
}

/// How long a scan took, where both of its times can be read.
pub fn duration_seconds(started_at: &str, finished_at: &str) -> (r: Option<u64>)
    ensures
        match (rfc3339_nanos(started_at@), rfc3339_nanos(finished_at@)) {
            (Some(start), Some(end)) => r matches Some(n) && n == seconds_between(start, end),
            _ => r is None,
        },
{
    match parse_rfc3339(started_at) {
        Some(start) => match parse_rfc3339(finished_at) {
            Some(end) => Some(elapsed_seconds(start, end)),
            None => None,
        },
        None => None,
    }
}

/// A scan that ends when it starts takes no time, and a later end never makes it shorter.
pub proof fn lemma_seconds_between_monotone(start: i128, end: i128, later: i128)
    requires
        end <= later,
    ensures
        seconds_between(start, start) == 0,
        0 <= seconds_between(start, end) <= seconds_between(start, later),
{
}

// ---------------------------------------------------------------------------
// Times as NTFS stores them.

/// The ticks of 100 nanoseconds from 1601 to 1970.
pub const FILETIME_EPOCH: u64 = 116_444_736_000_000_000;

/// The nanoseconds since 1970 of a number of ticks of 100 nanoseconds since 1601; zero for an
/// earlier time.
pub open spec fn filetime_nanos(ticks: u64) -> i128 {
    if ticks <= FILETIME_EPOCH {
        0
    } else {
        ((ticks - FILETIME_EPOCH) * 100) as i128
    }
}

/// The text of a stored time: none for a time that was never set, and 1970 for one beyond the
/// range of dates.
pub open spec fn filetime_text(ticks: u64) -> Option<Seq<char>> {
    if ticks == 0 {
        None
    } else {
        match rfc3339_text(filetime_nanos(ticks)) {
            Some(text) => Some(text),
            None => rfc3339_text(0),
        }
    }
}

pub fn ntfs_to_unix_time(ticks: u64) -> (r: i128)
    ensures
        r == filetime_nanos(ticks),
{
    if ticks <= FILETIME_EPOCH {
        0
    } else {
        (ticks - FILETIME_EPOCH) as i128 * 100
    }
}

pub fn format_ntfs_filetime(ticks: u64) -> (r: Option<String>)
    ensures
        opt_view(r) == filetime_text(ticks),
{
    if ticks == 0 {
        return None;
    }
    match format_rfc3339(ntfs_to_unix_time(ticks)) {
        Some(text) => Some(text),
        None => format_rfc3339(0),
    }
}

/// The text of an optional point in time.
pub open spec fn time_text(nanos: Option<i128>) -> Option<Seq<char>> {
    match nanos {
        Some(n) => rfc3339_text(n),
        None => None,
    }
}

pub fn format_time(nanos: Option<i128>) -> (r: Option<String>)
    ensures
        opt_view(r) == time_text(nanos),
{
    match nanos {
        Some(n) => format_rfc3339(n),
        None => None,
    }
}

// ---------------------------------------------------------------------------
// Laws.

/// A stored time counts ticks of 100 nanoseconds from the start of 1601, which is 11,644,473,600
/// seconds before 1970: that many seconds and `seconds` more is `seconds` after 1970.
pub proof fn lemma_stored_times_count_from_1601(seconds: int, ticks: int)
    requires
        0 <= seconds,
        0 <= ticks < 10_000_000,
        (seconds + 11_644_473_600) * 10_000_000 + ticks <= u64::MAX,
    ensures
        filetime_nanos(((seconds + 11_644_473_600) * 10_000_000 + ticks) as u64) == seconds
            * 1_000_000_000 + 100 * ticks,
{
}

/// A time that was set is told, as the text of that very moment where it has one.
pub proof fn lemma_stored_times_are_told(ticks: u64)
    ensures
        filetime_text(0) is None,
        ticks != 0 && rfc3339_text(filetime_nanos(ticks)) is Some ==> filetime_text(ticks)
            == rfc3339_text(filetime_nanos(ticks)),
{
}

} // verus!
