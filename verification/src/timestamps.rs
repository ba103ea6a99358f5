//! Timestamps of log lines, in the formats log producers commonly use.
use vstd::prelude::*;
use time::format_description::well_known::{Iso8601, Rfc2822, Rfc3339};
use time::{OffsetDateTime, UtcOffset};

verus! {

/// An instant with the UTC offset it was written in.
#[derive(Debug, Clone, Copy, PartialEq, Eq, Structural)]
pub struct Timestamp {
    /// Nanoseconds since the Unix epoch.
    pub unix_nanos: i128,
    /// The UTC offset, in seconds.
    pub offset_seconds: i32,
}

/// What `OffsetDateTime::parse` with the RFC 3339 format gives.
pub uninterp spec fn rfc3339_parse_result(s: Seq<char>) -> Option<Timestamp>;

/// What `OffsetDateTime::parse` with the ISO 8601 format gives.
pub uninterp spec fn iso8601_parse_result(s: Seq<char>) -> Option<Timestamp>;

/// What `OffsetDateTime::parse` with the RFC 2822 format gives.
pub uninterp spec fn rfc2822_parse_result(s: Seq<char>) -> Option<Timestamp>;

/// What `OffsetDateTime::parse` gives for `s` with the format that
/// `time::format_description::parse` reads from `format`, or `None` when
/// either fails.
pub uninterp spec fn described_parse_result(format: Seq<char>, s: Seq<char>) -> Option<Timestamp>;

/// The format of nginx access log timestamps (`11/Jul/2022:10:56:04 +0000`),
/// in the format description language of the `time` crate.
pub open spec fn nginx_format() -> Seq<char> {
    "[day]/[month repr:short]/[year]:[hour repr:24]:[minute]:[second] [offset_hour sign:mandatory][offset_minute]"@
}

/// What the nginx timestamp parse gives.
pub open spec fn nginx_parse_result(s: Seq<char>) -> Option<Timestamp> {
    described_parse_result(nginx_format(), s)
}

/// What `OffsetDateTime::format` with the RFC 3339 format gives.
pub uninterp spec fn rfc3339_format_result(t: Timestamp) -> Option<Seq<char>>;

/// Calls `time::OffsetDateTime::parse` with `Rfc3339`. Named by
/// `rfc3339_parse_result`.
#[verifier::external_body]
fn parse_rfc3339(s: &str) -> (r: Option<Timestamp>)
    ensures
        r == rfc3339_parse_result(s@),
{
    let t = OffsetDateTime::parse(s, &Rfc3339).ok()?;
    Some(Timestamp { unix_nanos: t.unix_timestamp_nanos(), offset_seconds: t.offset().whole_seconds() })
}

/// Calls `time::OffsetDateTime::parse` with `Iso8601::DEFAULT`. Named by
/// `iso8601_parse_result`.
#[verifier::external_body]
fn parse_iso8601(s: &str) -> (r: Option<Timestamp>)
    ensures
        r == iso8601_parse_result(s@),
{
    let t = OffsetDateTime::parse(s, &Iso8601::DEFAULT).ok()?;
    Some(Timestamp { unix_nanos: t.unix_timestamp_nanos(), offset_seconds: t.offset().whole_seconds() })
}

/// Calls `time::OffsetDateTime::parse` with `Rfc2822`. Named by
/// `rfc2822_parse_result`.
#[verifier::external_body]
fn parse_rfc2822(s: &str) -> (r: Option<Timestamp>)
    ensures
        r == rfc2822_parse_result(s@),
{
    let t = OffsetDateTime::parse(s, &Rfc2822).ok()?;
    Some(Timestamp { unix_nanos: t.unix_timestamp_nanos(), offset_seconds: t.offset().whole_seconds() })
}

/// Calls `time::format_description::parse` on `format` and
/// `time::OffsetDateTime::parse` on `s` with the description. Named by
/// `described_parse_result`.
#[verifier::external_body]
fn parse_described(format: &str, s: &str) -> (r: Option<Timestamp>)
    ensures
        r == described_parse_result(format@, s@),
{
    let format = time::format_description::parse(format).ok()?;
    let t = OffsetDateTime::parse(s, &format).ok()?;
    Some(Timestamp { unix_nanos: t.unix_timestamp_nanos(), offset_seconds: t.offset().whole_seconds() })
}

/// Calls `time::OffsetDateTime::format` with `Rfc3339` on the instant in its
/// offset. Named by `rfc3339_format_result`; `None` when the instant or
/// offset is out of range or RFC 3339 cannot express it.
#[verifier::external_body]
pub(crate) fn format_rfc3339(t: Timestamp) -> (r: Option<String>)
    ensures
        r is Some <==> rfc3339_format_result(t) is Some,
        r is Some ==> rfc3339_format_result(t) == Some(r->0@),
{
    let offset = UtcOffset::from_whole_seconds(t.offset_seconds).ok()?;
    let d = OffsetDateTime::from_unix_timestamp_nanos(t.unix_nanos).ok()?.checked_to_offset(offset)?;
    d.format(&Rfc3339).ok()
}

/// What the `Display` implementation of `time::OffsetDateTime` prints for
/// the instant in its offset (date, time and offset, space separated).
pub uninterp spec fn display_result(t: Timestamp) -> Option<Seq<char>>;

/// Calls `to_string` on the `time::OffsetDateTime` of the instant in its
/// offset. Named by `display_result`; `None` when the instant or offset is
/// out of range.
#[verifier::external_body]
pub(crate) fn display_timestamp(t: Timestamp) -> (r: Option<String>)
    ensures
        r is Some <==> display_result(t) is Some,
        r is Some ==> display_result(t) == Some(r->0@),
{
    let offset = UtcOffset::from_whole_seconds(t.offset_seconds).ok()?;
    let d = OffsetDateTime::from_unix_timestamp_nanos(t.unix_nanos).ok()?.checked_to_offset(offset)?;
    Some(d.to_string())
}

/// Calls `time::OffsetDateTime::now_utc`: the current instant, in UTC.
/// Nothing else is stated of the result, which depends on the clock.
#[verifier::external_body]
pub(crate) fn now_utc() -> (r: Timestamp)
    ensures
        r.offset_seconds == 0,
{
    let t = OffsetDateTime::now_utc();
    Timestamp { unix_nanos: t.unix_timestamp_nanos(), offset_seconds: t.offset().whole_seconds() }
}

/// Whole seconds since the Unix epoch, rounded down.
pub open spec fn unix_seconds(t: Timestamp) -> int {
    t.unix_nanos as int / 1_000_000_000
}

/// Whole seconds since the Unix epoch, rounded down, as
/// `OffsetDateTime::unix_timestamp` gives them.
pub fn unix_timestamp(t: Timestamp) -> (r: i128)
    ensures
        r as int == unix_seconds(t),
{
    match t.unix_nanos.checked_div_euclid(1_000_000_000) {
        Some(s) => s,
        None => {
            proof {
                let n = t.unix_nanos as int;
                assert(i128::MIN <= n / 1_000_000_000 <= i128::MAX) by (nonlinear_arith)
                    requires
                        i128::MIN <= n <= i128::MAX,
                ;
            }
            0
        },
    }
}

/// The closure is callable on every string, and gives equal results on
/// equal strings.
pub open spec fn well_behaved<F: Fn(&str) -> Option<i128>>(f: F) -> bool {
    &&& forall|x: &str| #[trigger] call_requires(f, (x,))
    &&& forall|x: &str, y: &str, r1: Option<i128>, r2: Option<i128>|
        x@ == y@ && #[trigger] call_ensures(f, (x,), r1) && #[trigger] call_ensures(f, (y,), r2)
            ==> r1 == r2
}

/// What a well-behaved closure gives for a string.
pub open spec fn closure_result<F: Fn(&str) -> Option<i128>>(f: F, s: Seq<char>) -> Option<i128> {
    let p = choose|x: &str, r: Option<i128>| x@ == s && #[trigger] call_ensures(f, (x,), r);
    p.1
}

/// The timestamp in a string, as the formats are tried in order: RFC 3339,
/// ISO 8601, RFC 2822, nginx, and finally a Unix timestamp with a
/// fractional part, which `unix_float` (the caller's, since it takes
/// floating point) turns into nanoseconds.
pub open spec fn timestamp_spec<F: Fn(&str) -> Option<i128>>(s: Seq<char>, unix_float: F) -> Option<Timestamp> {
    if rfc3339_parse_result(s) is Some {
        rfc3339_parse_result(s)
    } else if iso8601_parse_result(s) is Some {
        iso8601_parse_result(s)
    } else if rfc2822_parse_result(s) is Some {
        rfc2822_parse_result(s)
    } else if nginx_parse_result(s) is Some {
        nginx_parse_result(s)
    } else {
        match closure_result(unix_float, s) {
            Some(n) => Some(Timestamp { unix_nanos: n, offset_seconds: 0 }),
            None => None,
        }
    }
}

/// Parses an nginx access log timestamp.
fn parse_nginx(s: &str) -> (r: Option<Timestamp>)
    ensures
        r == nginx_parse_result(s@),
{
    parse_described(
        "[day]/[month repr:short]/[year]:[hour repr:24]:[minute]:[second] [offset_hour sign:mandatory][offset_minute]",
        s,
    )
}

/// Parses a timestamp given as a string in any of the supported formats.
pub fn parse_timestamp<F: Fn(&str) -> Option<i128>>(s: &str, unix_float: &F) -> (r: Option<Timestamp>)
    requires
        well_behaved(*unix_float),
    ensures
        r == timestamp_spec(s@, *unix_float),
{
    if let Some(t) = parse_rfc3339(s) {
        return Some(t);
    }
    if let Some(t) = parse_iso8601(s) {
        return Some(t);
    }
    if let Some(t) = parse_rfc2822(s) {
        return Some(t);
    }
    if let Some(t) = parse_nginx(s) {
        return Some(t);
    }
    let n = unix_float(s);
    proof {
        assert(call_ensures(*unix_float, (s,), n));
        let p = choose|x: &str, r: Option<i128>| x@ == s@ && #[trigger] call_ensures(*unix_float, (x,), r);
        assert(p.0@ == s@ && call_ensures(*unix_float, (p.0,), p.1));
        assert(p.1 == n);
    }
    match n {
        Some(n) => Some(Timestamp { unix_nanos: n, offset_seconds: 0 }),
        None => None,
    }
}

} // verus!
