use vstd::prelude::*;

verus! {

/// One environment variable: its name and its secret value.
pub struct SecretInput {
    pub key: String,
    pub value: String,
}

/// A point in time: whole seconds since the Unix epoch and the nanoseconds
/// past that second.
#[derive(Clone, Copy, Debug, PartialEq, Eq, Structural)]
pub struct Timestamp {
    pub seconds: i64,
    pub nanos: u32,
}

/// The earliest second the calendar library represents (the first second
/// of year -262143).
pub const MIN_TIMESTAMP_SECONDS: i64 = -8_334_601_315_200;

/// The latest second the calendar library represents (the last second of
/// year 262142).
pub const MAX_TIMESTAMP_SECONDS: i64 = 8_210_266_876_799;

impl Timestamp {
    /// A timestamp the calendar library represents, with a sub-second part below one second.
    pub open spec fn valid(self) -> bool {
        &&& self.nanos < 1_000_000_000
        &&& MIN_TIMESTAMP_SECONDS <= self.seconds <= MAX_TIMESTAMP_SECONDS
    }

    /// Nanoseconds since the epoch.
    pub open spec fn total_nanos(self) -> int {
        self.seconds * 1_000_000_000 + self.nanos
    }

    /// Strictly earlier than `other`.
    pub open spec fn spec_before(self, other: Timestamp) -> bool {
        self.seconds < other.seconds || (self.seconds == other.seconds && self.nanos
            < other.nanos)
    }

    /// Whether `self` is strictly earlier than `other`.
    pub fn before(&self, other: &Timestamp) -> (res: bool)
        ensures
            res == self.spec_before(*other),
    {
        self.seconds < other.seconds || (self.seconds == other.seconds && self.nanos
            < other.nanos)
    }
}

/// The whole seconds from `earlier` to `later`, truncated toward zero.
pub open spec fn whole_seconds_between(later: Timestamp, earlier: Timestamp) -> int {
    let d = later.total_nanos() - earlier.total_nanos();
    if d >= 0 {
        d / 1_000_000_000
    } else {
        -((-d) / 1_000_000_000)
    }
}

/// The whole seconds from `earlier` to `later`, truncated toward zero, as
/// the calendar library computes a signed duration's whole seconds.
pub fn seconds_between(later: &Timestamp, earlier: &Timestamp) -> (res: i64)
    requires
        later.valid(),
        earlier.valid(),
    ensures
        res == whole_seconds_between(*later, *earlier),
{
    let mut secs: i64 = later.seconds - earlier.seconds;
    let mut frac: i64 = later.nanos as i64 - earlier.nanos as i64;
    if frac < 0 {
        secs = secs - 1;
        frac = frac + 1_000_000_000;
    }
    let res = if secs < 0 && frac > 0 {
        secs + 1
    } else {
        secs
    };
    proof {
        let d = later.total_nanos() - earlier.total_nanos();
        assert(d == secs * 1_000_000_000 + frac);
        assert(0 <= frac < 1_000_000_000);
        if secs >= 0 {
            assert(d / 1_000_000_000 == secs) by (nonlinear_arith)
                requires
                    d == secs * 1_000_000_000 + frac,
                    0 <= frac < 1_000_000_000,
            ;
        } else if frac > 0 {
            assert(-((-d) / 1_000_000_000) == secs + 1) by (nonlinear_arith)
                requires
                    d == secs * 1_000_000_000 + frac,
                    0 < frac < 1_000_000_000,
                    secs < 0,
            ;
        } else {
            assert(-((-d) / 1_000_000_000) == secs) by (nonlinear_arith)
                requires
                    d == secs * 1_000_000_000,
                    secs < 0,
            ;
        }
    }
    res
}

} // verus!

verus! {

/// The RFC 3339 text of an instant in UTC, to whole seconds, with a `Z`
/// suffix, as the calendar library writes it.
pub uninterp spec fn rfc3339_utc_seconds(seconds: i64, nanos: u32) -> Seq<char>;

/// RFC 3339 text of `t` to whole seconds with a `Z` suffix.
///
/// Calls chrono's `DateTime::<Utc>::from_timestamp` and
/// `to_rfc3339_opts(SecondsFormat::Secs, true)`. A valid timestamp lies in
/// chrono's range, so `from_timestamp` returns a value. The contract names
/// the text and says nothing more of its form.
#[verifier::external_body]
pub(crate) fn rfc3339_seconds(t: &Timestamp) -> (res: String)
    requires
        t.valid(),
    ensures
        res@ == rfc3339_utc_seconds(t.seconds, t.nanos),
{
    chrono::DateTime::<chrono::Utc>::from_timestamp(t.seconds, t.nanos)
        .expect("a valid timestamp lies in chrono's range")
        .to_rfc3339_opts(chrono::SecondsFormat::Secs, true)
}

} // verus!

verus! {

/// The UTC calendar date and time of an instant as fourteen digits,
/// `YYYYMMDDhhmmss`, as the calendar library formats it.
pub uninterp spec fn utc_compact_text(seconds: i64, nanos: u32) -> Seq<char>;

/// `t` formatted as `%Y%m%d%H%M%S` in UTC.
///
/// Calls chrono's `DateTime::<Utc>::from_timestamp` and `format` with that
/// pattern. A valid timestamp lies in chrono's range, so `from_timestamp`
/// returns a value. The contract names the text and says nothing more of
/// its form.
#[verifier::external_body]
pub(crate) fn utc_compact(t: &Timestamp) -> (res: String)
    requires
        t.valid(),
    ensures
        res@ == utc_compact_text(t.seconds, t.nanos),
{
    chrono::DateTime::<chrono::Utc>::from_timestamp(t.seconds, t.nanos)
        .expect("a valid timestamp lies in chrono's range")
        .format("%Y%m%d%H%M%S")
        .to_string()
}

} // verus!

verus! {

/// An RFC 3339 timestamp rewritten in UTC as `YYYY-MM-DD hh:mm UTC`, as
/// the calendar library parses and formats it; none when it does not parse.
pub uninterp spec fn rfc3339_utc_minute(text: Seq<char>) -> Option<Seq<char>>;

/// An RFC 3339 timestamp shown to the minute in UTC.
///
/// Calls chrono's `DateTime::parse_from_rfc3339`, then `with_timezone(&Utc)`
/// and `format("%Y-%m-%d %H:%M UTC")`. The contract names the result.
#[verifier::external_body]
pub(crate) fn rfc3339_minute(text: &str) -> (res: Option<String>)
    ensures
        match res {
            Some(m) => rfc3339_utc_minute(text@) == Some(m@),
            None => rfc3339_utc_minute(text@) is None,
        },
{
    chrono::DateTime::parse_from_rfc3339(text)
        .ok()
        .map(|time| time.with_timezone(&chrono::Utc).format("%Y-%m-%d %H:%M UTC").to_string())
}

/// How a time field is shown: `never` when absent, the UTC minute when it
/// reads as RFC 3339, and the raw text otherwise.
pub open spec fn time_shown(raw: Option<Seq<char>>) -> Seq<char> {
    match raw {
        None => "never"@,
        Some(text) => match rfc3339_utc_minute(text) {
            Some(minute) => minute,
            None => text,
        },
    }
}

/// The text shown for a time field of a server response.
pub fn timestamp_text(raw: Option<&str>) -> (res: String)
    ensures
        res@ == time_shown(
            match raw {
                Some(r) => Some(r@),
                None => None,
            },
        ),
{
    match raw {
        None => "never".to_owned(),
        Some(text) => match rfc3339_minute(text) {
            Some(minute) => minute,
            None => text.to_owned(),
        },
    }
}

} // verus!
