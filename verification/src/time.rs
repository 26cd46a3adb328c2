//! Instants and spans of time, to the nanosecond.

use vstd::prelude::*;

use crate::text;

verus! {

/// Nanoseconds in a second.
pub const SECOND: i128 = 1_000_000_000;

/// Nanoseconds in a minute.
pub const MINUTE: i128 = 60_000_000_000;

/// The first second of the calendar: 1 January of the year -262143, in seconds since the epoch.
pub const FIRST_SECOND: i64 = -8_334_601_228_800;

/// The last second of the calendar: 31 December of the year 262142, in seconds since the epoch.
pub const LAST_SECOND: i64 = 8_210_266_876_799;

/// The nanosecond `n` since the epoch lies within the calendar.
pub open spec fn in_calendar(n: int) -> bool {
    FIRST_SECOND * SECOND <= n < (LAST_SECOND + 1) * SECOND
}

/// A span of time, possibly negative. Its model is its length in nanoseconds.
#[derive(Clone, Copy, Debug, PartialEq, Eq, Structural)]
pub struct Duration {
    /// The length in nanoseconds.
    pub nanos: i128,
}

impl View for Duration {
    type V = int;

    open spec fn view(&self) -> int {
        self.nanos as int
    }
}

/// An instant of the calendar, in UTC.
#[derive(Clone, Copy, Debug, PartialEq, Eq, Structural)]
pub struct Timestamp {
    nanos: i128,
    leap: bool,
}

/// The model of [`Timestamp`]. Time is reckoned as Unix time: a leap second repeats the second
/// before it, so that it takes no time of its own.
pub struct Instant {
    /// The nanoseconds since the epoch, in Unix time.
    pub nanos: int,
    /// The instant lies in the leap second, and not in the second that it repeats.
    pub leap: bool,
}

impl View for Timestamp {
    type V = Instant;

    closed spec fn view(&self) -> Instant {
        Instant { nanos: self.nanos as int, leap: self.leap }
    }
}

impl Instant {
    /// The second that the instant lies in or repeats, since the epoch.
    pub open spec fn second(self) -> i64 {
        (self.nanos / SECOND as int) as i64
    }

    /// The nanoseconds since that second began: a full second or more in a leap second.
    pub open spec fn subsec_nanos(self) -> u32 {
        (self.nanos % SECOND as int + if self.leap {
            SECOND as int
        } else {
            0
        }) as u32
    }

    /// The instant `minutes` later. A leap second is behind, once time has passed.
    pub open spec fn plus_minutes(self, minutes: u16) -> Instant {
        if minutes == 0 {
            self
        } else {
            Instant { nanos: self.nanos + minutes * MINUTE, leap: false }
        }
    }
}

/// The instant `nanos` after the second `seconds`.
pub open spec fn instant_of(seconds: i64, subsec_nanos: u32) -> Instant {
    Instant {
        nanos: seconds * SECOND + subsec_nanos % 1_000_000_000,
        leap: subsec_nanos >= SECOND,
    }
}

/// The model of an optional instant.
pub open spec fn optional_instant(t: Option<Timestamp>) -> Option<Instant> {
    match t {
        Some(t) => Some(t@),
        None => None,
    }
}

/// The length of an optional span.
pub open spec fn optional_span(d: Option<Duration>) -> Option<int> {
    match d {
        Some(d) => Some(d@),
        None => None,
    }
}

impl Duration {
    /// A span of whole minutes.
    pub fn minutes(minutes: u16) -> (res: Duration)
        ensures
            res@ == minutes * MINUTE,
    {
        Duration { nanos: minutes as i128 * MINUTE }
    }

    /// The whole seconds of the span, none if it is negative.
    pub fn whole_seconds(&self) -> (res: u128)
        ensures
            res == seconds_of(self@),
    {
        if self.nanos < 0 {
            0
        } else {
            self.nanos as u128 / 1_000_000_000
        }
    }
}

/// The whole seconds of a span of `n` nanoseconds, none if it is negative.
pub open spec fn seconds_of(n: int) -> nat {
    if n < 0 {
        0
    } else {
        (n / SECOND as int) as nat
    }
}

/// The parts of a leap second: a second with more than its nanoseconds, the last of its minute.
pub open spec fn is_leap(seconds: i64, subsec_nanos: u32) -> bool {
    SECOND <= subsec_nanos < 2 * SECOND && seconds % 60 == 59
}

impl Timestamp {
    #[verifier::type_invariant]
    closed spec fn valid(self) -> bool {
        &&& in_calendar(self.nanos as int)
        &&& self.leap ==> self.nanos as int / SECOND as int % 60 == 59
    }

    /// The instant `subsec_nanos` after the second `seconds`, both since the epoch. There is none
    /// outside the calendar. A full second or more of nanoseconds stands for a leap second, which
    /// only the last second of a minute can have.
    pub fn from_parts(seconds: i64, subsec_nanos: u32) -> (res: Option<Timestamp>)
        ensures
            res is Some <==> FIRST_SECOND <= seconds <= LAST_SECOND && (subsec_nanos < SECOND
                || is_leap(seconds, subsec_nanos)),
            res matches Some(t) ==> t@ == instant_of(seconds, subsec_nanos) && in_calendar(
                t@.nanos,
            ),
    {
        if seconds < FIRST_SECOND || seconds > LAST_SECOND {
            return None;
        }
        if subsec_nanos < 1_000_000_000 {
            return Some(
                Timestamp { nanos: seconds as i128 * SECOND + subsec_nanos as i128, leap: false },
            );
        }
        if subsec_nanos < 2_000_000_000 && (seconds + 8_334_601_228_800) % 60 == 59 {
            let nanos: i128 = seconds as i128 * SECOND + (subsec_nanos - 1_000_000_000) as i128;
            assert(nanos as int / SECOND as int == seconds);
            return Some(Timestamp { nanos, leap: true });
        }
        None
    }

    /// The second that the instant lies in or repeats, and the nanoseconds since that second began.
    pub fn parts(&self) -> (res: (i64, u32))
        ensures
            res.0 == self@.second(),
            res.1 == self@.subsec_nanos(),
            instant_of(res.0, res.1) == self@,
            FIRST_SECOND <= res.0 <= LAST_SECOND,
            res.1 < SECOND || is_leap(res.0, res.1),
    {
        proof {
            use_type_invariant(self);
        }
        let offset: u128 = (self.nanos + 8_334_601_228_800_000_000_000) as u128;
        let seconds: i64 = (offset / 1_000_000_000) as i64 - 8_334_601_228_800;
        let nanos: u32 = (offset % 1_000_000_000) as u32;
        assert(seconds == self.nanos as int / SECOND as int);
        if self.leap {
            (seconds, nanos + 1_000_000_000)
        } else {
            (seconds, nanos)
        }
    }

    /// The instant `minutes` later, unless the calendar ends before it.
    pub fn plus_minutes(&self, minutes: u16) -> (res: Option<Timestamp>)
        ensures
            res is Some <==> in_calendar(self@.nanos + minutes * MINUTE),
            res matches Some(t) ==> t@ == self@.plus_minutes(minutes),
    {
        proof {
            use_type_invariant(self);
        }
        if minutes == 0 {
            return Some(*self);
        }
        let nanos: i128 = self.nanos + minutes as i128 * MINUTE;
        if nanos < 8_210_266_876_800_000_000_000 {
            Some(Timestamp { nanos, leap: false })
        } else {
            None
        }
    }

    /// The span from `earlier` to this instant, in Unix time.
    pub fn since(&self, earlier: &Timestamp) -> (res: Duration)
        ensures
            res@ == self@.nanos - earlier@.nanos,
    {
        proof {
            use_type_invariant(self);
            use_type_invariant(earlier);
        }
        Duration { nanos: self.nanos - earlier.nanos }
    }

    /// Whether this instant comes before `other` in Unix time.
    pub fn is_before(&self, other: &Timestamp) -> (res: bool)
        ensures
            res == (self@.nanos < other@.nanos),
    {
        self.nanos < other.nanos
    }

    /// The earlier of two instants in Unix time.
    pub fn earlier_of(self, other: Timestamp) -> (res: Timestamp)
        ensures
            res == if self@.nanos < other@.nanos { self } else { other },
    {
        if self.nanos < other.nanos {
            self
        } else {
            other
        }
    }

    /// The later of two instants in Unix time.
    pub fn later_of(self, other: Timestamp) -> (res: Timestamp)
        ensures
            res == if self@.nanos < other@.nanos { other } else { self },
    {
        if self.nanos < other.nanos {
            other
        } else {
            self
        }
    }

    /// Whether two instants are the same.
    pub fn same(&self, other: &Timestamp) -> (res: bool)
        ensures
            res == (self@ == other@),
    {
        self.nanos == other.nanos && self.leap == other.leap
    }

    /// The present instant, as the system clock has it.
    pub fn now() -> (res: Timestamp)
        ensures
            0 <= res@.nanos,
            in_calendar(res@.nanos),
            !res@.leap,
    {
        let (seconds, subsec_nanos) = utc_now();
        Timestamp { nanos: seconds as i128 * SECOND + subsec_nanos as i128, leap: false }
    }
}

/// Calls `chrono::Utc::now`: the second and the nanoseconds of the system clock. The reading does
/// not lie before the epoch (a clock that is set so far back makes the call panic), it lies within
/// chrono's calendar, and it never falls on a leap second; nothing else holds of every reading.
#[verifier::external_body]
fn utc_now() -> (res: (i64, u32))
    ensures
        0 <= res.0 <= LAST_SECOND,
        res.1 < SECOND,
{
    let now = chrono::Utc::now();
    (now.timestamp(), now.timestamp_subsec_nanos())
}

/// What `chrono::DateTime::<Utc>::to_rfc3339_opts` returns for the instant `nanos` after the
/// second `seconds` since the epoch, with whole seconds and `Z` for the offset.
pub uninterp spec fn rfc3339_to_the_second(seconds: i64, nanos: u32) -> Seq<char>;

/// Calls `chrono::DateTime::<Utc>::to_rfc3339_opts` for whole seconds and `Z`. Its result depends
/// on the instant alone; how a day falls into years and months is not restated. An instant outside
/// chrono's calendar is left out.
#[verifier::external_body]
fn to_rfc3339_opts(seconds: i64, nanos: u32) -> (res: String)
    requires
        FIRST_SECOND <= seconds <= LAST_SECOND,
        nanos < SECOND || is_leap(seconds, nanos),
    ensures
        res@ == rfc3339_to_the_second(seconds, nanos),
{
    chrono::DateTime::<chrono::Utc>::from_timestamp(seconds, nanos)
        .unwrap()
        .to_rfc3339_opts(chrono::SecondsFormat::Secs, true)
}

/// What `chrono::DateTime::<Utc>::to_rfc3339` returns for the instant `nanos` after the second
/// `seconds` since the epoch.
pub uninterp spec fn rfc3339_in_full(seconds: i64, nanos: u32) -> Seq<char>;

/// Calls `chrono::DateTime::<Utc>::to_rfc3339`. Its result depends on the instant alone; how a day
/// falls into years and months is not restated. An instant outside chrono's calendar is left out.
#[verifier::external_body]
fn to_rfc3339(seconds: i64, nanos: u32) -> (res: String)
    requires
        FIRST_SECOND <= seconds <= LAST_SECOND,
        nanos < SECOND || is_leap(seconds, nanos),
    ensures
        res@ == rfc3339_in_full(seconds, nanos),
{
    chrono::DateTime::<chrono::Utc>::from_timestamp(seconds, nanos).unwrap().to_rfc3339()
}

/// An instant as the user sees it: RFC 3339 in whole seconds.
pub open spec fn shown_instant(t: Instant) -> Seq<char> {
    rfc3339_to_the_second(t.second(), t.subsec_nanos())
}

/// An instant in RFC 3339 with all of its digits.
pub open spec fn full_instant(t: Instant) -> Seq<char> {
    rfc3339_in_full(t.second(), t.subsec_nanos())
}

/// An instant in RFC 3339, in whole seconds.
pub fn format_timestamp(timestamp: Timestamp) -> (res: String)
    ensures
        res@ == shown_instant(timestamp@),
{
    let (seconds, nanos) = timestamp.parts();
    to_rfc3339_opts(seconds, nanos)
}

/// An instant in RFC 3339, with all of its digits.
pub fn format_full_timestamp(timestamp: Timestamp) -> (res: String)
    ensures
        res@ == full_instant(timestamp@),
{
    let (seconds, nanos) = timestamp.parts();
    to_rfc3339(seconds, nanos)
}

/// A span as hours, minutes and seconds, each with at least two digits. A negative span is shown as
/// none.
pub open spec fn shown_span(n: int) -> Seq<char> {
    let seconds = seconds_of(n);
    text::two_digits(seconds / 3_600) + ":"@ + text::two_digits(seconds % 3_600 / 60) + ":"@ + text::two_digits(
        seconds % 60,
    )
}

/// A span as hours, minutes and seconds.
pub fn format_duration(duration: Duration) -> (res: String)
    ensures
        res@ == shown_span(duration@),
{
    let total_seconds: u128 = duration.whole_seconds();
    let mut res = text::two_digit_text(total_seconds / 3_600);
    res.append(":");
    res.append(text::two_digit_text(total_seconds % 3_600 / 60).as_str());
    res.append(":");
    res.append(text::two_digit_text(total_seconds % 60).as_str());
    res
}

/// The whole seconds of a span are as many as fit into it; a negative span has none.
pub proof fn seconds_fit_into_the_span(n: int)
    ensures
        n >= 0 ==> seconds_of(n) * 1_000_000_000 <= n < (seconds_of(n) + 1) * 1_000_000_000,
        n < 0 ==> seconds_of(n) == 0,
{
}

/// A span is shown as hours, minutes and seconds that make up its whole seconds, with less than
/// sixty minutes and less than sixty seconds.
pub proof fn a_span_is_shown_by_its_clock(n: int)
    ensures
        exists|hours: nat, minutes: nat, seconds: nat|
            hours * 3_600 + minutes * 60 + seconds == seconds_of(n) && minutes < 60 && seconds < 60
                && shown_span(n) == #[trigger] text::two_digits(hours) + ":"@
                + #[trigger] text::two_digits(minutes) + ":"@ + #[trigger] text::two_digits(seconds),
{
    let total = seconds_of(n);
    let (hours, minutes, seconds) = (total / 3_600, total % 3_600 / 60, total % 60);
    assert(hours * 3_600 + minutes * 60 + seconds == total);
    assert(shown_span(n) == text::two_digits(hours) + ":"@ + text::two_digits(minutes) + ":"@
        + text::two_digits(seconds));
}

/// Minutes that pass move an instant by sixty seconds each, and two spans of minutes that pass one
/// after the other by their sum.
pub proof fn minutes_add_up(t: Instant, first: u16, second: u16)
    requires
        first + second <= 65_535,
    ensures
        t.plus_minutes(first).nanos == t.nanos + first * 60_000_000_000,
        t.plus_minutes(first).plus_minutes(second) == t.plus_minutes((first + second) as u16),
        t.plus_minutes(0) == t,
        first > 0 ==> !t.plus_minutes(first).leap,
{
}

/// The parts of an instant are its second and the nanoseconds since then, and they are found again
/// in it and shown of it. In Unix time it lies as many nanoseconds after its second, unless it is in
/// a leap second, which repeats the second.
pub proof fn an_instant_is_its_parts(seconds: i64, nanos: u32)
    requires
        FIRST_SECOND <= seconds <= LAST_SECOND,
        nanos < 2_000_000_000,
    ensures
        instant_of(seconds, nanos).second() == seconds,
        instant_of(seconds, nanos).subsec_nanos() == nanos,
        shown_instant(instant_of(seconds, nanos)) == rfc3339_to_the_second(seconds, nanos),
        full_instant(instant_of(seconds, nanos)) == rfc3339_in_full(seconds, nanos),
        nanos < 1_000_000_000 ==> instant_of(seconds, nanos) == (Instant {
            nanos: seconds * 1_000_000_000 + nanos,
            leap: false,
        }),
        nanos >= 1_000_000_000 ==> instant_of(seconds, nanos) == (Instant {
            nanos: seconds * 1_000_000_000 + nanos - 1_000_000_000,
            leap: true,
        }),
{
}

} // verus!
