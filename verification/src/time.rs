//! Instants in time.

use vstd::prelude::*;

use crate::text;

verus! {

/// The first second that an instant can have, at the start of the year -262143.
pub const MIN_SECONDS: i64 = -8_334_601_228_800;

/// The last second that an instant can have, at the end of the year 262142.
pub const MAX_SECONDS: i64 = 8_210_266_876_799;

/// Epoch values below this, the start of the year 2020 in milliseconds, are taken for seconds.
pub const MIN_EPOCH_MILLIS: i64 = 1_577_836_800_000;

/// An instant: seconds since the start of 1970 and the nanoseconds since then. Inside a leap
/// second, which comes at the end of a minute, the nanoseconds go on past one second.
#[derive(Debug, Clone, Copy, PartialEq, Eq)]
pub struct Timestamp {
    seconds: i64,
    nanos: u32,
}

/// An instant as two numbers.
pub struct TimeView {
    pub seconds: int,
    pub nanos: int,
}

/// The numbers are those of an instant.
pub open spec fn is_time(seconds: int, nanos: int) -> bool {
    &&& MIN_SECONDS <= seconds <= MAX_SECONDS
    &&& 0 <= nanos < 2_000_000_000
    &&& nanos >= 1_000_000_000 ==> seconds % 60 == 59
}

impl View for Timestamp {
    type V = TimeView;

    closed spec fn view(&self) -> TimeView {
        TimeView { seconds: self.seconds as int, nanos: self.nanos as int }
    }
}

/// What an optional instant is.
pub open spec fn opt_time(t: Option<Timestamp>) -> Option<TimeView> {
    match t {
        Some(t) => Some(t@),
        None => None,
    }
}

/// One instant comes after another.
pub open spec fn is_later(a: TimeView, b: TimeView) -> bool {
    a.seconds > b.seconds || (a.seconds == b.seconds && a.nanos > b.nanos)
}

/// A number of hours or days in seconds; a negative number counts as none.
pub open spec fn span(n: i64, unit: int) -> int {
    if n > 0 {
        n * unit
    } else {
        0
    }
}

/// An instant a number of seconds before another. Back from inside a leap second, it counts as
/// the second after it.
pub open spec fn earlier(now: TimeView, seconds: int) -> TimeView {
    if seconds > 0 && now.nanos >= 1_000_000_000 {
        TimeView { seconds: now.seconds + 1 - seconds, nanos: now.nanos - 1_000_000_000 }
    } else {
        TimeView { seconds: now.seconds - seconds, nanos: now.nanos }
    }
}

/// The whole milliseconds up to an instant.
pub open spec fn millis_of(t: TimeView) -> int {
    t.seconds * 1000 + t.nanos / 1_000_000
}

/// The instant at a number of milliseconds.
pub open spec fn time_at_millis(millis: int) -> Option<TimeView> {
    if MIN_SECONDS <= millis / 1000 <= MAX_SECONDS {
        Some(TimeView { seconds: millis / 1000, nanos: (millis % 1000) * 1_000_000 })
    } else {
        None
    }
}

/// An integer brought into the range of an `i64`.
pub open spec fn saturated(n: int) -> int {
    if n < i64::MIN {
        i64::MIN as int
    } else if n > i64::MAX {
        i64::MAX as int
    } else {
        n
    }
}

/// The milliseconds that a stored epoch value means.
pub open spec fn stored_millis(value: int) -> int {
    if value < MIN_EPOCH_MILLIS {
        saturated(value * 1000)
    } else {
        value
    }
}

/// The instant that a stored epoch value means.
pub open spec fn stored_time(value: int) -> Option<TimeView> {
    time_at_millis(stored_millis(value))
}

/// The nanoseconds up to an instant, where an `i64` holds them on the way.
pub open spec fn nanos_of(t: TimeView) -> Option<int> {
    let (whole, part) = if t.seconds < 0 {
        ((t.seconds + 1) * 1_000_000_000, t.nanos - 1_000_000_000)
    } else {
        (t.seconds * 1_000_000_000, t.nanos)
    };
    if saturated(whole) == whole && saturated(whole + part) == whole + part {
        Some(whole + part)
    } else {
        None
    }
}

/// The nanoseconds up to an instant, or the nearest that an `i64` holds of the whole
/// microseconds.
pub open spec fn stamp_nanos(t: TimeView) -> int {
    match nanos_of(t) {
        Some(n) => n,
        None => saturated((t.seconds * 1_000_000 + t.nanos / 1000) * 1000),
    }
}

/// The text that `chrono` writes for an instant, in the form of RFC 3339 with a `Z`.
pub uninterp spec fn rfc3339_text(seconds: int, nanos: int) -> Seq<char>;

/// The instant that `chrono` reads in a text in the form of RFC 3339.
pub uninterp spec fn parsed_rfc3339(text: Seq<char>) -> Option<(int, int)>;

/// The numbers are those of an instant whose year has four digits.
pub open spec fn in_common_years(seconds: int, nanos: int) -> bool {
    is_time(seconds, nanos) && -62_167_219_200 <= seconds <= 253_402_300_799
}

/// Wraps `DateTime::<Utc>::from_timestamp_millis`, which gives the seconds and the rest of a
/// number of milliseconds within the range of its calendar.
#[verifier::external_body]
fn chrono_from_millis(millis: i64) -> (r: Option<(i64, u32)>)
    ensures
        match r {
            Some((seconds, nanos)) => time_at_millis(millis as int) == Some(
                TimeView { seconds: seconds as int, nanos: nanos as int },
            ),
            None => time_at_millis(millis as int) is None,
        },
{
    chrono::DateTime::<chrono::Utc>::from_timestamp_millis(millis).map(
        |t| (t.timestamp(), t.timestamp_subsec_nanos()),
    )
}

/// Wraps `DateTime::<Utc>::to_rfc3339_opts` with automatic digits and a `Z`, on the instant that
/// `DateTime::from_timestamp` makes of numbers that are in range. The text depends on the instant
/// alone, and reading it gives the instant back in the years of four digits.
#[verifier::external_body]
fn chrono_text(seconds: i64, nanos: u32) -> (r: Option<String>)
    requires
        is_time(seconds as int, nanos as int),
    ensures
        r is Some && r->0@ == rfc3339_text(seconds as int, nanos as int),
        in_common_years(seconds as int, nanos as int) ==> parsed_rfc3339(r->0@) == Some(
            (seconds as int, nanos as int),
        ),
{
    chrono::DateTime::<chrono::Utc>::from_timestamp(seconds, nanos).map(
        |t| t.to_rfc3339_opts(chrono::SecondsFormat::AutoSi, true),
    )
}

/// Wraps the parsing of a `DateTime<FixedOffset>`, which depends on the text alone, and takes
/// the instant that it is.
#[verifier::external_body]
fn chrono_parse(value: &str) -> (r: Option<(i64, u32)>)
    ensures
        match r {
            Some((seconds, nanos)) => parsed_rfc3339(value@) == Some(
                (seconds as int, nanos as int),
            ),
            None => parsed_rfc3339(value@) is None,
        },
{
    value.parse::<chrono::DateTime<chrono::FixedOffset>>().ok().map(
        |t| (t.timestamp(), t.timestamp_subsec_nanos()),
    )
}

impl Timestamp {
    #[verifier::type_invariant]
    spec fn inv(self) -> bool {
        is_time(self.seconds as int, self.nanos as int)
    }

    /// The instant with the given seconds and nanoseconds.
    pub fn from_parts(seconds: i64, nanos: u32) -> (r: Option<Timestamp>)
        ensures
            opt_time(r) == if is_time(seconds as int, nanos as int) {
                Some(TimeView { seconds: seconds as int, nanos: nanos as int })
            } else {
                None
            },
    {
        if seconds < MIN_SECONDS || MAX_SECONDS < seconds || nanos >= 2_000_000_000 {
            return None;
        }
        let since_start: u64 = (seconds - MIN_SECONDS) as u64;
        if nanos >= 1_000_000_000 && since_start % 60 != 59 {
            return None;
        }
        Some(Timestamp { seconds, nanos })
    }

    /// The whole seconds up to the instant.
    pub fn seconds(&self) -> (r: i64)
        ensures
            r == self@.seconds,
            MIN_SECONDS <= r <= MAX_SECONDS,
    {
        proof {
            use_type_invariant(self);
        }
        self.seconds
    }

    /// The nanoseconds since the last whole second.
    pub fn nanos(&self) -> (r: u32)
        ensures
            r == self@.nanos,
            r < 2_000_000_000,
    {
        proof {
            use_type_invariant(self);
        }
        self.nanos
    }

    /// Whether the instant comes after another.
    pub fn is_after(&self, other: &Timestamp) -> (r: bool)
        ensures
            r == is_later(self@, other@),
    {
        self.seconds > other.seconds || (self.seconds == other.seconds && self.nanos
            > other.nanos)
    }

    /// The instant a number of hours or days before, given the seconds of one. There is none where
    /// it would lie outside the range of instants.
    pub(crate) fn before(&self, n: i64, unit: i64) -> (r: Option<Timestamp>)
        requires
            0 < unit <= 86_400,
        ensures
            opt_time(r) == if earlier(self@, span(n, unit as int)).seconds < MIN_SECONDS {
                None
            } else {
                Some(earlier(self@, span(n, unit as int)))
            },
    {
        proof {
            use_type_invariant(self);
        }
        if n <= 0 {
            return Some(*self);
        }
        assert(0 < n * unit <= i64::MAX * 86_400) by (nonlinear_arith)
            requires
                0 < n <= i64::MAX,
                0 < unit <= 86_400,
        ;
        let (second, nanos): (i64, u32) = if self.nanos >= 1_000_000_000 {
            (self.seconds + 1, self.nanos - 1_000_000_000)
        } else {
            (self.seconds, self.nanos)
        };
        let seconds: i128 = second as i128 - n as i128 * unit as i128;
        if seconds < MIN_SECONDS as i128 {
            return None;
        }
        Timestamp::from_parts(seconds as i64, nanos)
    }

    /// The text of the instant in the form of RFC 3339. An instant of the years of four digits
    /// comes back from it.
    pub fn text(&self) -> (r: String)
        ensures
            r@ == rfc3339_text(self@.seconds, self@.nanos),
            in_common_years(self@.seconds, self@.nanos) ==> time_in(r@) == Some(self@),
    {
        proof {
            use_type_invariant(self);
        }
        chrono_text(self.seconds, self.nanos).unwrap()
    }

    /// The instant that a text in the form of RFC 3339 names.
    pub fn parse(value: &str) -> (r: Option<Timestamp>)
        ensures
            opt_time(r) == time_in(value@),
    {
        match chrono_parse(value) {
            Some((seconds, nanos)) => Timestamp::from_parts(seconds, nanos),
            None => None,
        }
    }
}

/// The instant that a text names.
pub open spec fn time_in(value: Seq<char>) -> Option<TimeView> {
    match parsed_rfc3339(value) {
        Some((seconds, nanos)) if is_time(seconds, nanos) => Some(TimeView { seconds, nanos }),
        _ => None,
    }
}

/// The whole milliseconds up to an instant.
pub fn datetime_to_epoch_millis(t: Timestamp) -> (r: i64)
    ensures
        r == millis_of(t@),
{
    proof {
        use_type_invariant(&t);
    }
    t.seconds * 1000 + (t.nanos / 1_000_000) as i64
}

/// What is said of an epoch value that means no instant.
pub open spec fn epoch_error(value: int) -> Seq<char> {
    "invalid unix timestamp millis: "@ + text::decimal(value)
}

/// The instant that a stored epoch value means: milliseconds, or seconds where the value would
/// otherwise lie before the year 2020.
pub fn epoch_millis_to_datetime(value: i64) -> (r: Result<Timestamp, String>)
    ensures
        match r {
            Ok(t) => stored_time(value as int) == Some(t@),
            Err(message) => stored_time(value as int) is None && message@ == epoch_error(
                value as int,
            ),
        },
{
    let millis: i64 = if value < MIN_EPOCH_MILLIS {
        if value > i64::MAX / 1000 {
            i64::MAX
        } else if value < i64::MIN / 1000 {
            i64::MIN
        } else {
            value * 1000
        }
    } else {
        value
    };
    let found = match chrono_from_millis(millis) {
        Some((seconds, nanos)) => Timestamp::from_parts(seconds, nanos),
        None => None,
    };
    match found {
        Some(t) => Ok(t),
        None => Err(
            text::concat2("invalid unix timestamp millis: ", text::i64_text(value).as_str()),
        ),
    }
}

/// The nanoseconds up to an instant, or the nearest that an `i64` holds of the whole
/// microseconds.
pub fn timestamp_nanos(t: Timestamp) -> (r: i64)
    ensures
        r == stamp_nanos(t@),
{
    proof {
        use_type_invariant(&t);
    }
    let part: i64 = t.nanos as i64;
    let (whole, rest) = if t.seconds < 0 {
        ((t.seconds + 1).checked_mul(1_000_000_000), part - 1_000_000_000)
    } else {
        (t.seconds.checked_mul(1_000_000_000), part)
    };
    let exact: Option<i64> = match whole {
        Some(whole) => whole.checked_add(rest),
        None => None,
    };
    match exact {
        Some(n) => n,
        None => {
            let micros: i64 = t.seconds * 1_000_000 + (t.nanos / 1000) as i64;
            match micros.checked_mul(1000) {
                Some(n) => n,
                None => if micros < 0 {
                    i64::MIN
                } else {
                    i64::MAX
                },
            }
        },
    }
}

// ---------------------------------------------------------------------------------------------
// Laws
// ---------------------------------------------------------------------------------------------

/// An instant of whole milliseconds from the year 2020 on comes back from the milliseconds that
/// are stored for it.
pub proof fn stored_instants_come_back(t: TimeView)
    requires
        is_time(t.seconds, t.nanos),
        t.nanos < 1_000_000_000,
        t.nanos % 1_000_000 == 0,
        millis_of(t) >= MIN_EPOCH_MILLIS,
    ensures
        stored_time(millis_of(t)) == Some(t),
{
    let m = millis_of(t);
    assert(0 <= t.nanos / 1_000_000 < 1000);
    assert(m / 1000 == t.seconds);
    assert(m % 1000 == t.nanos / 1_000_000);
}

/// Values below the start of the year 2020 in milliseconds are seconds: the same instant is
/// meant by a number of seconds and by a thousand times as many milliseconds.
pub proof fn seconds_and_milliseconds_agree(seconds: int)
    requires
        1_577_836_800 <= seconds < MIN_EPOCH_MILLIS,
    ensures
        stored_time(seconds) == stored_time(seconds * 1000),
{
}

/// No instant comes both before and after another, and of two different instants one comes
/// after the other.
pub proof fn instants_are_ordered(a: TimeView, b: TimeView)
    ensures
        !(is_later(a, b) && is_later(b, a)),
        a != b ==> is_later(a, b) || is_later(b, a),
{
}

/// The nanoseconds from the start of 1970 to an instant.
pub open spec fn total_nanos(t: TimeView) -> int {
    t.seconds * 1_000_000_000 + t.nanos
}

/// The range of instants, to the second, with leap seconds only at the end of a minute.
pub proof fn instants_are_in_range(seconds: int, nanos: int)
    ensures
        is_time(seconds, nanos) ==> -8_334_601_228_800 <= seconds <= 8_210_266_876_799,
        is_time(seconds, nanos) ==> 0 <= nanos < 2_000_000_000,
        -8_334_601_228_800 <= seconds <= 8_210_266_876_799 && 0 <= nanos < 1_000_000_000
            ==> is_time(seconds, nanos),
        -8_334_601_228_800 <= seconds <= 8_210_266_876_799 && 1_000_000_000 <= nanos
            < 2_000_000_000 ==> (is_time(seconds, nanos) <==> seconds % 60 == 59),
{
}

/// An instant so many seconds before another is exactly so many seconds before it, and comes
/// before it; going back twice is going back once by both.
pub proof fn time_goes_back_exactly(now: TimeView, a: int, b: int)
    requires
        is_time(now.seconds, now.nanos),
        a >= 0,
        b >= 0,
    ensures
        total_nanos(earlier(now, a)) == total_nanos(now) - a * 1_000_000_000,
        earlier(earlier(now, a), b) == earlier(now, a + b),
        0 <= earlier(now, a).nanos < 2_000_000_000,
        a > 0 ==> earlier(now, a).nanos < 1_000_000_000 && is_later(now, earlier(now, a)),
        earlier(now, 0) == now,
{
}

/// So many hours or days are so many times the seconds of one; less than none is none.
pub proof fn spans_are_counted(n: i64, unit: int)
    ensures
        n >= 0 ==> span(n, unit) == n * unit,
        n <= 0 ==> span(n, unit) == 0,
{
    if n == 0 {
        assert(0 * unit == 0);
    }
}

/// Without leap seconds, an instant comes after another where more nanoseconds lie before it.
pub proof fn later_instants_come_later(a: TimeView, b: TimeView)
    requires
        is_time(a.seconds, a.nanos),
        is_time(b.seconds, b.nanos),
    ensures
        a.nanos < 1_000_000_000 && b.nanos < 1_000_000_000 ==> (is_later(a, b) <==> total_nanos(a)
            > total_nanos(b)),
        a.seconds > b.seconds ==> is_later(a, b),
        is_later(a, b) ==> a.seconds >= b.seconds,
{
}

/// The milliseconds of an instant are the most that lie before it.
pub proof fn milliseconds_are_whole(t: TimeView)
    requires
        is_time(t.seconds, t.nanos),
    ensures
        millis_of(t) * 1_000_000 <= total_nanos(t) < (millis_of(t) + 1) * 1_000_000,
{
}

/// A stored value from the start of the year 2020 on is a number of milliseconds, and a smaller
/// one a number of seconds; the instant is at exactly so many, where it is in range.
pub proof fn stored_values_are_instants(value: int)
    requires
        i64::MIN <= value <= i64::MAX,
    ensures
        ({
            let found = stored_time(value);
            &&& value >= 1_577_836_800_000 ==> (found is Some <==> value / 1000
                <= 8_210_266_876_799)
            &&& value < 1_577_836_800_000 ==> (found is Some <==> -8_334_601_228_800 <= value)
            &&& found is Some ==> 0 <= found->0.nanos < 1_000_000_000
            &&& found is Some && value >= 1_577_836_800_000 ==> total_nanos(found->0) == value
                * 1_000_000
            &&& found is Some && value < 1_577_836_800_000 ==> total_nanos(found->0) == value
                * 1_000_000_000
        }),
{
    let m = stored_millis(value);
    assert(m == 1000 * (m / 1000) + m % 1000);
    if value < 1_577_836_800_000 {
        if saturated(value * 1000) == value * 1000 {
            assert((value * 1000) / 1000 == value);
        }
    }
}

/// The nanoseconds of an instant are exact where an `i64` holds them, and otherwise within a
/// microsecond of the nearest that it holds.
pub proof fn nanoseconds_are_exact_in_range(t: TimeView)
    requires
        is_time(t.seconds, t.nanos),
        t.nanos < 1_000_000_000,
    ensures
        i64::MIN <= total_nanos(t) <= i64::MAX ==> stamp_nanos(t) == total_nanos(t),
        total_nanos(t) > i64::MAX && total_nanos(t) / 1000 * 1000 <= i64::MAX ==> stamp_nanos(t)
            == total_nanos(t) / 1000 * 1000,
        total_nanos(t) / 1000 * 1000 > i64::MAX ==> stamp_nanos(t) == i64::MAX,
        total_nanos(t) < i64::MIN ==> stamp_nanos(t) == i64::MIN,
{
}

/// What is said of a value that means no instant names the value, and an instant is only read
/// where the text names one in range.
pub proof fn bad_instants_are_told(value: int, written: Seq<char>)
    ensures
        epoch_error(value) == "invalid unix timestamp millis: "@ + text::decimal(value),
        match parsed_rfc3339(written) {
            Some((seconds, nanos)) => if is_time(seconds, nanos) {
                time_in(written) is Some && time_in(written)->0.seconds == seconds && time_in(
                    written,
                )->0.nanos == nanos
            } else {
                time_in(written) is None
            },
            None => time_in(written) is None,
        },
{
}

} // verus!
