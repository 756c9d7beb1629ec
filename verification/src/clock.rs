//! Moments in UTC and the texts that stand for them.

use vstd::prelude::*;

verus! {

/// The seconds of a day.
pub const DAY: i64 = 86_400;

/// The first second for which the calendar has a date.
pub const FIRST_SECOND: i64 = -8_334_601_228_800;

/// The last second for which the calendar has a date.
pub const LAST_SECOND: i64 = 8_210_266_876_799;

/// A moment: whole seconds since the Unix epoch, and nanoseconds on top.
#[derive(Clone, Copy, Debug, PartialEq, Eq, Structural)]
pub struct Moment {
    pub secs: i64,
    pub nanos: u32,
}

impl Moment {
    /// Whether the calendar has a date and time for this moment.
    pub open spec fn representable(self) -> bool {
        &&& FIRST_SECOND <= self.secs <= LAST_SECOND
        &&& self.nanos < 1_000_000_000
    }

    /// The first second of this moment's day.
    pub open spec fn day_start(self) -> int {
        self.secs - self.secs as int % 86_400
    }

    /// Whether the calendar has a date and time for this moment.
    pub fn is_representable(&self) -> (r: bool)
        ensures
            r == self.representable(),
    {
        FIRST_SECOND <= self.secs && self.secs <= LAST_SECOND && self.nanos < 1_000_000_000
    }

    /// The milliseconds since the Unix epoch.
    pub fn millis(&self) -> (r: i64)
        requires
            self.representable(),
        ensures
            r == self.secs * 1000 + self.nanos as int / 1_000_000,
    {
        self.secs * 1000 + (self.nanos / 1_000_000) as i64
    }

    /// The moment `days` days later, where the calendar has one.
    pub fn checked_plus_days(&self, days: i64) -> (r: Option<Moment>)
        ensures
            r is Some <==> (self.nanos < 1_000_000_000 && FIRST_SECOND <= self.secs + days * 86_400
                <= LAST_SECOND),
            r is Some ==> r->0.secs == self.secs + days * 86_400 && r->0.nanos == self.nanos,
    {
        let secs: i128 = self.secs as i128 + days as i128 * 86_400;
        if FIRST_SECOND as i128 <= secs && secs <= LAST_SECOND as i128 && self.nanos
            < 1_000_000_000 {
            Some(Moment { secs: secs as i64, nanos: self.nanos })
        } else {
            None
        }
    }

    /// Midnight at the start of this moment's day.
    pub fn midnight(&self) -> (r: Moment)
        requires
            self.representable(),
        ensures
            r.secs == self.day_start(),
            r.nanos == 0,
            r.representable(),
    {
        let rest: i64 = self.secs % DAY;
        let into_day: i64 = if rest < 0 {
            rest + DAY
        } else {
            rest
        };
        assert(into_day == self.secs as int % 86_400) by (nonlinear_arith)
            requires
                rest == self.secs as int % 86_400 || self.secs < 0,
                self.secs >= 0 ==> into_day == rest && rest == self.secs as int % 86_400,
                self.secs < 0 ==> rest == -((-(self.secs as int)) % 86_400),
                into_day == if rest < 0 {
                    rest + 86_400
                } else {
                    rest as int
                },
        ;
        Moment { secs: self.secs - into_day, nanos: 0 }
    }
}

/// What `DateTime::to_rfc3339` makes of a UTC moment.
pub uninterp spec fn rfc3339_text(secs: int, nanos: int) -> Seq<char>;

/// What `DateTime::format` makes of a UTC moment with the pattern `%Y-%m-%d`.
pub uninterp spec fn date_text(secs: int, nanos: int) -> Seq<char>;

/// Calls `chrono::Utc::now`, which reads the system clock. The clock counts from the Unix epoch,
/// and knows no leap seconds.
#[verifier::external_body]
pub(crate) fn utc_now() -> (now: Moment)
    ensures
        now.representable(),
        now.secs >= 0,
{
    let now = chrono::Utc::now();
    Moment { secs: now.timestamp(), nanos: now.timestamp_subsec_nanos() }
}

/// Calls `chrono::DateTime::to_rfc3339` on the moment; the moment alone decides the text.
#[verifier::external_body]
pub(crate) fn rfc3339(moment: Moment) -> (text: String)
    requires
        moment.representable(),
    ensures
        text@ == rfc3339_text(moment.secs as int, moment.nanos as int),
{
    chrono::DateTime::<chrono::Utc>::from_timestamp(moment.secs, moment.nanos).expect("a moment of the calendar").to_rfc3339()
}

/// Calls `chrono::DateTime::format` on the moment with the pattern `%Y-%m-%d`; the moment alone
/// decides the text.
#[verifier::external_body]
pub(crate) fn date(moment: Moment) -> (text: String)
    requires
        moment.representable(),
    ensures
        text@ == date_text(moment.secs as int, moment.nanos as int),
{
    chrono::DateTime::<chrono::Utc>::from_timestamp(moment.secs, moment.nanos).expect("a moment of the calendar").format("%Y-%m-%d").to_string()
}

/// The present moment, as the system clock has it.
pub fn now() -> (r: Moment)
    ensures
        r.representable(),
        r.secs >= 0,
{
    utc_now()
}

/// The RFC 3339 text of a moment, where the calendar has one.
pub fn timestamp(moment: Moment) -> (r: Option<String>)
    ensures
        r is Some <==> moment.representable(),
        r is Some ==> r->0@ == rfc3339_text(moment.secs as int, moment.nanos as int),
{
    if moment.is_representable() {
        Some(rfc3339(moment))
    } else {
        None
    }
}

/// Midnight is the last one that is not later than the moment.
pub proof fn midnight_starts_the_day(moment: Moment, r: Moment)
    requires
        moment.representable(),
        call_ensures(Moment::midnight, (&moment,), r),
    ensures
        r.secs <= moment.secs < r.secs + 24 * 60 * 60,
        r.secs as int % 86_400 == 0,
        r.nanos == 0,
{
    let day: int = 86_400;
    let s = moment.secs as int;
    assert(0 <= s % day < day);
    assert((s - s % day) % day == 0) by (nonlinear_arith)
        requires
            day == 86_400,
    ;
}

/// Days are added and taken away exactly; the time of day stays.
pub proof fn days_are_added_exactly(moment: Moment, days: i64, r: Option<Moment>)
    requires
        moment.representable(),
        call_ensures(Moment::checked_plus_days, (&moment, days), r),
    ensures
        r matches Some(later) ==> later.secs - moment.secs == days * (24 * 60 * 60) && later.nanos
            == moment.nanos && later.representable(),
        r is None ==> moment.secs + days * 86_400 < -8_334_601_228_800 || moment.secs + days
            * 86_400 > 8_210_266_876_799,
{
}

/// Milliseconds count up with the moment: a second is a thousand of them.
pub proof fn milliseconds_count_the_time(
    moment: Moment,
    later: Moment,
    r: i64,
    s: i64,
    seconds: int,
)
    requires
        moment.representable(),
        later.representable(),
        later.nanos == moment.nanos,
        later.secs == moment.secs + seconds,
        call_ensures(Moment::millis, (&moment,), r),
        call_ensures(Moment::millis, (&later,), s),
    ensures
        s - r == seconds * 1000,
        moment.secs == 0 && moment.nanos < 1_000_000 ==> r == 0,
        moment.secs * 1000 <= r < moment.secs * 1000 + 1000,
        (r - moment.secs * 1000) * 1_000_000 <= moment.nanos < (r - moment.secs * 1000 + 1)
            * 1_000_000,
{
    let n = moment.nanos as int;
    assert(n / 1_000_000 * 1_000_000 <= n < (n / 1_000_000 + 1) * 1_000_000);
}

/// A moment has a text exactly where the calendar has a date for it.
pub proof fn moments_of_the_calendar_have_texts(moment: Moment, r: Option<String>)
    requires
        call_ensures(timestamp, (moment,), r),
    ensures
        r is Some <==> -8_334_601_228_800 <= moment.secs <= 8_210_266_876_799 && moment.nanos
            < 1_000_000_000,
        r is Some ==> r->0@ == rfc3339_text(moment.secs as int, moment.nanos as int),
{
}

/// The calendar has a date for a moment exactly within its bounds.
pub proof fn the_calendar_has_bounds(moment: Moment, r: bool)
    requires
        call_ensures(Moment::is_representable, (&moment,), r),
    ensures
        r <==> -8_334_601_228_800 <= moment.secs <= 8_210_266_876_799 && moment.nanos
            < 1_000_000_000,
{
}

} // verus!
