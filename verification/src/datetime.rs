//! Worklog timestamps and date ranges.
//!
//! Calendar dates are held as chrono's day numbers (`Datelike::num_days_from_ce`:
//! 0001-01-01 is day 1) and times of day as seconds since midnight plus
//! nanoseconds. Parsing, time-zone resolution and rendering are chrono's and
//! chrono-tz's work, reached through the trusted items at the end of this file.
use vstd::prelude::*;

use crate::text::{chars_of, push_char, push_decimal, push_str, trim, trim_str, views};

verus! {

/// Day number of `NaiveDate::MIN` (January 1 of year -262143).
pub const MIN_DAY: i32 = -95746129;

/// Day number of `NaiveDate::MAX` (December 31 of year 262142).
pub const MAX_DAY: i32 = 95745399;

/// A day number that chrono can represent.
pub open spec fn valid_day(n: int) -> bool {
    MIN_DAY <= n <= MAX_DAY
}

/// A time of day as chrono's `NaiveTime` holds it: seconds since midnight and
/// nanoseconds, where nanoseconds of one second or more mark a leap second.
pub open spec fn valid_clock(secs: int, nanos: int) -> bool {
    &&& 0 <= secs < 86400
    &&& 0 <= nanos < 2_000_000_000
    &&& nanos >= 1_000_000_000 ==> secs % 60 == 59
}

/// A calendar date.
pub struct CalendarDate {
    day: i32,
}

impl CalendarDate {
    #[verifier::type_invariant]
    spec fn inv(self) -> bool {
        valid_day(self.day as int)
    }

    /// The date's day number.
    pub closed spec fn number(self) -> int {
        self.day as int
    }

    /// The date's day number (0001-01-01 is day 1).
    pub fn day_number(&self) -> (r: i32)
        ensures
            r == self.number(),
            valid_day(r as int),
    {
        proof {
            use_type_invariant(self);
        }
        self.day
    }

    /// The date with day number `n`, when chrono can represent it.
    pub fn from_day_number(n: i32) -> (r: Option<CalendarDate>)
        ensures
            r is Some <==> valid_day(n as int),
            r matches Some(d) ==> d.number() == n,
    {
        if MIN_DAY <= n && n <= MAX_DAY {
            Some(CalendarDate { day: n })
        } else {
            None
        }
    }

    /// The date written as `YYYY-MM-DD`. For a year of four digits the text
    /// reads back as the same date.
    pub fn to_iso_string(&self) -> (r: String)
        ensures
            r@ == iso_date(self.number()),
            four_digit_year_day(self.number()) ==> ymd_shape(r@) && ymd_date(r@) == Some(
                self.number() as i32,
            ),
    {
        proof {
            use_type_invariant(self);
        }
        iso_date_text(self.day)
    }
}

/// A time of day.
pub struct ClockTime {
    secs: u32,
    nanos: u32,
}

impl ClockTime {
    #[verifier::type_invariant]
    spec fn inv(self) -> bool {
        valid_clock(self.secs as int, self.nanos as int)
    }

    /// Seconds since midnight.
    pub closed spec fn seconds(self) -> int {
        self.secs as int
    }

    /// Nanoseconds within the second.
    pub closed spec fn nanoseconds(self) -> int {
        self.nanos as int
    }

    /// Seconds since midnight.
    pub fn seconds_from_midnight(&self) -> (r: u32)
        ensures
            r == self.seconds(),
    {
        self.secs
    }

    /// Nanoseconds within the second (one second or more during a leap second).
    pub fn nanosecond(&self) -> (r: u32)
        ensures
            r == self.nanoseconds(),
    {
        self.nanos
    }
}

/// Why a worklog date, time or range was refused.
pub enum DateTimeError {
    /// The date is not `YYYY-MM-DD`.
    InvalidDate { value: String },
    /// The start time is neither `HH:MM` nor `HH:MM:SS`.
    InvalidStartTime { value: String },
    /// The time zone is not an IANA time-zone name.
    InvalidTimezone { value: String },
    /// The end of a range comes before its start.
    InvalidRange { from: String, to: String },
    /// The local wall-clock time does not exist on that day (a DST gap).
    UnresolvedLocalTime { date: String, time: String },
    /// The wall-clock time does not exist on that day in the given zone.
    UnresolvedZonedTime { zone: String, date: String, time: String },
}

/// The text of a date-time error.
pub open spec fn error_text(e: DateTimeError) -> Seq<char> {
    match e {
        DateTimeError::InvalidDate { value } => "Invalid date '"@ + value@
            + "'. Expected format: YYYY-MM-DD"@,
        DateTimeError::InvalidStartTime { value } => "Invalid start time '"@ + value@
            + "'. Expected format: HH:MM or HH:MM:SS"@,
        DateTimeError::InvalidTimezone { value } => "Invalid Jira timezone '"@ + value@
            + "'. Expected an IANA timezone like Asia/Jakarta"@,
        DateTimeError::InvalidRange { from, to } => "Invalid range: end date '"@ + to@
            + "' is before start date '"@ + from@ + "'"@,
        DateTimeError::UnresolvedLocalTime { date, time } =>
            "Could not resolve local time for started timestamp: "@ + date@ + " "@ + time@,
        DateTimeError::UnresolvedZonedTime { zone, date, time } =>
            "Could not resolve time for started timestamp in timezone "@ + zone@ + ": "@
                + date@ + " "@ + time@,
    }
}

impl DateTimeError {
    /// The error's message.
    pub fn message(&self) -> (r: String)
        ensures
            r@ == error_text(*self),
    {
        match self {
            DateTimeError::InvalidDate { value } => {
                let mut s = String::from_str("Invalid date '");
                push_str(&mut s, value.as_str());
                push_str(&mut s, "'. Expected format: YYYY-MM-DD");
                s
            },
            DateTimeError::InvalidStartTime { value } => {
                let mut s = String::from_str("Invalid start time '");
                push_str(&mut s, value.as_str());
                push_str(&mut s, "'. Expected format: HH:MM or HH:MM:SS");
                s
            },
            DateTimeError::InvalidTimezone { value } => {
                let mut s = String::from_str("Invalid Jira timezone '");
                push_str(&mut s, value.as_str());
                push_str(&mut s, "'. Expected an IANA timezone like Asia/Jakarta");
                s
            },
            DateTimeError::InvalidRange { from, to } => {
                let mut s = String::from_str("Invalid range: end date '");
                push_str(&mut s, to.as_str());
                push_str(&mut s, "' is before start date '");
                push_str(&mut s, from.as_str());
                push_str(&mut s, "'");
                s
            },
            DateTimeError::UnresolvedLocalTime { date, time } => {
                let mut s = String::from_str(
                    "Could not resolve local time for started timestamp: ",
                );
                push_str(&mut s, date.as_str());
                push_str(&mut s, " ");
                push_str(&mut s, time.as_str());
                s
            },
            DateTimeError::UnresolvedZonedTime { zone, date, time } => {
                let mut s = String::from_str(
                    "Could not resolve time for started timestamp in timezone ",
                );
                push_str(&mut s, zone.as_str());
                push_str(&mut s, ": ");
                push_str(&mut s, date.as_str());
                push_str(&mut s, " ");
                push_str(&mut s, time.as_str());
                s
            },
        }
    }
}

/// The day number of the date a `YYYY-MM-DD` text denotes (chrono's
/// `NaiveDate::parse_from_str` with format `%Y-%m-%d`), if it denotes one.
pub uninterp spec fn ymd_date(s: Seq<char>) -> Option<i32>;

/// `NaiveDate::format("%Y-%m-%d")` of the date with day number `n`.
pub uninterp spec fn iso_date(n: int) -> Seq<char>;

/// `NaiveTime::parse_from_str(s, fmt)` as (seconds since midnight, nanoseconds).
pub uninterp spec fn naive_time(s: Seq<char>, fmt: Seq<char>) -> Option<(u32, u32)>;

/// Whether chrono-tz knows `s` as a time-zone name.
pub uninterp spec fn iana_zone(s: Seq<char>) -> bool;

/// The `%Y-%m-%dT%H:%M:%S.000%z` renderings of the instants that the wall-clock
/// time (`day`, `secs`, `nanos`) denotes in zone `zone`, earliest first: none in a
/// DST gap, two in a DST overlap.
pub uninterp spec fn zone_timestamps(day: i32, secs: u32, nanos: u32, zone: Seq<char>) -> Seq<
    Seq<char>,
>;

/// Day number of 0001-01-01, the first day of the four-digit years.
pub const FIRST_FOUR_DIGIT_DAY: i32 = 1;

/// Day number of 9999-12-31, the last day of the four-digit years.
pub const LAST_FOUR_DIGIT_DAY: i32 = 3652059;

/// A day whose year has four digits, which `%Y` writes without a sign.
pub open spec fn four_digit_year_day(n: int) -> bool {
    FIRST_FOUR_DIGIT_DAY <= n <= LAST_FOUR_DIGIT_DAY
}

/// An ASCII digit.
pub open spec fn is_digit(c: char) -> bool {
    '0' <= c && c <= '9'
}

/// The shape of `YYYY-MM-DD`: ten characters, digits but for the dashes at
/// positions 4 and 7.
pub open spec fn ymd_shape(s: Seq<char>) -> bool {
    &&& s.len() == 10
    &&& s[4] == '-'
    &&& s[7] == '-'
    &&& forall|i: int| 0 <= i < 10 && i != 4 && i != 7 ==> is_digit(#[trigger] s[i])
}

/// A `%z` offset: a sign and four digits (`+HHMM` or `-HHMM`).
pub open spec fn offset_text(o: Seq<char>) -> bool {
    &&& o.len() == 5
    &&& (o[0] == '+' || o[0] == '-')
    &&& forall|i: int| 1 <= i < 5 ==> is_digit(#[trigger] o[i])
}

/// The wall-clock part of a started timestamp: `YYYY-MM-DDTHH:MM:SS.000`.
pub open spec fn wall_text(day: int, secs: int, nanos: int) -> Seq<char> {
    iso_date(day) + "T"@ + hms_text(secs, nanos) + ".000"@
}

/// `s` renders the wall-clock time (`day`, `secs`, `nanos`) followed by some `%z`
/// offset: what a time-zone-aware date-time with that local time renders to.
pub open spec fn local_stamp(day: int, secs: int, nanos: int, s: Seq<char>) -> bool {
    &&& s.len() >= 5
    &&& s.subrange(0, s.len() - 5) == wall_text(day, secs, nanos)
    &&& offset_text(s.subrange(s.len() - 5, s.len() as int))
}

/// `s` is the started timestamp of the wall-clock time (`day`, `secs`, `nanos`):
/// in zone `z`, the earliest instant that time denotes there; without a zone,
/// that time rendered with the machine's offset for it.
pub open spec fn started_at(day: int, secs: int, nanos: int, zone: Option<Seq<char>>, s: Seq<char>) -> bool {
    match zone {
        Some(z) => {
            let c = zone_timestamps(day as i32, secs as u32, nanos as u32, z);
            c.len() > 0 && s == c[0]
        },
        None => local_stamp(day, secs, nanos, s),
    }
}

/// The zone a time-zone argument names, trimmed.
pub open spec fn zone_arg(tz: Option<&str>) -> Option<Seq<char>> {
    match tz {
        Some(z) => Some(trim(z@)),
        None => None,
    }
}

/// The time-of-day format that parses `s`: `HH:MM` first, then `HH:MM:SS`.
pub open spec fn start_time(s: Seq<char>) -> Option<(u32, u32)> {
    if naive_time(s, "%H:%M"@) is Some {
        naive_time(s, "%H:%M"@)
    } else {
        naive_time(s, "%H:%M:%S"@)
    }
}

/// The two-digit, zero-padded rendering of `n < 100`.
pub open spec fn two_digits(n: int) -> Seq<char> {
    seq![crate::text::digit_char((n / 10) as nat), crate::text::digit_char((n % 10) as nat)]
}

/// `%H:%M:%S` of a time of day (a leap second shows as second 60).
pub open spec fn hms_text(secs: int, nanos: int) -> Seq<char> {
    let s = if nanos >= 1_000_000_000 {
        secs % 60 + 1
    } else {
        secs % 60
    };
    two_digits(secs / 3600) + ":"@ + two_digits((secs / 60) % 60) + ":"@ + two_digits(s)
}

fn push_two_digits(out: &mut String, n: u32)
    requires
        n < 100,
    ensures
        final(out)@ == old(out)@ + two_digits(n as int),
{
    let tens: u32 = n / 10;
    let ones: u32 = n % 10;
    let ghost before = out@;
    push_decimal(out, tens as u64);
    push_decimal(out, ones as u64);
    assert(final(out)@ =~= before + two_digits(n as int));
}

/// `%H:%M:%S` of a time of day.
pub fn time_text(t: &ClockTime) -> (r: String)
    ensures
        r@ == hms_text(t.seconds(), t.nanoseconds()),
{
    proof {
        use_type_invariant(t);
    }
    let secs = t.secs;
    let sec: u32 = if t.nanos >= 1_000_000_000 {
        secs % 60 + 1
    } else {
        secs % 60
    };
    let mut out = String::new();
    push_two_digits(&mut out, secs / 3600);
    push_str(&mut out, ":");
    push_two_digits(&mut out, (secs / 60) % 60);
    push_str(&mut out, ":");
    push_two_digits(&mut out, sec);
    out
}


/// A `YYYY-MM-DD` date, surrounding whitespace ignored.
pub fn parse_date(value: &str) -> (r: Result<CalendarDate, DateTimeError>)
    ensures
        match r {
            Ok(d) => ymd_date(trim(value@)) == Some(d.number() as i32),
            Err(e) => ymd_date(trim(value@)) is None && e is InvalidDate
                && e->InvalidDate_value@ == trim(value@),
        },
{
    let v = trim_str(value);
    match ymd_day_number(v.as_str()) {
        Some(n) => Ok(CalendarDate { day: n }),
        None => Err(DateTimeError::InvalidDate { value: v }),
    }
}

/// A start time in `HH:MM` or `HH:MM:SS` form, surrounding whitespace ignored.
pub fn parse_time(value: &str) -> (r: Result<ClockTime, DateTimeError>)
    ensures
        match r {
            Ok(t) => start_time(trim(value@)) == Some((t.seconds() as u32, t.nanoseconds() as u32)),
            Err(e) => start_time(trim(value@)) is None && e is InvalidStartTime
                && e->InvalidStartTime_value@ == trim(value@),
        },
{
    let v = trim_str(value);
    match parse_clock(v.as_str(), "%H:%M") {
        Some(t) => Ok(t),
        None => match parse_clock(v.as_str(), "%H:%M:%S") {
            Some(t) => Ok(t),
            None => Err(DateTimeError::InvalidStartTime { value: v }),
        },
    }
}

/// An IANA time-zone name, surrounding whitespace ignored; returns the trimmed name.
pub fn parse_timezone(value: &str) -> (r: Result<String, DateTimeError>)
    ensures
        match r {
            Ok(z) => iana_zone(trim(value@)) && z@ == trim(value@),
            Err(e) => !iana_zone(trim(value@)) && e is InvalidTimezone
                && e->InvalidTimezone_value@ == trim(value@),
        },
{
    let v = trim_str(value);
    if zone_is_known(v.as_str()) {
        Ok(v)
    } else {
        Err(DateTimeError::InvalidTimezone { value: v })
    }
}

/// The error for a wall-clock time that denotes no instant, in `zone` or, when
/// none is given, in the machine's zone.
pub open spec fn unresolved(date: CalendarDate, time: ClockTime, zone: Option<Seq<char>>, e: DateTimeError) -> bool {
    match zone {
        Some(z) => e is UnresolvedZonedTime && e->UnresolvedZonedTime_zone@ == z
            && e->UnresolvedZonedTime_date@ == iso_date(date.number())
            && e->UnresolvedZonedTime_time@ == hms_text(time.seconds(), time.nanoseconds()),
        None => e is UnresolvedLocalTime && e->UnresolvedLocalTime_date@ == iso_date(date.number())
            && e->UnresolvedLocalTime_time@ == hms_text(time.seconds(), time.nanoseconds()),
    }
}

/// Picks the started timestamp from the renderings of the instants that a
/// wall-clock time denotes, earliest first: the first one, or, when there is
/// none (a DST gap), the error that names the date, the time and the zone.
pub fn pick_started(candidates: Vec<String>, date: &CalendarDate, time: &ClockTime, zone: Option<&str>) -> (r: Result<
    String,
    DateTimeError,
>)
    ensures
        match r {
            Ok(s) => candidates@.len() > 0 && s@ == candidates@[0]@,
            Err(e) => candidates@.len() == 0 && unresolved(*date, *time, zone_view(zone), e),
        },
{
    if candidates.len() > 0 {
        return Ok(candidates[0].clone());
    }
    let d = date.to_iso_string();
    let t = time_text(time);
    match zone {
        Some(z) => Err(DateTimeError::UnresolvedZonedTime { zone: String::from_str(z), date: d, time: t }),
        None => Err(DateTimeError::UnresolvedLocalTime { date: d, time: t }),
    }
}

/// The view of an optional zone name.
pub open spec fn zone_view(zone: Option<&str>) -> Option<Seq<char>> {
    match zone {
        Some(z) => Some(z@),
        None => None,
    }
}

/// The `started` timestamp for a wall-clock date and time, in `zone` or, when
/// none is given, in the machine's local zone. Where the wall-clock time occurs
/// twice (a DST overlap) the earlier instant is taken; where it does not occur
/// (a DST gap) the result is an error.
pub fn resolve_started(date: &CalendarDate, time: &ClockTime, zone: Option<&str>) -> (r: Result<
    String,
    DateTimeError,
>)
    requires
        zone matches Some(z) ==> iana_zone(z@),
    ensures
        match r {
            Ok(s) => started_at(date.number(), time.seconds(), time.nanoseconds(), zone_view(zone), s@),
            Err(e) => unresolved(*date, *time, zone_view(zone), e),
        },
        zone matches Some(z) ==> (r is Err <==> zone_timestamps(
            date.number() as i32,
            time.seconds() as u32,
            time.nanoseconds() as u32,
            z@,
        ).len() == 0),
{
    let candidates = match zone {
        Some(z) => zone_candidates(date, time, z),
        None => local_candidates(date, time),
    };
    let ghost c = candidates@;
    let r = pick_started(candidates, date, time, zone);
    proof {
        if zone is Some && c.len() > 0 {
            assert(views(c)[0] == c[0]@);
        } else if c.len() > 0 {
            assert(local_stamp(date.number(), time.seconds(), time.nanoseconds(), c[0]@));
        }
    }
    r
}

/// A time-zone argument is given and is not a zone name.
pub open spec fn zone_refused(tz: Option<&str>) -> bool {
    tz matches Some(z) && !iana_zone(trim(z@))
}

/// A date argument is given and is not a `YYYY-MM-DD` date.
pub open spec fn date_refused(d: Option<&str>) -> bool {
    d matches Some(x) && ymd_date(trim(x@)) is None
}

/// A start-time argument is given and is neither `HH:MM` nor `HH:MM:SS`.
pub open spec fn time_refused(t: Option<&str>) -> bool {
    t matches Some(x) && start_time(trim(x@)) is None
}

/// `s` is the started timestamp of some valid wall-clock date and time in the
/// zone the arguments name (or the machine's), where the date is the given one
/// when a date is given and the time is the given one when a start time is
/// given; what fills in a missing part is the clock's reading.
pub open spec fn started_from(date: Option<&str>, start: Option<&str>, timezone: Option<&str>, s: Seq<char>) -> bool {
    exists|d: int, secs: int, nanos: int|
        #[trigger] started_at(d, secs, nanos, zone_arg(timezone), s) && valid_day(d)
            && valid_clock(secs, nanos) && (date is Some ==> d == ymd_date(trim(date->0@))->0)
            && (start is Some ==> secs == (start_time(trim(start->0@))->0).0 && nanos == (
            start_time(trim(start->0@))->0).1)
}

/// `s` is the started timestamp of day `day` at some valid time of day in the
/// zone the arguments name (or the machine's), the given start time when one is
/// given.
pub open spec fn started_from_day(day: int, start: Option<&str>, timezone: Option<&str>, s: Seq<char>) -> bool {
    exists|secs: int, nanos: int|
        #[trigger] started_at(day, secs, nanos, zone_arg(timezone), s) && valid_clock(secs, nanos)
            && (start is Some ==> secs == (start_time(trim(start->0@))->0).0 && nanos == (
            start_time(trim(start->0@))->0).1)
}

/// The Jira worklog `started` timestamp (`YYYY-MM-DDTHH:MM:SS.000+ZZZZ`) for an
/// optional date, start time and Jira time zone.
///
/// With neither date nor start time there is no timestamp (Jira defaults to
/// now). A missing date is today's, a missing start time is the current time,
/// both taken in the given zone or else the machine's. Arguments are checked
/// in the order time zone, date, start time.
pub fn build_worklog_started(date: Option<&str>, start: Option<&str>, timezone: Option<&str>) -> (r:
    Result<Option<String>, DateTimeError>)
    ensures
        (r matches Ok(None)) <==> (date is None && start is None),
        (r matches Err(e) && e is InvalidTimezone) <==> (!(date is None && start is None)
            && zone_refused(timezone)),
        (r matches Err(e) && e is InvalidDate) <==> (!(date is None && start is None)
            && !zone_refused(timezone) && date_refused(date)),
        (r matches Err(e) && e is InvalidStartTime) <==> (!(date is None && start is None)
            && !zone_refused(timezone) && !date_refused(date) && time_refused(start)),
        match r {
            Err(DateTimeError::InvalidTimezone { value }) => timezone is Some && value@ == trim(
                timezone->0@,
            ),
            Err(DateTimeError::InvalidDate { value }) => date is Some && value@ == trim(date->0@),
            Err(DateTimeError::InvalidStartTime { value }) => start is Some && value@ == trim(
                start->0@,
            ),
            Err(DateTimeError::InvalidRange { .. }) => false,
            _ => true,
        },
        (timezone is Some && date is Some && start is Some && !zone_refused(timezone)
            && !date_refused(date) && !time_refused(start)) ==> {
            let (z, d, t) = (timezone->0, date->0, start->0);
            let c = zone_timestamps(
                ymd_date(trim(d@))->0,
                (start_time(trim(t@))->0).0,
                (start_time(trim(t@))->0).1,
                trim(z@),
            );
            match r {
                Ok(Some(s)) => c.len() > 0 && s@ == c[0],
                Ok(None) => false,
                Err(e) => c.len() == 0 && e is UnresolvedZonedTime,
            }
        },
        (!(date is None && start is None) && !zone_refused(timezone) && !date_refused(date)
            && !time_refused(start)) ==> match r {
            Ok(Some(s)) => started_from(date, start, timezone, s@),
            Ok(None) => false,
            Err(e) => if timezone is Some {
                e is UnresolvedZonedTime
            } else {
                e is UnresolvedLocalTime
            },
        },
{
    if date.is_none() && start.is_none() {
        return Ok(None);
    }
    let zone: Option<String> = match timezone {
        Some(z) => match parse_timezone(z) {
            Ok(name) => Some(name),
            Err(e) => return Err(e),
        },
        None => None,
    };
    let (current_date, current_time) = match &zone {
        Some(z) => now_in_zone(z.as_str()),
        None => now_local(),
    };
    let day = match date {
        Some(value) => match parse_date(value) {
            Ok(d) => d,
            Err(e) => return Err(e),
        },
        None => current_date,
    };
    let time = match start {
        Some(value) => match parse_time(value) {
            Ok(t) => t,
            Err(e) => return Err(e),
        },
        None => current_time,
    };
    proof {
        use_type_invariant(&day);
        use_type_invariant(&time);
    }
    let resolved = match &zone {
        Some(z) => {
            assert(Some(z@) == zone_arg(timezone));
            resolve_started(&day, &time, Some(z.as_str()))
        },
        None => resolve_started(&day, &time, None),
    };
    match resolved {
        Ok(s) => {
            assert(started_at(day.number(), time.seconds(), time.nanoseconds(), zone_arg(timezone), s@));
            Ok(Some(s))
        },
        Err(e) => Err(e),
    }
}

/// The `started` timestamp for a given date, at the given start time or else
/// the current time, in the given Jira time zone or else the machine's.
pub fn build_worklog_started_for_date(
    date: &CalendarDate,
    start: Option<&str>,
    timezone: Option<&str>,
) -> (r: Result<String, DateTimeError>)
    ensures
        (r matches Err(e) && e is InvalidTimezone) <==> zone_refused(timezone),
        (r matches Err(e) && e is InvalidStartTime) <==> (!zone_refused(timezone)
            && time_refused(start)),
        r matches Err(e) ==> !(e is InvalidDate) && !(e is InvalidRange),
        (timezone is Some && start is Some && !zone_refused(timezone) && !time_refused(
            start,
        )) ==> {
            let (z, t) = (timezone->0, start->0);
            let c = zone_timestamps(
                date.number() as i32,
                (start_time(trim(t@))->0).0,
                (start_time(trim(t@))->0).1,
                trim(z@),
            );
            match r {
                Ok(s) => c.len() > 0 && s@ == c[0],
                Err(e) => c.len() == 0 && e is UnresolvedZonedTime,
            }
        },
        (!zone_refused(timezone) && !time_refused(start)) ==> match r {
            Ok(s) => started_from_day(date.number(), start, timezone, s@),
            Err(e) => if timezone is Some {
                e is UnresolvedZonedTime
            } else {
                e is UnresolvedLocalTime
            },
        },
{
    let zone: Option<String> = match timezone {
        Some(z) => match parse_timezone(z) {
            Ok(name) => Some(name),
            Err(e) => return Err(e),
        },
        None => None,
    };
    let time = match start {
        Some(value) => match parse_time(value) {
            Ok(t) => t,
            Err(e) => return Err(e),
        },
        None => {
            let (_, now) = match &zone {
                Some(z) => now_in_zone(z.as_str()),
                None => now_local(),
            };
            now
        },
    };
    proof {
        use_type_invariant(&time);
    }
    let resolved = match &zone {
        Some(z) => {
            assert(Some(z@) == zone_arg(timezone));
            resolve_started(date, &time, Some(z.as_str()))
        },
        None => resolve_started(date, &time, None),
    };
    match resolved {
        Ok(s) => {
            assert(started_at(date.number(), time.seconds(), time.nanoseconds(), zone_arg(timezone), s@));
            Ok(s)
        },
        Err(e) => Err(e),
    }
}

/// Day of the week of day number `n`: 0 for Monday up to 6 for Sunday
/// (0001-01-01, day 1, is a Monday in the proleptic Gregorian calendar).
pub open spec fn weekday_index(n: int) -> int {
    (n - 1) % 7
}

/// Whether day `n` is a Saturday or a Sunday.
pub open spec fn is_weekend(n: int) -> bool {
    weekday_index(n) >= 5
}

/// Whether day `n` belongs in a worklog range.
pub open spec fn range_keeps(n: int, exclude_weekends: bool) -> bool {
    !exclude_weekends || !is_weekend(n)
}

/// The days from `a` to `b` inclusive, in order, weekends left out when asked.
pub open spec fn range_days(a: int, b: int, exclude_weekends: bool) -> Seq<int>
    decreases b - a + 1,
{
    if b < a {
        Seq::empty()
    } else {
        range_days(a, b - 1, exclude_weekends) + if range_keeps(b, exclude_weekends) {
            seq![b]
        } else {
            Seq::empty()
        }
    }
}

/// The day numbers of a sequence of dates.
pub open spec fn day_numbers(v: Seq<CalendarDate>) -> Seq<int> {
    v.map_values(|d: CalendarDate| d.number())
}

/// Day of the week of `date`: 0 for Monday up to 6 for Sunday.
pub fn weekday(date: &CalendarDate) -> (r: u8)
    ensures
        r == weekday_index(date.number()),
        r < 7,
{
    let n = date.day_number();
    let shifted: i64 = n as i64 - 1 + 140_000_000;
    assert(shifted % 7 == (n - 1) % 7) by (nonlinear_arith)
        requires
            shifted == n - 1 + 7 * 20_000_000,
            shifted >= 0,
    ;
    (shifted % 7) as u8
}

/// Every date from `from` to `to` inclusive (both `YYYY-MM-DD`), in order,
/// leaving out Saturdays and Sundays when `exclude_weekends` is set.
pub fn build_worklog_range_dates(from: &str, to: &str, exclude_weekends: bool) -> (r: Result<
    Vec<CalendarDate>,
    DateTimeError,
>)
    ensures
        match r {
            Ok(v) => ymd_date(trim(from@)) is Some && ymd_date(trim(to@)) is Some
                && ymd_date(trim(from@))->0 <= ymd_date(trim(to@))->0 && day_numbers(v@)
                == range_days(
                ymd_date(trim(from@))->0 as int,
                ymd_date(trim(to@))->0 as int,
                exclude_weekends,
            ),
            Err(DateTimeError::InvalidDate { value }) => (ymd_date(trim(from@)) is None && value@
                == trim(from@)) || (ymd_date(trim(from@)) is Some && ymd_date(trim(to@)) is None
                && value@ == trim(to@)),
            Err(DateTimeError::InvalidRange { from: f, to: t }) => ymd_date(trim(from@)) is Some
                && ymd_date(trim(to@)) is Some && ymd_date(trim(to@))->0 < ymd_date(
                trim(from@),
            )->0 && f@ == trim(from@) && t@ == trim(to@),
            Err(_) => false,
        },
{
    let start = match parse_date(from) {
        Ok(d) => d,
        Err(e) => return Err(e),
    };
    let end = match parse_date(to) {
        Ok(d) => d,
        Err(e) => return Err(e),
    };
    let a = start.day_number();
    let b = end.day_number();
    if b < a {
        return Err(DateTimeError::InvalidRange { from: trim_str(from), to: trim_str(to) });
    }
    let mut dates: Vec<CalendarDate> = Vec::new();
    let mut cur: i32 = a;
    loop
        invariant_except_break
            day_numbers(dates@) == range_days(a as int, cur - 1, exclude_weekends),
        invariant
            a <= cur <= b,
            valid_day(a as int),
            valid_day(b as int),
        ensures
            day_numbers(dates@) == range_days(a as int, b as int, exclude_weekends),
        decreases b - cur,
    {
        let day = CalendarDate { day: cur };
        let is_weekend_day = weekday(&day) >= 5;
        let ghost before = dates@;
        if !exclude_weekends || !is_weekend_day {
            dates.push(day);
            assert(day_numbers(dates@) =~= day_numbers(before).push(cur as int));
        }
        assert(day_numbers(dates@) =~= range_days(a as int, cur as int, exclude_weekends));
        if cur == b {
            break;
        }
        cur = cur + 1;
    }
    Ok(dates)
}

proof fn lemma_range_days_members(a: int, b: int, excl: bool, d: int)
    ensures
        range_days(a, b, excl).contains(d) <==> (a <= d <= b && range_keeps(d, excl)),
    decreases b - a + 1,
{
    if b >= a {
        lemma_range_days_members(a, b - 1, excl, d);
        let prev = range_days(a, b - 1, excl);
        let tail = if range_keeps(b, excl) {
            seq![b]
        } else {
            Seq::<int>::empty()
        };
        assert(range_days(a, b, excl) == prev + tail);
        if (prev + tail).contains(d) {
            let i = choose|i: int| 0 <= i < (prev + tail).len() && (prev + tail)[i] == d;
            if i >= prev.len() {
                assert(tail[i - prev.len()] == d);
            } else {
                assert(prev[i] == d);
            }
        }
        if a <= d <= b && range_keeps(d, excl) {
            if d == b {
                assert((prev + tail)[prev.len() as int] == d);
            } else {
                let i = choose|i: int| 0 <= i < prev.len() && prev[i] == d;
                assert((prev + tail)[i] == d);
            }
        }
    }
}

proof fn lemma_range_days_bounds(a: int, b: int, excl: bool)
    ensures
        forall|i: int|
            0 <= i < range_days(a, b, excl).len() ==> a <= #[trigger] range_days(a, b, excl)[i]
                <= b,
        forall|i: int, j: int|
            0 <= i < j < range_days(a, b, excl).len() ==> #[trigger] range_days(a, b, excl)[i]
                < #[trigger] range_days(a, b, excl)[j],
    decreases b - a + 1,
{
    if b >= a {
        lemma_range_days_bounds(a, b - 1, excl);
        let prev = range_days(a, b - 1, excl);
        let tail = if range_keeps(b, excl) {
            seq![b]
        } else {
            Seq::<int>::empty()
        };
        let all = range_days(a, b, excl);
        assert(all == prev + tail);
        assert forall|i: int| 0 <= i < all.len() implies a <= #[trigger] all[i] <= b by {
            if i < prev.len() {
                assert(all[i] == prev[i]);
            } else {
                assert(all[i] == tail[i - prev.len()]);
            }
        }
        assert forall|i: int, j: int| 0 <= i < j < all.len() implies #[trigger] all[i]
            < #[trigger] all[j] by {
            if j < prev.len() {
                assert(all[i] == prev[i] && all[j] == prev[j]);
            } else {
                assert(all[j] == b);
                assert(all[i] == prev[i]);
            }
        }
    }
}

proof fn lemma_range_days_len(a: int, b: int)
    requires
        a <= b + 1,
    ensures
        range_days(a, b, false).len() == b - a + 1,
    decreases b - a + 1,
{
    if b >= a {
        lemma_range_days_len(a, b - 1);
    }
}

/// A worklog range holds exactly the days from its start to its end (both
/// included) that it keeps: every day when weekends are not excluded, every
/// weekday otherwise; it lists them in strictly increasing order, so no day
/// twice, and without exclusion it has one entry per day.
pub proof fn law_worklog_range(a: int, b: int, exclude_weekends: bool, d: int)
    requires
        a <= b,
    ensures
        range_days(a, b, exclude_weekends).contains(d) <==> (a <= d <= b && range_keeps(
            d,
            exclude_weekends,
        )),
        forall|i: int, j: int|
            0 <= i < j < range_days(a, b, exclude_weekends).len() ==> #[trigger] range_days(
                a,
                b,
                exclude_weekends,
            )[i] < #[trigger] range_days(a, b, exclude_weekends)[j],
        range_days(a, b, false).len() == b - a + 1,
{
    lemma_range_days_members(a, b, exclude_weekends, d);
    lemma_range_days_bounds(a, b, exclude_weekends);
    lemma_range_days_len(a, b);
}

/// `NaiveDate::parse_from_str(s, "%Y-%m-%d")`, as the date's day number. Every
/// `NaiveDate` lies between `NaiveDate::MIN` and `NaiveDate::MAX`.
#[verifier::external_body]
fn ymd_day_number(s: &str) -> (r: Option<i32>)
    ensures
        r == ymd_date(s@),
        r matches Some(n) ==> valid_day(n as int),
{
    chrono::NaiveDate::parse_from_str(s, "%Y-%m-%d").ok().map(|d| chrono::Datelike::num_days_from_ce(&d))
}

/// `NaiveDate::from_num_days_from_ce_opt(n)` rendered with `%Y-%m-%d`; the
/// conversion succeeds for every representable day number. A year from 1 to
/// 9999 is written with four zero-padded digits and no sign, and
/// `NaiveDate::parse_from_str` with the same format reads the text back as the
/// same date.
#[verifier::external_body]
fn iso_date_text(n: i32) -> (r: String)
    requires
        valid_day(n as int),
    ensures
        r@ == iso_date(n as int),
        four_digit_year_day(n as int) ==> ymd_shape(r@) && ymd_date(r@) == Some(n),
{
    chrono::NaiveDate::from_num_days_from_ce_opt(n).map(|d| d.format("%Y-%m-%d").to_string()).unwrap_or_default()
}

/// `NaiveTime::parse_from_str(s, fmt)`, as seconds since midnight and nanoseconds,
/// which every `NaiveTime` keeps within the bounds of `valid_clock`.
#[verifier::external_body]
fn parse_clock(s: &str, fmt: &str) -> (r: Option<ClockTime>)
    ensures
        r is Some <==> naive_time(s@, fmt@) is Some,
        r matches Some(t) ==> naive_time(s@, fmt@) == Some((t.seconds() as u32, t.nanoseconds() as u32)),
{
    chrono::NaiveTime::parse_from_str(s, fmt).ok().map(|t| ClockTime { secs: chrono::Timelike::num_seconds_from_midnight(&t), nanos: chrono::Timelike::nanosecond(&t) })
}

/// `s.parse::<chrono_tz::Tz>().is_ok()`: whether `s` names a zone of the tz database.
#[verifier::external_body]
fn zone_is_known(s: &str) -> (r: bool)
    ensures
        r == iana_zone(s@),
{
    s.parse::<chrono_tz::Tz>().is_ok()
}

/// Today's date and the current time in zone `zone` (`Utc::now().with_timezone`).
/// Depends on the clock: nothing is stated of the values but their validity.
#[verifier::external_body]
fn now_in_zone(zone: &str) -> (r: (CalendarDate, ClockTime))
    requires
        iana_zone(zone@),
{
    let tz: chrono_tz::Tz = zone.parse().unwrap_or(chrono_tz::UTC);
    let now = chrono::Utc::now().with_timezone(&tz);
    (CalendarDate { day: chrono::Datelike::num_days_from_ce(&now.date_naive()) }, ClockTime { secs: chrono::Timelike::num_seconds_from_midnight(&now.time()), nanos: chrono::Timelike::nanosecond(&now.time()) })
}

/// Today's date and the current time in the machine's local zone (`Local::now()`).
/// Depends on the clock and the machine: nothing is stated of the values but their validity.
#[verifier::external_body]
fn now_local() -> (r: (CalendarDate, ClockTime)) {
    let now = chrono::Local::now();
    (CalendarDate { day: chrono::Datelike::num_days_from_ce(&now.date_naive()) }, ClockTime { secs: chrono::Timelike::num_seconds_from_midnight(&now.time()), nanos: chrono::Timelike::nanosecond(&now.time()) })
}

/// `Tz::from_local_datetime` of the wall-clock time in zone `zone`, each
/// resulting instant rendered with `%Y-%m-%dT%H:%M:%S.000%z`: no instant for
/// `LocalResult::None`, one for `Single`, both (earliest first) for `Ambiguous`.
#[verifier::external_body]
fn zone_candidates(date: &CalendarDate, time: &ClockTime, zone: &str) -> (r: Vec<String>)
    requires
        iana_zone(zone@),
    ensures
        views(r@) == zone_timestamps(date.number() as i32, time.seconds() as u32, time.nanoseconds() as u32, zone@),
        r@.len() <= 2,
{
    let tz: chrono_tz::Tz = zone.parse().unwrap_or(chrono_tz::UTC);
    let naive = chrono::NaiveDateTime::new(chrono::NaiveDate::from_num_days_from_ce_opt(date.day).unwrap_or_default(), chrono::NaiveTime::from_num_seconds_from_midnight_opt(time.secs, time.nanos).unwrap_or_default());
    let fmt = "%Y-%m-%dT%H:%M:%S.000%z";
    match chrono::TimeZone::from_local_datetime(&tz, &naive) {
        chrono::LocalResult::Single(dt) => vec![dt.format(fmt).to_string()],
        chrono::LocalResult::Ambiguous(a, b) => vec![a.format(fmt).to_string(), b.format(fmt).to_string()],
        chrono::LocalResult::None => vec![],
    }
}

/// `Local::from_local_datetime` of the wall-clock time in the machine's zone,
/// rendered as in `zone_candidates`. Each instant keeps the given wall-clock
/// time as its local time, so each rendering is that time followed by a `%z`
/// offset (sign, hours and minutes). Which offsets, and how many instants, depend
/// on the machine's zone and are not stated beyond at most two.
#[verifier::external_body]
fn local_candidates(date: &CalendarDate, time: &ClockTime) -> (r: Vec<String>)
    ensures
        r@.len() <= 2,
        forall|i: int|
            0 <= i < r@.len() ==> local_stamp(
                date.number(),
                time.seconds(),
                time.nanoseconds(),
                #[trigger] r@[i]@,
            ),
{
    let naive = chrono::NaiveDateTime::new(chrono::NaiveDate::from_num_days_from_ce_opt(date.day).unwrap_or_default(), chrono::NaiveTime::from_num_seconds_from_midnight_opt(time.secs, time.nanos).unwrap_or_default());
    let fmt = "%Y-%m-%dT%H:%M:%S.000%z";
    match chrono::TimeZone::from_local_datetime(&chrono::Local, &naive) {
        chrono::LocalResult::Single(dt) => vec![dt.format(fmt).to_string()],
        chrono::LocalResult::Ambiguous(a, b) => vec![a.format(fmt).to_string(), b.format(fmt).to_string()],
        chrono::LocalResult::None => vec![],
    }
}

} // verus!
