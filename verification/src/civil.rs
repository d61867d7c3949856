//! Civil dates and UTC timestamps on the proleptic Gregorian calendar, and their iCalendar
//! `DATE` (`YYYYMMDD`) and UTC `DATE-TIME` (`YYYYMMDDTHHMMSSZ`) forms (RFC 5545 3.3.4/3.3.5).
use vstd::prelude::*;

use crate::text::{push_char, string_of};

verus! {

// ---------------------------------------------------------------------------------------------
// The calendar
// ---------------------------------------------------------------------------------------------
/// Whether `year` is a leap year of the proleptic Gregorian calendar.
pub open spec fn is_leap_year(year: int) -> bool {
    year % 4 == 0 && (year % 100 != 0 || year % 400 == 0)
}

/// The number of days of `month` in `year`.
pub open spec fn days_in_month(year: int, month: int) -> int {
    if month == 2 {
        if is_leap_year(year) {
            29
        } else {
            28
        }
    } else if month == 4 || month == 6 || month == 9 || month == 11 {
        30
    } else {
        31
    }
}

/// Whether year-month-day is a date of the supported range `-9999-01-01..=9999-12-31`.
pub open spec fn valid_date(year: int, month: int, day: int) -> bool {
    &&& -9999 <= year <= 9999
    &&& 1 <= month <= 12
    &&& 1 <= day <= days_in_month(year, month)
}

/// A civil date as plain integers.
pub ghost struct CivilDate {
    pub year: int,
    pub month: int,
    pub day: int,
}

impl CivilDate {
    pub open spec fn is_valid(self) -> bool {
        valid_date(self.year, self.month, self.day)
    }

    /// The day after this one.
    pub open spec fn next_day(self) -> CivilDate {
        if self.day < days_in_month(self.year, self.month) {
            CivilDate { day: self.day + 1, ..self }
        } else if self.month < 12 {
            CivilDate { month: self.month + 1, day: 1, ..self }
        } else {
            CivilDate { year: self.year + 1, month: 1, day: 1 }
        }
    }

    /// Days since 1970-01-01 (negative before it).
    pub open spec fn days_since_epoch(self) -> int {
        let y = if self.month <= 2 {
            self.year - 1
        } else {
            self.year
        };
        let mp = if self.month > 2 {
            self.month - 3
        } else {
            self.month + 9
        };
        let doy = (153 * mp + 2) / 5 + self.day - 1;
        365 * y + y / 4 - y / 100 + y / 400 + doy - 719468
    }
}

/// A civil date of the proleptic Gregorian calendar, from `-9999-01-01` to `9999-12-31`.
#[derive(Clone, Copy, Debug, PartialEq, Eq)]
pub struct Date {
    year: i16,
    month: i8,
    day: i8,
}

impl View for Date {
    type V = CivilDate;

    closed spec fn view(&self) -> CivilDate {
        CivilDate { year: self.year as int, month: self.month as int, day: self.day as int }
    }
}

impl Date {
    #[verifier::type_invariant]
    spec fn inv(self) -> bool {
        valid_date(self.year as int, self.month as int, self.day as int)
    }

    /// The date `year-month-day`, or `None` when it is not a valid date: the year must be in
    /// `-9999..=9999`, the month in `1..=12` and the day in `1..=` the days of that month.
    pub fn new(year: i16, month: i8, day: i8) -> (r: Option<Date>)
        ensures
            r is Some <==> valid_date(year as int, month as int, day as int),
            r matches Some(d) ==> d@ == (CivilDate {
                year: year as int,
                month: month as int,
                day: day as int,
            }),
    {
        if -9999 <= year && year <= 9999 && 1 <= month && month <= 12 && 1 <= day && day
            <= days_in_month_of(year, month) {
            Some(Date { year, month, day })
        } else {
            None
        }
    }

    /// The date `year-month-day`, which must be a valid date (as [`Date::new`] checks it).
    pub fn constant(year: i16, month: i8, day: i8) -> (d: Date)
        requires
            valid_date(year as int, month as int, day as int),
        ensures
            d@ == (CivilDate { year: year as int, month: month as int, day: day as int }),
    {
        Date { year, month, day }
    }

    pub fn year(&self) -> (y: i16)
        ensures
            y == self@.year,
    {
        self.year
    }

    pub fn month(&self) -> (m: i8)
        ensures
            m == self@.month,
    {
        self.month
    }

    pub fn day(&self) -> (d: i8)
        ensures
            d == self@.day,
    {
        self.day
    }

    /// The date immediately following this one, `None` for the last supported date.
    pub fn tomorrow(&self) -> (r: Option<Date>)
        ensures
            r is None <==> self@ == (CivilDate { year: 9999, month: 12, day: 31 }),
            r matches Some(t) ==> t@ == self@.next_day(),
    {
        proof {
            use_type_invariant(self);
        }
        if self.day < days_in_month_of(self.year, self.month) {
            Some(Date { day: self.day + 1, ..*self })
        } else if self.month < 12 {
            Some(Date { month: self.month + 1, day: 1, ..*self })
        } else if self.year < 9999 {
            Some(Date { year: self.year + 1, month: 1, day: 1 })
        } else {
            None
        }
    }
}

/// Executable `days_in_month`.
pub fn days_in_month_of(year: i16, month: i8) -> (n: i8)
    ensures
        n == days_in_month(year as int, month as int),
{
    if month == 2 {
        if year % 4 == 0 && (year % 100 != 0 || year % 400 == 0) {
            29
        } else {
            28
        }
    } else if month == 4 || month == 6 || month == 9 || month == 11 {
        30
    } else {
        31
    }
}

/// Whether `a` comes before `b` on the calendar: by year, then month, then day.
pub open spec fn date_before(a: CivilDate, b: CivilDate) -> bool {
    ||| a.year < b.year
    ||| a.year == b.year && a.month < b.month
    ||| a.year == b.year && a.month == b.month && a.day < b.day
}

/// The day after a valid date is the very next valid date on the calendar: it is valid (but
/// after the last supported date), it comes after the date, and no valid date lies between the
/// two. It is also one day later counted from the epoch, which is day 0 of 1970-01-01.
pub proof fn lemma_next_day_is_successor(d: CivilDate, e: CivilDate)
    requires
        d.is_valid(),
    ensures
        d != last_date() ==> d.next_day().is_valid(),
        date_before(d, d.next_day()),
        (e.is_valid() && date_before(d, e)) ==> !date_before(e, d.next_day()),
        d.next_day().days_since_epoch() == d.days_since_epoch() + 1,
        (CivilDate { year: 1970, month: 1, day: 1 }).days_since_epoch() == 0,
{
}

/// The proleptic Gregorian calendar repeats every 400 years, which hold 146097 days: 97 leap
/// years, as every fourth year is one but for the centuries not divisible by 400.
pub proof fn lemma_gregorian_cycle(year: int, month: int, day: int)
    ensures
        (CivilDate { year: year + 400, month, day }).days_since_epoch() == (CivilDate {
            year,
            month,
            day,
        }).days_since_epoch() + 146097,
        is_leap_year(year + 400) == is_leap_year(year),
        days_in_month(year + 400, month) == days_in_month(year, month),
        is_leap_year(year) ==> year % 4 == 0,
        (year % 100 == 0 && year % 400 != 0) ==> !is_leap_year(year),
        (year % 4 == 0 && year % 100 != 0) ==> is_leap_year(year),
        year % 400 == 0 ==> is_leap_year(year),
{
}

// ---------------------------------------------------------------------------------------------
// UTC instants
// ---------------------------------------------------------------------------------------------
/// A UTC date and time of day, to the second.
#[derive(Clone, Copy, Debug, PartialEq, Eq)]
pub struct UtcDateTime {
    pub year: i16,
    pub month: i8,
    pub day: i8,
    pub hour: i8,
    pub minute: i8,
    pub second: i8,
}

impl UtcDateTime {
    pub open spec fn date(self) -> CivilDate {
        CivilDate { year: self.year as int, month: self.month as int, day: self.day as int }
    }

    /// A valid date with hour `0..=23`, minute `0..=59` and second `0..=59`.
    pub open spec fn is_valid(self) -> bool {
        &&& self.date().is_valid()
        &&& 0 <= self.hour < 24
        &&& 0 <= self.minute < 60
        &&& 0 <= self.second < 60
    }

    /// Seconds since the Unix epoch `1970-01-01T00:00:00Z`.
    pub open spec fn epoch_seconds(self) -> int {
        self.date().days_since_epoch() * 86400 + self.hour * 3600 + self.minute * 60
            + self.second
    }
}

/// The range of epoch seconds that jiff represents as a `Timestamp`.
pub open spec fn epoch_in_range(epoch: int) -> bool {
    -377705023201 <= epoch <= 253402207200
}

/// The UTC date and time of an epoch-seconds instant (`jiff::Timestamp::from_second`, then
/// `jiff::tz::Offset::UTC.to_datetime` and the datetime's field getters): `None` exactly when
/// `Timestamp::from_second` rejects the instant as outside of jiff's range, otherwise the
/// calendar fields of the instant in UTC, on the proleptic Gregorian calendar without leap
/// seconds.
#[verifier::external_body]
fn utc_datetime_of_epoch(epoch: i64) -> (r: Option<UtcDateTime>)
    ensures
        r is Some <==> epoch_in_range(epoch as int),
        r matches Some(dt) ==> dt.is_valid() && dt.epoch_seconds() == epoch,
{
    let ts = jiff::Timestamp::from_second(epoch).ok()?;
    let dt = jiff::tz::Offset::UTC.to_datetime(ts);
    let (year, month, day) = (dt.year(), dt.month(), dt.day());
    let (hour, minute, second) = (dt.hour(), dt.minute(), dt.second());
    Some(UtcDateTime { year, month, day, hour, minute, second })
}

/// The UTC date and time of the Unix epoch.
pub open spec fn unix_epoch() -> UtcDateTime {
    UtcDateTime { year: 1970, month: 1, day: 1, hour: 0, minute: 0, second: 0 }
}

// ---------------------------------------------------------------------------------------------
// Decimal text
// ---------------------------------------------------------------------------------------------
/// The ASCII digit for `d` in `0..=9`.
pub open spec fn digit(d: int) -> char {
    (48 + d) as char
}

/// The decimal digits of `v`, without leading zeros (`0` for zero).
pub open spec fn decimal(v: nat) -> Seq<char>
    decreases v,
{
    if v < 10 {
        seq![digit(v as int)]
    } else {
        decimal(v / 10) + seq![digit((v % 10) as int)]
    }
}

/// `n` zero characters.
pub open spec fn zeros(n: nat) -> Seq<char> {
    Seq::new(n, |i: int| '0')
}

/// `v` in decimal, left-padded with zeros to at least `width` characters.
pub open spec fn pad_nat(v: nat, width: nat) -> Seq<char> {
    let d = decimal(v);
    if d.len() >= width {
        d
    } else {
        zeros((width - d.len()) as nat) + d
    }
}

/// `n` in decimal, zero-padded to at least `width` characters with the sign counting toward the
/// width, as `format!("{:0width$}", n)` writes it (`-1` at width 4 is `-001`).
pub open spec fn pad_int(n: int, width: nat) -> Seq<char> {
    if n < 0 {
        seq!['-'] + pad_nat((-n) as nat, if width >= 1 {
            (width - 1) as nat
        } else {
            0
        })
    } else {
        pad_nat(n as nat, width)
    }
}

fn digit_char(d: u64) -> (c: char)
    requires
        d < 10,
    ensures
        c == digit(d as int),
{
    let b: u8 = 48u8 + d as u8;
    b as char
}

pub(crate) fn push_decimal(out: &mut String, v: u64)
    ensures
        final(out)@ == old(out)@ + decimal(v as nat),
    decreases v,
{
    if v >= 10 {
        push_decimal(out, v / 10);
    }
    push_char(out, digit_char(v % 10));
}

fn decimal_width(v: u64) -> (n: usize)
    ensures
        n == decimal(v as nat).len(),
    decreases v,
{
    proof {
        assert(pow10(20) == 100_000_000_000_000_000_000) by {
            reveal_with_fuel(pow10, 21);
        }
        lemma_decimal_len(v as nat, 20);
    }
    if v >= 10 {
        let k = decimal_width(v / 10);
        assert(decimal(v as nat).len() == decimal((v / 10) as nat).len() + 1);
        k + 1
    } else {
        1
    }
}

spec fn pow10(k: nat) -> nat
    decreases k,
{
    if k == 0 {
        1
    } else {
        10 * pow10((k - 1) as nat)
    }
}

proof fn lemma_decimal_len(v: nat, k: nat)
    requires
        k >= 1,
        v < pow10(k),
    ensures
        decimal(v).len() <= k,
    decreases k,
{
    if v >= 10 {
        assert(k >= 2) by {
            if k == 1 {
                assert(pow10(1) == 10 * pow10(0));
            }
        }
        assert(pow10(k) == 10 * pow10((k - 1) as nat));
        assert(v / 10 < pow10((k - 1) as nat));
        lemma_decimal_len(v / 10, (k - 1) as nat);
    }
}

/// Appends `v` in decimal, zero-padded to at least `width` characters.
pub fn push_padded_nat(out: &mut String, v: u64, width: usize)
    ensures
        final(out)@ == old(out)@ + pad_nat(v as nat, width as nat),
{
    let n = decimal_width(v);
    if n < width {
        let mut k: usize = 0;
        while k < width - n
            invariant
                n < width,
                k <= width - n,
                out@ == old(out)@ + zeros(k as nat),
            decreases width - n - k,
        {
            push_char(out, '0');
            assert(zeros((k + 1) as nat) =~= zeros(k as nat).push('0'));
            k += 1;
        }
    }
    push_decimal(out, v);
    assert(out@ =~= old(out)@ + pad_nat(v as nat, width as nat));
}

/// Appends `n` in decimal, zero-padded to at least `width` characters, the sign counting toward
/// the width.
pub fn push_padded_int(out: &mut String, n: i32, width: usize)
    ensures
        final(out)@ == old(out)@ + pad_int(n as int, width as nat),
{
    if n < 0 {
        push_char(out, '-');
        let m: u64 = if n == i32::MIN {
            0x8000_0000u64
        } else {
            (-n) as u64
        };
        let w: usize = if width >= 1 {
            width - 1
        } else {
            0
        };
        push_padded_nat(out, m, w);
        assert(out@ =~= old(out)@ + pad_int(n as int, width as nat));
    } else {
        push_padded_nat(out, n as u64, width);
    }
}

// ---------------------------------------------------------------------------------------------
// iCalendar date and date-time values
// ---------------------------------------------------------------------------------------------
/// The `DATE` value of a date (RFC 5545 3.3.4): `YYYYMMDD`.
pub open spec fn date_text(d: CivilDate) -> Seq<char> {
    pad_int(d.year, 4) + pad_int(d.month, 2) + pad_int(d.day, 2)
}

/// The UTC `DATE-TIME` value of an instant (RFC 5545 3.3.5): `YYYYMMDDTHHMMSSZ`.
pub open spec fn utc_text(dt: UtcDateTime) -> Seq<char> {
    date_text(dt.date()) + seq!['T'] + pad_int(dt.hour as int, 2) + pad_int(dt.minute as int, 2)
        + pad_int(dt.second as int, 2) + seq!['Z']
}

/// Whether `t` is the UTC `DATE-TIME` value of the epoch-seconds instant `epoch`: the value of the
/// UTC date and time that lies `epoch` seconds after the Unix epoch, and for an instant outside of
/// the supported range the value of the Unix epoch itself.
pub open spec fn is_utc_text_of(epoch: int, t: Seq<char>) -> bool {
    if epoch_in_range(epoch) {
        exists|dt: UtcDateTime|
            #![trigger dt.epoch_seconds()]
            dt.is_valid() && dt.epoch_seconds() == epoch && t == utc_text(dt)
    } else {
        t == utc_text(unix_epoch())
    }
}

/// Appends the `DATE-TIME` value of `dt`.
fn push_utc_text(out: &mut String, dt: UtcDateTime)
    ensures
        final(out)@ == old(out)@ + utc_text(dt),
{
    push_padded_int(out, dt.year as i32, 4);
    push_padded_int(out, dt.month as i32, 2);
    push_padded_int(out, dt.day as i32, 2);
    push_char(out, 'T');
    push_padded_int(out, dt.hour as i32, 2);
    push_padded_int(out, dt.minute as i32, 2);
    push_padded_int(out, dt.second as i32, 2);
    push_char(out, 'Z');
    assert(out@ =~= old(out)@ + utc_text(dt));
}

/// Format an epoch-seconds instant as a UTC `DATE-TIME` (`YYYYMMDDTHHMMSSZ`, RFC 5545 3.3.5).
///
/// An out-of-range epoch falls back to the Unix epoch instead of failing, so the serializer stays
/// infallible.
pub fn epoch_to_ics_utc(epoch: i64) -> (r: String)
    ensures
        is_utc_text_of(epoch as int, r@),
{
    let mut out = String::new();
    match utc_datetime_of_epoch(epoch) {
        Some(dt) => {
            push_utc_text(&mut out, dt);
            assert(Seq::<char>::empty() + utc_text(dt) =~= utc_text(dt));
            assert(dt.is_valid() && dt.epoch_seconds() == epoch && out@ == utc_text(dt));
        },
        None => {
            let e = UtcDateTime { year: 1970, month: 1, day: 1, hour: 0, minute: 0, second: 0 };
            push_utc_text(&mut out, e);
            assert(Seq::<char>::empty() + utc_text(e) =~= utc_text(e));
        },
    }
    out
}

/// Format a civil date as an iCalendar `DATE` value (`YYYYMMDD`, RFC 5545 3.3.4).
pub fn format_ics_date(date: Date) -> (r: String)
    ensures
        r@ == date_text(date@),
{
    let mut out = String::new();
    push_padded_int(&mut out, date.year() as i32, 4);
    push_padded_int(&mut out, date.month() as i32, 2);
    push_padded_int(&mut out, date.day() as i32, 2);
    assert(out@ =~= date_text(date@));
    out
}

// ---------------------------------------------------------------------------------------------
// Wall-clock times in a time zone
// ---------------------------------------------------------------------------------------------
#[verifier::external_type_specification]
#[verifier::external_body]
pub struct ExTimeZone(jiff::tz::TimeZone);

/// A time zone as it was looked up, with the name it was looked up by. Only
/// [`time_zone_named`] makes one.
struct NamedZone {
    name: String,
    zone: jiff::tz::TimeZone,
}

/// Whether `name` is `UTC` in any case, which jiff's time-zone lookup always resolves to UTC.
pub open spec fn is_utc_name(name: Seq<char>) -> bool {
    &&& name.len() == 3
    &&& (name[0] == 'u' || name[0] == 'U')
    &&& (name[1] == 't' || name[1] == 'T')
    &&& (name[2] == 'c' || name[2] == 'C')
}

/// Loads the IANA time zone `name` (`jiff::tz::TimeZone::get`) and keeps it with its name, or
/// gives the text of jiff's error. Which names load depends on the time-zone database of the
/// system, so only the name of a loaded zone is stated.
#[verifier::external_body]
fn time_zone_named(name: &str) -> (r: Result<NamedZone, String>)
    ensures
        r matches Ok(z) ==> z.name@ == name@,
{
    match jiff::tz::TimeZone::get(name) {
        Ok(zone) => Ok(NamedZone { name: name.to_string(), zone }),
        Err(e) => Err(e.to_string()),
    }
}

/// The text of jiff's error for the day after a date (`jiff::civil::date`, then
/// `jiff::civil::Date::tomorrow`), empty when there is such a day; the text itself is jiff's and
/// is not stated.
#[verifier::external_body]
fn day_after_error(year: i16, month: i8, day: i8) -> String
    requires
        valid_date(year as int, month as int, day as int),
{
    match jiff::civil::date(year, month, day).tomorrow() {
        Ok(_) => String::new(),
        Err(e) => e.to_string(),
    }
}

/// The largest distance of a time-zone offset from UTC that jiff supports, in seconds
/// (25:59:59).
pub open spec fn max_offset_seconds() -> int {
    93599
}

/// Seconds since the Unix epoch of a wall-clock date and minute read as if it were UTC.
pub open spec fn wall_clock_seconds(d: CivilDate, minute_of_day: int) -> int {
    d.days_since_epoch() * 86400 + minute_of_day * 60
}

/// The epoch seconds of the wall-clock time `hour:minute:00` on a date in the time zone `zone`
/// (`jiff::civil::date(..).at(..)` then `jiff::civil::DateTime::to_zoned` and the zoned value's
/// `timestamp().as_second()`), or the text of jiff's error. A time in a gap or fold of the zone
/// resolves with jiff's `compatible` strategy, which subtracts one of the zone's offsets, so the
/// instant lies within the largest supported offset of the wall-clock time read as UTC; which
/// offset applies depends on the zone's rules, which this contract leaves open, but for a zone
/// looked up as `UTC`, which jiff guarantees to be UTC, the offset is zero.
#[verifier::external_body]
fn wall_clock_to_epoch(
    year: i16,
    month: i8,
    day: i8,
    hour: i8,
    minute: i8,
    zone: &NamedZone,
) -> (r: Result<i64, String>)
    requires
        valid_date(year as int, month as int, day as int),
        0 <= hour < 24,
        0 <= minute < 60,
    ensures
        r matches Ok(e) ==> {
            let local = wall_clock_seconds(
                CivilDate { year: year as int, month: month as int, day: day as int },
                hour * 60 + minute,
            );
            &&& epoch_in_range(e as int)
            &&& local - max_offset_seconds() <= e <= local + max_offset_seconds()
            &&& is_utc_name(zone.name@) ==> e == local
        },
{
    let civil = jiff::civil::date(year, month, day).at(hour, minute, 0, 0);
    match civil.to_zoned(zone.zone.clone()) {
        Ok(zoned) => Ok(zoned.timestamp().as_second()),
        Err(e) => Err(e.to_string()),
    }
}

/// Failure converting a civil wall-clock time into a UTC iCalendar stamp.
#[derive(Debug, Clone)]
pub enum TimeError {
    /// The IANA time-zone identifier could not be loaded.
    UnknownTimezone(String),
    /// The civil instant has no representable UTC mapping: the end-of-day rollover runs past the
    /// last supported date, or the zoned timestamp overflows jiff's supported range.
    Unresolvable(String),
}

/// The wall-clock date and minute that a `minute_of_day` clamped to `0..=1440` names: minute
/// 1440 (24:00) is 00:00 of the next day.
pub open spec fn wall_clock(date: CivilDate, minute_of_day: int) -> (CivilDate, int) {
    let m = if minute_of_day > 1440 {
        1440
    } else {
        minute_of_day
    };
    if m == 1440 {
        (date.next_day(), 0)
    } else {
        (date, m)
    }
}

/// Whether `t` is a UTC `DATE-TIME` value that a wall-clock time can convert to: the value of an
/// instant in jiff's range within the largest zone offset of the wall-clock time read as UTC.
pub open spec fn is_zoned_text_of(date: CivilDate, minute_of_day: int, t: Seq<char>) -> bool {
    let (d, m) = wall_clock(date, minute_of_day);
    exists|e: int|
        #![trigger is_utc_text_of(e, t)]
        epoch_in_range(e) && wall_clock_seconds(d, m) - max_offset_seconds() <= e
            <= wall_clock_seconds(d, m) + max_offset_seconds() && is_utc_text_of(e, t)
}

/// Minute 1440 (24:00) of a day names the same wall-clock time as minute 0 of the next day, so
/// the UTC values that either converts to are the same ones.
pub proof fn lemma_end_of_day_is_next_midnight(d: CivilDate, t: Seq<char>)
    ensures
        wall_clock(d, 1440) == wall_clock(d.next_day(), 0),
        is_zoned_text_of(d, 1440, t) <==> is_zoned_text_of(d.next_day(), 0, t),
        forall|tz: Seq<char>|
            #[trigger] zoned_text_in(tz, d, 1440, t) <==> zoned_text_in(tz, d.next_day(), 0, t),
{
}

/// A minute of the day before 1440 names that very minute of the same day, hour `minute / 60` and
/// minute `minute % 60`, whose seconds since the epoch read as UTC are those of the day plus that
/// hour and minute; minute 1440 and every later one name midnight of the next day.
pub proof fn lemma_wall_clock_minute(d: CivilDate, m: int)
    requires
        0 <= m,
    ensures
        m < 1440 ==> wall_clock(d, m) == (d, m),
        m < 1440 ==> wall_clock_seconds(wall_clock(d, m).0, wall_clock(d, m).1)
            == d.days_since_epoch() * 86400 + (m / 60) * 3600 + (m % 60) * 60,
        m >= 1440 ==> wall_clock(d, m) == (d.next_day(), 0int),
{
    if m < 1440 {
        assert(m == (m / 60) * 60 + m % 60);
    }
}

/// A minute past 1440 names the same wall-clock time as 1440 itself: the minute is clamped.
pub proof fn lemma_minute_is_clamped(tz: Seq<char>, d: CivilDate, m: int, t: Seq<char>)
    requires
        m > 1440,
    ensures
        wall_clock(d, m) == wall_clock(d, 1440),
        zoned_text_in(tz, d, m, t) <==> zoned_text_in(tz, d, 1440, t),
{
}

/// A converted wall-clock time is the value of a valid UTC date and time, so its hour is one of
/// `00` to `23`, never `24`.
pub proof fn lemma_zoned_text_hour_below_24(tz: Seq<char>, d: CivilDate, m: int, t: Seq<char>)
    requires
        zoned_text_in(tz, d, m, t),
    ensures
        exists|dt: UtcDateTime| #![auto] dt.is_valid() && 0 <= dt.hour < 24 && t == utc_text(dt),
{
    let (wd, wm) = wall_clock(d, m);
    let e = choose|e: int|
        #![trigger is_utc_text_of(e, t)]
        epoch_in_range(e) && wall_clock_seconds(wd, wm) - max_offset_seconds() <= e
            <= wall_clock_seconds(wd, wm) + max_offset_seconds() && is_utc_text_of(e, t);
    let dt = choose|dt: UtcDateTime|
        #![trigger dt.epoch_seconds()]
        dt.is_valid() && dt.epoch_seconds() == e && t == utc_text(dt);
    assert(dt.is_valid() && 0 <= dt.hour < 24 && t == utc_text(dt));
}

/// The last supported date, 9999-12-31.
pub open spec fn last_date() -> CivilDate {
    CivilDate { year: 9999, month: 12, day: 31 }
}

/// The minute of the day clamped to `0..=1440`.
pub open spec fn clamped_minute(minute_of_day: int) -> int {
    if minute_of_day > 1440 {
        1440
    } else {
        minute_of_day
    }
}

/// A date as jiff writes it: `YYYY-MM-DD`, a negative year as `-00` and four digits of its
/// magnitude.
pub open spec fn iso_date_text(d: CivilDate) -> Seq<char> {
    (if d.year < 0 {
        seq!['-', '0', '0'] + pad_nat((-d.year) as nat, 4)
    } else {
        pad_nat(d.year as nat, 4)
    }) + seq!['-'] + pad_nat(d.month as nat, 2) + seq!['-'] + pad_nat(d.day as nat, 2)
}

impl TimeError {
    /// The message that explains the failure.
    pub fn message(&self) -> (r: String)
        ensures
            r@ == match self {
                TimeError::UnknownTimezone(detail) => "unknown time zone ("@ + detail@ + ")"@,
                TimeError::Unresolvable(detail) => "unresolvable civil time ("@ + detail@ + ")"@,
            },
    {
        let mut r = String::new();
        match self {
            TimeError::UnknownTimezone(detail) => {
                r.append("unknown time zone (");
                r.append(detail.as_str());
            },
            TimeError::Unresolvable(detail) => {
                r.append("unresolvable civil time (");
                r.append(detail.as_str());
            },
        }
        r.append(")");
        r
    }
}

/// What converting the wall-clock time `date` plus `minute_of_day` (clamped to `0..=1440`) in the
/// zone named `tz` gives, once the zone lookup and the conversion have answered: `zone_error` is
/// the text of the lookup's error, if it failed, and `epoch` the instant of the conversion or the
/// text of its error (it is not looked at when the lookup failed).
pub fn zoned_outcome(
    date: Date,
    minute_of_day: u16,
    tz: &str,
    zone_error: Option<String>,
    epoch: Result<i64, String>,
) -> (r: Result<String, TimeError>)
    ensures
        match zone_error {
            Some(e) => r matches Err(TimeError::UnknownTimezone(d)) && d@ == tz@ + ": "@ + e@,
            None => match epoch {
                Err(e) => r matches Err(TimeError::Unresolvable(d)) && d@ == iso_date_text(date@)
                    + seq![' '] + decimal(clamped_minute(minute_of_day as int) as nat) + "min: "@
                    + e@,
                Ok(s) => r matches Ok(t) && is_utc_text_of(s as int, t@),
            },
        },
{
    match zone_error {
        Some(e) => {
            let mut detail = string_of(tz);
            detail.append(": ");
            detail.append(e.as_str());
            Err(TimeError::UnknownTimezone(detail))
        },
        None => match epoch {
            Ok(s) => Ok(epoch_to_ics_utc(s)),
            Err(e) => {
                let minute: u16 = if minute_of_day > 1440 {
                    1440
                } else {
                    minute_of_day
                };
                let mut detail = String::new();
                push_iso_date(&mut detail, date);
                push_char(&mut detail, ' ');
                push_decimal(&mut detail, minute as u64);
                detail.append("min: ");
                detail.append(e.as_str());
                Err(TimeError::Unresolvable(detail))
            },
        },
    }
}

/// The wall-clock date, hour and minute that `minute_of_day` (clamped to `0..=1440`) names on
/// `date`: 24:00 is 00:00 of the next day; `None` when that day is past the last supported date.
pub fn wall_clock_parts(date: Date, minute_of_day: u16) -> (r: Option<(Date, i8, i8)>)
    ensures
        r is None <==> (minute_of_day >= 1440 && date@ == last_date()),
        r matches Some((d, h, m)) ==> {
            &&& 0 <= h < 24
            &&& 0 <= m < 60
            &&& (d@, h * 60 + m) == wall_clock(date@, minute_of_day as int)
        },
        minute_of_day < 1440 ==> (r matches Some((d, h, m)) && d@ == date@ && h == minute_of_day
            / 60 && m == minute_of_day % 60),
        minute_of_day >= 1440 ==> (r matches Some((d, h, m)) ==> d@ == date@.next_day() && h == 0
            && m == 0),
{
    let minute_of_day = if minute_of_day > 1440 {
        1440
    } else {
        minute_of_day
    };
    if minute_of_day == 1440 {
        match date.tomorrow() {
            Some(next) => Some((next, 0, 0)),
            None => None,
        }
    } else {
        Some((date, (minute_of_day / 60) as i8, (minute_of_day % 60) as i8))
    }
}

/// What a `Unresolvable` detail for the missing day after `d` starts with.
pub open spec fn day_after_prefix(d: CivilDate) -> Seq<char> {
    "day after "@ + iso_date_text(d) + ": "@
}

/// Whether `detail` tells of the missing day after `d`.
pub open spec fn is_day_after_detail(d: CivilDate, detail: Seq<char>) -> bool {
    detail.len() >= day_after_prefix(d).len() && detail.take(day_after_prefix(d).len() as int)
        == day_after_prefix(d)
}

/// Whether `t` is a UTC `DATE-TIME` value that the wall-clock time `date` plus `minute_of_day`
/// in the zone named `tz` can convert to: one within the largest zone offset, and for a zone
/// named `UTC` the value of the wall-clock time itself.
pub open spec fn zoned_text_in(tz: Seq<char>, date: CivilDate, minute_of_day: int, t: Seq<char>) -> bool {
    &&& is_zoned_text_of(date, minute_of_day, t)
    &&& is_utc_name(tz) ==> {
        let (d, m) = wall_clock(date, minute_of_day);
        is_utc_text_of(wall_clock_seconds(d, m), t)
    }
}

proof fn lemma_iso_date_head(d: CivilDate)
    ensures
        iso_date_text(d).len() > 0,
        iso_date_text(d)[0] != 'd',
{
    let y = if d.year < 0 {
        (-d.year) as nat
    } else {
        d.year as nat
    };
    crate::kernel::lemma_decimal_facts(y);
    let p = pad_nat(y, 4);
    if decimal(y).len() >= 4 {
        assert(p[0] == decimal(y)[0]);
        assert(crate::text::is_digit(decimal(y)[0]));
    } else {
        assert(p[0] == '0');
    }
}

/// Convert a civil `date` plus a `minute_of_day` wall-clock value in `tz` into a UTC `DATE-TIME`
/// stamp, handling two RFC 5545 corner cases:
///
/// - The minute is a *local* wall-clock value, so it maps to a true UTC instant DST-correctly
///   (RFC 5545 3.2/3.6.5) rather than stamping the local digits with a bare `Z`.
/// - Minute `1440` is `24:00`, an inclusive end-of-day that is illegal as hour 24 (RFC 5545
///   3.3.12); it rolls to `00:00` of the next civil day - the same instant - preserving the
///   duration.
///
/// `minute_of_day` is clamped to `0..=1440`; an out-of-range value is silently accepted at the
/// clamp boundary. `tz` is any IANA identifier (for example `Europe/Berlin`). The wall-clock time
/// is [`wall_clock_parts`], converted in the zone looked up by the name `tz`; whether that zone
/// loads, and the offset that applies, depend on the system's time-zone database; what follows
/// the lookup and the conversion is [`zoned_outcome`].
pub fn local_to_ics_utc(date: Date, minute_of_day: u16, tz: &str) -> (r: Result<String, TimeError>)
    ensures
        (r matches Err(TimeError::Unresolvable(d)) && is_day_after_detail(date@, d@)) <==> (
        minute_of_day >= 1440 && date@ == last_date()),
        r matches Ok(t) ==> zoned_text_in(tz@, date@, minute_of_day as int, t@),
        r matches Ok(t) ==> ((is_utc_name(tz@) && minute_of_day < 1440) ==> is_utc_text_of(
            date@.days_since_epoch() * 86400 + (minute_of_day / 60) * 3600 + (minute_of_day % 60)
                * 60,
            t@,
        )),
        r matches Err(TimeError::UnknownTimezone(d)) ==> d@.len() >= tz@.len() + 2 && d@.take(
            (tz@.len() + 2) as int,
        ) == tz@ + ": "@,
{
    let (day, hour, minute) = match wall_clock_parts(date, minute_of_day) {
        Some(parts) => parts,
        None => {
            proof {
                use_type_invariant(&date);
            }
            let mut detail = string_of("day after ");
            push_iso_date(&mut detail, date);
            detail.append(": ");
            let e = day_after_error(date.year(), date.month(), date.day());
            detail.append(e.as_str());
            proof {
                assert(detail@.take(day_after_prefix(date@).len() as int) =~= day_after_prefix(
                    date@,
                ));
            }
            return Err(TimeError::Unresolvable(detail));
        },
    };
    match time_zone_named(tz) {
        Err(e) => {
            let r = zoned_outcome(date, minute_of_day, tz, Some(e), Err(String::new()));
            proof {
                if let Err(TimeError::UnknownTimezone(d)) = &r {
                    reveal_strlit(": ");
                    assert(d@.take((tz@.len() + 2) as int) =~= tz@ + ": "@);
                }
            }
            r
        },
        Ok(zone) => {
            proof {
                use_type_invariant(&day);
            }
            let epoch = wall_clock_to_epoch(day.year(), day.month(), day.day(), hour, minute, &zone);
            let r = zoned_outcome(date, minute_of_day, tz, None, epoch);
            proof {
                if let Ok(t) = &r {
                    let s = epoch.unwrap();
                    let (d, m) = wall_clock(date@, minute_of_day as int);
                    assert(d == day@ && m == hour * 60 + minute);
                    assert(is_utc_text_of(s as int, t@));
                }
                if let Err(TimeError::Unresolvable(d)) = &r {
                    reveal_strlit("day after ");
                    lemma_iso_date_head(date@);
                    if is_day_after_detail(date@, d@) {
                        assert(d@[0] == day_after_prefix(date@)[0]);
                        assert(d@[0] == iso_date_text(date@)[0]);
                    }
                }
            }
            r
        },
    }
}

/// Appends a date as jiff writes it.
fn push_iso_date(out: &mut String, date: Date)
    ensures
        final(out)@ == old(out)@ + iso_date_text(date@),
{
    proof {
        use_type_invariant(&date);
    }
    let year = date.year();
    if year < 0 {
        push_char(out, '-');
        push_char(out, '0');
        push_char(out, '0');
        push_padded_nat(out, (-(year as i32)) as u64, 4);
    } else {
        push_padded_nat(out, year as u64, 4);
    }
    push_char(out, '-');
    push_padded_nat(out, date.month() as u64, 2);
    push_char(out, '-');
    push_padded_nat(out, date.day() as u64, 2);
    assert(out@ =~= old(out)@ + iso_date_text(date@));
}

} // verus!
