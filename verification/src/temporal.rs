//! Dates, clock times, local date-times and UTC instants: their canonical
//! text shapes, and their parsing and formatting by `chrono`.

use chrono::{Datelike, NaiveDate, NaiveTime, Timelike};
use vstd::prelude::*;

use crate::data_type::DataType;
use crate::error::{text_error, DataConversionError, DataConversionErrorKind};
use crate::text::{all_digits, char_is_ascii_digit, chars_of, copy_range, is_ascii_digit};
use crate::decimal::{digit_char, string_from_chars};

verus! {

/// A calendar date without a time zone, as `chrono`'s `NaiveDate` reports
/// it: year, month and day.
#[derive(Clone, Copy, Debug, PartialEq, Eq)]
pub struct Date {
    year: i32,
    month: u32,
    day: u32,
}

/// A clock time without a date or time zone, as `chrono`'s `NaiveTime`
/// reports it: hour, minute, second and nanosecond (a leap second carries a
/// nanosecond of at least one billion).
#[derive(Clone, Copy, Debug, PartialEq, Eq)]
pub struct Time {
    hour: u32,
    minute: u32,
    second: u32,
    nanosecond: u32,
}

/// A local date and time without a time zone.
#[derive(Clone, Copy, Debug, PartialEq, Eq)]
pub struct DateTime {
    date: Date,
    time: Time,
}

/// A UTC instant: whole seconds since the Unix epoch and the nanoseconds
/// past them.
#[derive(Clone, Copy, Debug, PartialEq, Eq)]
pub struct Instant {
    seconds: i64,
    nanosecond: u32,
}

impl Date {
    /// Year, month and day.
    pub closed spec fn fields(&self) -> (int, int, int) {
        (self.year as int, self.month as int, self.day as int)
    }
}

impl View for Date {
    type V = (int, int, int);

    open spec fn view(&self) -> (int, int, int) {
        self.fields()
    }
}

impl Time {
    /// Hour, minute, second and nanosecond.
    pub closed spec fn fields(&self) -> (int, int, int, int) {
        (self.hour as int, self.minute as int, self.second as int, self.nanosecond as int)
    }
}

impl View for Time {
    type V = (int, int, int, int);

    open spec fn view(&self) -> (int, int, int, int) {
        self.fields()
    }
}

impl DateTime {
    /// The date and the time.
    pub closed spec fn fields(&self) -> ((int, int, int), (int, int, int, int)) {
        (self.date@, self.time@)
    }
}

impl View for DateTime {
    type V = ((int, int, int), (int, int, int, int));

    open spec fn view(&self) -> ((int, int, int), (int, int, int, int)) {
        self.fields()
    }
}

impl Instant {
    /// Seconds since the Unix epoch and nanoseconds past them.
    pub closed spec fn fields(&self) -> (int, int) {
        (self.seconds as int, self.nanosecond as int)
    }
}

impl View for Instant {
    type V = (int, int);

    open spec fn view(&self) -> (int, int) {
        self.fields()
    }
}

/// The date `chrono`'s `NaiveDate::parse_from_str` reads from text with the
/// format `%Y-%m-%d`, or `None` where it reports an error.
pub uninterp spec fn parsed_date(text: Seq<char>) -> Option<(int, int, int)>;

/// The time `chrono`'s `NaiveTime::parse_from_str` reads from text with the
/// format `%H:%M:%S%.f`, or `None` where it reports an error.
pub uninterp spec fn parsed_time(text: Seq<char>) -> Option<(int, int, int, int)>;

/// The UTC instant `chrono`'s `DateTime::parse_from_rfc3339` reads from text,
/// or `None` where it reports an error.
pub uninterp spec fn parsed_instant(text: Seq<char>) -> Option<(int, int)>;

/// Whether a year is a leap year of the proleptic Gregorian calendar.
pub open spec fn is_leap_year(year: int) -> bool {
    year % 4 == 0 && (year % 100 != 0 || year % 400 == 0)
}

/// The number of days of a month, from 1, in a year.
pub open spec fn days_in_month(year: int, month: int) -> int {
    if month == 2 {
        if is_leap_year(year) {
            29
        } else {
            28
        }
    } else if month == 4 || month == 6 || month == 9 || month == 11 {
        30
    } else {
        31
    }
}

/// Whether `chrono`'s `NaiveDate::from_ymd_opt` accepts a year, month and
/// day: a day of the proleptic Gregorian calendar in the years `chrono`
/// represents, -262143 through 262142.
pub open spec fn is_calendar_date(year: int, month: int, day: int) -> bool {
    &&& -262_143 <= year <= 262_142
    &&& 1 <= month <= 12
    &&& 1 <= day <= days_in_month(year, month)
}

/// Whether `chrono`'s `NaiveTime::from_hms_nano_opt` accepts an hour,
/// minute, second and nanosecond: a nanosecond of one billion or more marks
/// a leap second, which only second 59 may carry.
pub open spec fn is_clock_time(hour: int, minute: int, second: int, nanosecond: int) -> bool {
    &&& 0 <= hour < 24
    &&& 0 <= minute < 60
    &&& 0 <= second < 60
    &&& 0 <= nanosecond < 2_000_000_000
    &&& nanosecond >= 1_000_000_000 ==> second == 59
}

/// The last `width` decimal digits of `v`, zero-padded.
pub open spec fn padded_digits(v: nat, width: nat) -> Seq<char>
    decreases width,
{
    if width == 0 {
        Seq::empty()
    } else {
        padded_digits(v / 10, (width - 1) as nat).push(digit_char(v % 10))
    }
}

/// The fraction of a second as `chrono` writes it: nothing for zero, else a
/// point and three, six or nine digits, the fewest that hold it exactly.
pub open spec fn fraction_text(nanosecond: int) -> Seq<char> {
    if nanosecond == 0 {
        Seq::empty()
    } else if nanosecond % 1_000_000 == 0 {
        seq!['.'] + padded_digits((nanosecond / 1_000_000) as nat, 3)
    } else if nanosecond % 1_000 == 0 {
        seq!['.'] + padded_digits((nanosecond / 1_000) as nat, 6)
    } else {
        seq!['.'] + padded_digits(nanosecond as nat, 9)
    }
}

/// A clock time as `HH:MM:SS` and its fraction of a second; a leap second
/// shows as second 60.
pub open spec fn canonical_time_text(time: (int, int, int, int)) -> Seq<char> {
    let leap = time.3 >= 1_000_000_000;
    let second = if leap {
        time.2 + 1
    } else {
        time.2
    };
    let nanosecond = if leap {
        time.3 - 1_000_000_000
    } else {
        time.3
    };
    padded_digits(time.0 as nat, 2) + seq![':'] + padded_digits(time.1 as nat, 2) + seq![':']
        + padded_digits(second as nat, 2) + fraction_text(nanosecond)
}

/// A date as `YYYY-MM-DD`, each field zero-padded to its width.
pub open spec fn canonical_date_text(date: (int, int, int)) -> Seq<char> {
    padded_digits(date.0 as nat, 4) + seq!['-'] + padded_digits(date.1 as nat, 2) + seq!['-']
        + padded_digits(date.2 as nat, 2)
}

/// Whether `chrono`'s `DateTime::from_timestamp` accepts a Unix timestamp and
/// nanoseconds: the second falls on a day from January 1 of year -262143
/// through December 31 of year 262142, and a nanosecond of one billion or
/// more marks a leap second, which only the last second of a minute may
/// carry.
pub open spec fn is_timestamp(seconds: int, nanosecond: int) -> bool {
    &&& -8_334_601_228_800 <= seconds <= 8_210_266_876_799
    &&& 0 <= nanosecond < 2_000_000_000
    &&& nanosecond >= 1_000_000_000 ==> seconds % 60 == 59
}

/// The text `chrono` formats a date into with `%Y-%m-%d`.
pub uninterp spec fn date_display(date: (int, int, int)) -> Seq<char>;

/// The text `chrono`'s `Display` writes for a time.
pub uninterp spec fn time_display(time: (int, int, int, int)) -> Seq<char>;

/// The text `chrono` formats a date-time into with `%Y-%m-%dT%H:%M:%S%.f`.
pub uninterp spec fn date_time_display(value: ((int, int, int), (int, int, int, int))) -> Seq<
    char,
>;

/// The text `chrono`'s `DateTime::to_rfc3339` writes for a UTC instant.
pub uninterp spec fn instant_display(instant: (int, int)) -> Seq<char>;

/// Parses a date: `chrono`'s `NaiveDate::parse_from_str` with `%Y-%m-%d`,
/// kept as its year, month and day. The contract claims only that the outcome
/// is the named parse of the text.
#[verifier::external_body]
fn chrono_parse_date(text: &str) -> (parsed: Option<Date>)
    ensures
        match parsed {
            Some(d) => parsed_date(text@) == Some(d@),
            None => parsed_date(text@) is None,
        },
{
    match NaiveDate::parse_from_str(text, "%Y-%m-%d") {
        Ok(date) => Some(Date { year: date.year(), month: date.month(), day: date.day() }),
        Err(_) => None,
    }
}

/// Parses a time: `chrono`'s `NaiveTime::parse_from_str` with
/// `%H:%M:%S%.f`, kept as its fields. The contract claims only that the
/// outcome is the named parse of the text.
#[verifier::external_body]
fn chrono_parse_time(text: &str) -> (parsed: Option<Time>)
    ensures
        match parsed {
            Some(t) => parsed_time(text@) == Some(t@),
            None => parsed_time(text@) is None,
        },
{
    match NaiveTime::parse_from_str(text, "%H:%M:%S%.f") {
        Ok(time) => Some(Time {
            hour: time.hour(),
            minute: time.minute(),
            second: time.second(),
            nanosecond: time.nanosecond(),
        }),
        Err(_) => None,
    }
}

/// Parses an RFC 3339 timestamp: `chrono`'s `DateTime::parse_from_rfc3339`
/// moved to UTC, kept as its Unix timestamp and sub-second nanoseconds. The
/// contract claims only that the outcome is the named parse of the text.
#[verifier::external_body]
fn chrono_parse_instant(text: &str) -> (parsed: Option<Instant>)
    ensures
        match parsed {
            Some(i) => parsed_instant(text@) == Some(i@),
            None => parsed_instant(text@) is None,
        },
{
    match chrono::DateTime::parse_from_rfc3339(text) {
        Ok(value) => {
            let utc = value.with_timezone(&chrono::Utc);
            Some(Instant { seconds: utc.timestamp(), nanosecond: utc.timestamp_subsec_nanos() })
        },
        Err(_) => None,
    }
}

/// Builds a date from its fields: `chrono`'s `NaiveDate::from_ymd_opt`. The
/// contract claims that a date is returned, holding the given fields, exactly
/// when they name a Gregorian calendar day in `chrono`'s year range.
#[verifier::external_body]
fn chrono_date(year: i32, month: u32, day: u32) -> (date: Option<Date>)
    ensures
        date is Some <==> is_calendar_date(year as int, month as int, day as int),
        date matches Some(d) ==> d@ == (year as int, month as int, day as int),
{
    match NaiveDate::from_ymd_opt(year, month, day) {
        Some(date) => Some(Date { year: date.year(), month: date.month(), day: date.day() }),
        None => None,
    }
}

/// Builds a time from its fields: `chrono`'s `NaiveTime::from_hms_nano_opt`.
/// The contract claims that a time is returned, holding the given fields,
/// exactly when they are in range, a leap second only at second 59.
#[verifier::external_body]
fn chrono_time(hour: u32, minute: u32, second: u32, nanosecond: u32) -> (time: Option<Time>)
    ensures
        time is Some <==> is_clock_time(hour as int, minute as int, second as int, nanosecond as int),
        time matches Some(t) ==> t@ == (hour as int, minute as int, second as int, nanosecond as int),
{
    match NaiveTime::from_hms_nano_opt(hour, minute, second, nanosecond) {
        Some(t) => Some(Time { hour: t.hour(), minute: t.minute(), second: t.second(), nanosecond: t.nanosecond() }),
        None => None,
    }
}

/// Builds a UTC instant: `chrono`'s `DateTime::from_timestamp`. The contract
/// claims that an instant is returned, holding the given timestamp, exactly
/// when the timestamp falls in `chrono`'s date range and a leap-second
/// nanosecond falls on the last second of a minute.
#[verifier::external_body]
fn chrono_instant(seconds: i64, nanosecond: u32) -> (instant: Option<Instant>)
    ensures
        instant is Some <==> is_timestamp(seconds as int, nanosecond as int),
        instant matches Some(i) ==> i@ == (seconds as int, nanosecond as int),
{
    match chrono::DateTime::from_timestamp(seconds, nanosecond) {
        Some(v) => Some(Instant { seconds: v.timestamp(), nanosecond: v.timestamp_subsec_nanos() }),
        None => None,
    }
}

/// Formats a date: `chrono`'s `format("%Y-%m-%d")` of the `NaiveDate` with
/// the date's fields (empty text where `chrono` rejects them, which no
/// `Date` holds). The contract claims the named display, which for a
/// calendar date of the years 0 through 9999 is the zero-padded
/// `YYYY-MM-DD` (`chrono` pads `%Y` to four digits in that range, and `%m`
/// and `%d` to two).
#[verifier::external_body]
fn chrono_format_date(date: Date) -> (text: String)
    ensures
        text@ == date_display(date@),
        0 <= date@.0 <= 9999 && is_calendar_date(date@.0, date@.1, date@.2) ==> text@
            == canonical_date_text(date@),
{
    match NaiveDate::from_ymd_opt(date.year, date.month, date.day) {
        Some(value) => value.format("%Y-%m-%d").to_string(),
        None => String::new(),
    }
}

/// Formats a time: `chrono`'s `Display` of the `NaiveTime` with the time's
/// fields (empty text where `chrono` rejects them, which no `Time` holds).
/// The contract claims the named display, which for a clock time is
/// `HH:MM:SS` and the fraction of a second (`chrono`'s `Debug` for
/// `NaiveTime`, which its `Display` calls).
#[verifier::external_body]
fn chrono_format_time(time: Time) -> (text: String)
    ensures
        text@ == time_display(time@),
        is_clock_time(time@.0, time@.1, time@.2, time@.3) ==> text@ == canonical_time_text(time@),
{
    match NaiveTime::from_hms_nano_opt(time.hour, time.minute, time.second, time.nanosecond) {
        Some(value) => value.to_string(),
        None => String::new(),
    }
}

/// Formats a date-time: `chrono`'s `format("%Y-%m-%dT%H:%M:%S%.f")` of the
/// `NaiveDateTime` with the value's fields (empty text where `chrono` rejects
/// them, which no `DateTime` holds). The contract claims the named display,
/// which for a calendar date of the years 0 through 9999 and a clock time is
/// the zero-padded date, `T`, and the time as `NaiveTime` displays it
/// (`%S` shows a leap second as 60, `%.f` writes the same fraction).
#[verifier::external_body]
fn chrono_format_date_time(value: DateTime) -> (text: String)
    ensures
        text@ == date_time_display(value@),
        0 <= value@.0.0 <= 9999 && is_calendar_date(value@.0.0, value@.0.1, value@.0.2)
            && is_clock_time(value@.1.0, value@.1.1, value@.1.2, value@.1.3) ==> text@
            == canonical_date_text(value@.0) + seq!['T'] + canonical_time_text(value@.1),
{
    let date = NaiveDate::from_ymd_opt(value.date.year, value.date.month, value.date.day);
    let t = value.time;
    let time = NaiveTime::from_hms_nano_opt(t.hour, t.minute, t.second, t.nanosecond);
    match (date, time) {
        (Some(date), Some(time)) => date.and_time(time).format("%Y-%m-%dT%H:%M:%S%.f").to_string(),
        _ => String::new(),
    }
}

/// Formats a UTC instant: `chrono`'s `DateTime::to_rfc3339` of
/// `DateTime::from_timestamp` (empty text where `chrono` rejects the
/// timestamp, which no `Instant` holds). The contract claims only the named
/// display.
#[verifier::external_body]
fn chrono_format_instant(instant: Instant) -> (text: String)
    ensures
        text@ == instant_display(instant@),
{
    match chrono::DateTime::from_timestamp(instant.seconds, instant.nanosecond) {
        Some(value) => value.to_rfc3339(),
        None => String::new(),
    }
}

/// Text of the form `YYYY-MM-DD`: ten ASCII characters, dashes at positions
/// four and seven and digits elsewhere.
pub open spec fn is_canonical_date_shape(t: Seq<char>) -> bool {
    &&& t.len() == 10
    &&& t[4] == '-'
    &&& t[7] == '-'
    &&& forall|i: int| 0 <= i < 10 && i != 4 && i != 7 ==> is_ascii_digit(#[trigger] t[i])
}

/// Text of the form `HH:MM:SS`: eight ASCII characters, colons at positions
/// two and five and digits elsewhere.
pub open spec fn is_canonical_time_shape(t: Seq<char>) -> bool {
    &&& t.len() == 8
    &&& t[2] == ':'
    &&& t[5] == ':'
    &&& forall|i: int| 0 <= i < 8 && i != 2 && i != 5 ==> is_ascii_digit(#[trigger] t[i])
}

/// Index of the first occurrence of `c` in `t`, or its length.
pub open spec fn first_index_of(t: Seq<char>, c: char) -> int
    decreases t.len(),
{
    if t.len() == 0 {
        0
    } else if t[0] == c {
        0
    } else {
        1 + first_index_of(t.drop_first(), c)
    }
}

/// Canonical time text: `HH:MM:SS`, optionally followed by a point and one
/// to nine digits of fraction.
pub open spec fn is_canonical_time_text(t: Seq<char>) -> bool {
    let k = first_index_of(t, '.');
    if k < t.len() {
        let fraction = t.skip(k + 1);
        is_canonical_time_shape(t.take(k)) && 1 <= fraction.len() <= 9 && all_digits(fraction)
    } else {
        is_canonical_time_shape(t)
    }
}

/// The date canonical text denotes.
pub open spec fn date_text_value(t: Seq<char>) -> Option<(int, int, int)> {
    if is_canonical_date_shape(t) {
        parsed_date(t)
    } else {
        None
    }
}

/// The time canonical text denotes.
pub open spec fn time_text_value(t: Seq<char>) -> Option<(int, int, int, int)> {
    if is_canonical_time_text(t) {
        parsed_time(t)
    } else {
        None
    }
}

/// The date-time canonical text denotes: a date and a time joined by the
/// first `T`.
pub open spec fn date_time_text_value(t: Seq<char>) -> Option<
    ((int, int, int), (int, int, int, int)),
> {
    let k = first_index_of(t, 'T');
    if k < t.len() {
        match (date_text_value(t.take(k)), time_text_value(t.skip(k + 1))) {
            (Some(d), Some(time)) => Some((d, time)),
            _ => None,
        }
    } else {
        None
    }
}

/// The year of a date-time.
pub open spec fn date_time_year(value: ((int, int, int), (int, int, int, int))) -> int {
    let (date, time) = value;
    date.0
}

/// The syntax error of a temporal target.
pub open spec fn temporal_syntax_error(to: DataType, expected: &'static str) -> DataConversionError {
    text_error(to, DataConversionErrorKind::InvalidSyntax { expected })
}

/// Reports whether text has the shape `YYYY-MM-DD`.
pub fn has_canonical_date_shape(value: &str) -> (result: bool)
    ensures
        result == is_canonical_date_shape(value@),
{
    let chars = chars_of(value);
    if chars.len() != 10 || chars[4] != '-' || chars[7] != '-' {
        return false;
    }
    let mut i: usize = 0;
    while i < 10
        invariant
            chars@ == value@,
            chars.len() == 10,
            i <= 10,
            forall|j: int| 0 <= j < i && j != 4 && j != 7 ==> is_ascii_digit(#[trigger] chars@[j]),
        decreases 10 - i,
    {
        if i != 4 && i != 7 && !char_is_ascii_digit(chars[i]) {
            return false;
        }
        i += 1;
    }
    true
}

/// Reports whether text has the shape `HH:MM:SS`.
pub fn has_canonical_time_shape(value: &str) -> (result: bool)
    ensures
        result == is_canonical_time_shape(value@),
{
    let chars = chars_of(value);
    if chars.len() != 8 || chars[2] != ':' || chars[5] != ':' {
        return false;
    }
    let mut i: usize = 0;
    while i < 8
        invariant
            chars@ == value@,
            chars.len() == 8,
            i <= 8,
            forall|j: int| 0 <= j < i && j != 2 && j != 5 ==> is_ascii_digit(#[trigger] chars@[j]),
        decreases 8 - i,
    {
        if i != 2 && i != 5 && !char_is_ascii_digit(chars[i]) {
            return false;
        }
        i += 1;
    }
    true
}

/// Finds the first occurrence of `c`, or the length when there is none.
fn find_char(chars: &Vec<char>, c: char) -> (index: usize)
    ensures
        index == first_index_of(chars@, c),
        index <= chars.len(),
{
    let mut i: usize = 0;
    assert(chars@.skip(0) =~= chars@);
    while i < chars.len() && chars[i] != c
        invariant
            i <= chars.len(),
            forall|j: int| 0 <= j < i ==> #[trigger] chars@[j] != c,
            first_index_of(chars@, c) == i + first_index_of(chars@.skip(i as int), c),
        decreases chars.len() - i,
    {
        assert(chars@.skip(i as int).drop_first() =~= chars@.skip(i + 1));
        i += 1;
    }
    proof {
        if i < chars.len() {
            assert(chars@.skip(i as int)[0] == c);
        } else {
            assert(chars@.skip(i as int).len() == 0);
        }
    }
    i
}

/// Parses canonical `YYYY-MM-DD` text as a date.
pub fn parse_date(value: &str) -> (date: Option<Date>)
    ensures
        match date_text_value(value@) {
            Some(d) => date matches Some(r) && r@ == d,
            None => date is None,
        },
{
    if !has_canonical_date_shape(value) {
        return None;
    }
    chrono_parse_date(value)
}

/// Reports whether text is canonical time text: `HH:MM:SS` with an optional
/// fraction of one to nine digits.
fn is_canonical_time(value: &str) -> (result: bool)
    ensures
        result == is_canonical_time_text(value@),
{
    let chars = chars_of(value);
    let point = find_char(&chars, '.');
    if point < chars.len() {
        let whole = string_from_chars(&copy_range(&chars, 0, point));
        let fraction = copy_range(&chars, point + 1, chars.len());
        assert(whole@ =~= value@.take(point as int));
        assert(fraction@ =~= value@.skip(point + 1));
        if !has_canonical_time_shape(whole.as_str()) || fraction.len() == 0 || fraction.len() > 9 {
            return false;
        }
        let mut i: usize = 0;
        while i < fraction.len()
            invariant
                i <= fraction.len(),
                fraction@ == value@.skip(point + 1),
                point == first_index_of(value@, '.'),
                point < value@.len(),
                forall|j: int| 0 <= j < i ==> is_ascii_digit(#[trigger] fraction@[j]),
            decreases fraction.len() - i,
        {
            if !char_is_ascii_digit(fraction[i]) {
                assert(!all_digits(value@.skip(point + 1))) by {
                    assert(!is_ascii_digit(value@.skip(point + 1)[i as int]));
                }
                return false;
            }
            i += 1;
        }
        assert(all_digits(value@.skip(point + 1)));
        true
    } else {
        has_canonical_time_shape(value)
    }
}

/// Parses canonical `HH:MM:SS[.fraction]` text as a time.
pub fn parse_time(value: &str) -> (time: Option<Time>)
    ensures
        match time_text_value(value@) {
            Some(t) => time matches Some(r) && r@ == t,
            None => time is None,
        },
{
    if !is_canonical_time(value) {
        return None;
    }
    chrono_parse_time(value)
}

/// Parses canonical `YYYY-MM-DDTHH:MM:SS[.fraction]` text as a date-time.
pub fn parse_datetime(value: &str) -> (result: Option<DateTime>)
    ensures
        match date_time_text_value(value@) {
            Some(v) => result matches Some(r) && r@ == v,
            None => result is None,
        },
{
    let chars = chars_of(value);
    let separator = find_char(&chars, 'T');
    if separator == chars.len() {
        return None;
    }
    let date_text = string_from_chars(&copy_range(&chars, 0, separator));
    let time_text = string_from_chars(&copy_range(&chars, separator + 1, chars.len()));
    assert(date_text@ =~= value@.take(separator as int));
    assert(time_text@ =~= value@.skip(separator + 1));
    let date = parse_date(date_text.as_str())?;
    let time = parse_time(time_text.as_str())?;
    Some(DateTime { date, time })
}

/// Parses an RFC 3339 timestamp with an offset as a UTC instant.
pub fn parse_instant(value: &str) -> (result: Option<Instant>)
    ensures
        match parsed_instant(value@) {
            Some(v) => result matches Some(r) && r@ == v,
            None => result is None,
        },
{
    chrono_parse_instant(value)
}

/// The first second of year 0 and the last second of year 9999, in UTC.
pub open spec fn is_canonical_year_instant(seconds: int) -> bool {
    -62_167_219_200 <= seconds <= 253_402_300_799
}

impl Date {
    /// The date with the given fields, or `None` where they name no
    /// calendar date.
    pub fn from_ymd(year: i32, month: u32, day: u32) -> (date: Option<Date>)
        ensures
            date is Some <==> is_calendar_date(year as int, month as int, day as int),
            date matches Some(d) ==> d@ == (year as int, month as int, day as int),
    {
        chrono_date(year, month, day)
    }

    /// The year.
    pub fn year(&self) -> (year: i32)
        ensures
            year as int == self@.0,
    {
        self.year
    }

    /// The month, from 1.
    pub fn month(&self) -> (month: u32)
        ensures
            month as int == self@.1,
    {
        self.month
    }

    /// The day of the month, from 1.
    pub fn day(&self) -> (day: u32)
        ensures
            day as int == self@.2,
    {
        self.day
    }

    /// Formats the date as `YYYY-MM-DD`.
    pub fn format(&self) -> (text: String)
        ensures
            text@ == date_display(self@),
            0 <= self@.0 <= 9999 && is_calendar_date(self@.0, self@.1, self@.2) ==> text@
                == canonical_date_text(self@),
    {
        chrono_format_date(*self)
    }
}

impl Time {
    /// The time with the given fields, or `None` where they name no clock
    /// time.
    pub fn from_hms_nano(hour: u32, minute: u32, second: u32, nanosecond: u32) -> (time: Option<Time>)
        ensures
            time is Some <==> is_clock_time(hour as int, minute as int, second as int, nanosecond as int),
            time matches Some(t) ==> t@ == (hour as int, minute as int, second as int, nanosecond as int),
    {
        chrono_time(hour, minute, second, nanosecond)
    }

    /// The hour, minute, second and nanosecond.
    pub fn to_fields(&self) -> (fields: (u32, u32, u32, u32))
        ensures
            (fields.0 as int, fields.1 as int, fields.2 as int, fields.3 as int) == self@,
    {
        (self.hour, self.minute, self.second, self.nanosecond)
    }

    /// Formats the time as `chrono` displays it: `HH:MM:SS` and the
    /// fraction of a second.
    pub fn format(&self) -> (text: String)
        ensures
            text@ == time_display(self@),
            is_clock_time(self@.0, self@.1, self@.2, self@.3) ==> text@ == canonical_time_text(
                self@,
            ),
    {
        chrono_format_time(*self)
    }
}

impl DateTime {
    /// Joins a date and a time.
    pub fn new(date: Date, time: Time) -> (value: DateTime)
        ensures
            value@ == (date@, time@),
    {
        DateTime { date, time }
    }

    /// The date.
    pub fn date(&self) -> (date: Date)
        ensures
            date@ == self@.0,
    {
        self.date
    }

    /// The time.
    pub fn time(&self) -> (time: Time)
        ensures
            time@ == self@.1,
    {
        self.time
    }

    /// Formats the date-time as `YYYY-MM-DDTHH:MM:SS[.fraction]`.
    pub fn format(&self) -> (text: String)
        ensures
            text@ == date_time_display(self@),
            0 <= self@.0.0 <= 9999 && is_calendar_date(self@.0.0, self@.0.1, self@.0.2)
                && is_clock_time(self@.1.0, self@.1.1, self@.1.2, self@.1.3) ==> text@
                == canonical_date_text(self@.0) + seq!['T'] + canonical_time_text(self@.1),
    {
        chrono_format_date_time(*self)
    }
}

impl Instant {
    /// The instant at a Unix timestamp, or `None` where it is out of
    /// `chrono`'s range.
    pub fn from_timestamp(seconds: i64, nanosecond: u32) -> (instant: Option<Instant>)
        ensures
            instant is Some <==> is_timestamp(seconds as int, nanosecond as int),
            instant matches Some(i) ==> i@ == (seconds as int, nanosecond as int),
    {
        chrono_instant(seconds, nanosecond)
    }

    /// Seconds since the Unix epoch and nanoseconds past them.
    pub fn to_fields(&self) -> (fields: (i64, u32))
        ensures
            (fields.0 as int, fields.1 as int) == self@,
    {
        (self.seconds, self.nanosecond)
    }

    /// Whether the instant falls in a year from 0 through 9999.
    pub fn has_canonical_year(&self) -> (canonical: bool)
        ensures
            canonical == is_canonical_year_instant(self@.0),
    {
        -62_167_219_200 <= self.seconds && self.seconds <= 253_402_300_799
    }

    /// Formats the instant as an RFC 3339 timestamp.
    pub fn format(&self) -> (text: String)
        ensures
            text@ == instant_display(self@),
    {
        chrono_format_instant(*self)
    }
}

} // verus!
