//! Calendar date-times: reading them from metadata text in three layouts and
//! from seconds since 1970, and writing them as the stem of a file name.

use chrono::{DateTime, Datelike, NaiveDateTime, Timelike};
use vstd::prelude::*;
use vstd::string::StringExecFns;

verus! {

/// A calendar date and a time of day, without a time zone.
#[derive(Clone, Copy, Debug, PartialEq, Eq, Structural)]
pub struct Timestamp {
    pub year: i32,
    pub month: u8,
    pub day: u8,
    pub hour: u8,
    pub minute: u8,
    pub second: u8,
}

impl Timestamp {
    /// Whether each field lies in the range that a calendar and a clock
    /// give it. A leap second is the second 60 of its minute.
    pub open spec fn valid(self) -> bool {
        &&& 1 <= self.month <= 12
        &&& 1 <= self.day <= 31
        &&& self.hour <= 23
        &&& self.minute <= 59
        &&& self.second <= 60
    }

    /// Whether this date-time comes before `other`.
    pub open spec fn earlier(self, other: Timestamp) -> bool {
        if self.year != other.year {
            self.year < other.year
        } else if self.month != other.month {
            self.month < other.month
        } else if self.day != other.day {
            self.day < other.day
        } else if self.hour != other.hour {
            self.hour < other.hour
        } else if self.minute != other.minute {
            self.minute < other.minute
        } else {
            self.second < other.second
        }
    }
}

/// The fields of a date-time as `chrono` hands them out. A leap second is
/// held as a second 59 with a thousand million nanoseconds or more.
#[derive(Clone, Copy, Debug, PartialEq, Eq, Structural)]
pub struct Reading {
    pub year: i32,
    pub month: u32,
    pub day: u32,
    pub hour: u32,
    pub minute: u32,
    pub second: u32,
    pub nanosecond: u32,
}

impl Reading {
    /// Whether each field lies in the range that `chrono` gives it.
    pub open spec fn in_range(self) -> bool {
        &&& 1 <= self.month <= 12
        &&& 1 <= self.day <= 31
        &&& self.hour <= 23
        &&& self.minute <= 59
        &&& self.second <= 59
        &&& self.nanosecond <= 1_999_999_999
    }

    /// The date-time that the fields stand for: the second counts the whole
    /// seconds, that of a leap second included.
    pub open spec fn timestamp(self) -> Timestamp {
        Timestamp {
            year: self.year,
            month: self.month as u8,
            day: self.day as u8,
            hour: self.hour as u8,
            minute: self.minute as u8,
            second: (self.second + self.nanosecond / 1_000_000_000) as u8,
        }
    }
}

/// The date-time of an optional reading.
pub open spec fn time_of(reading: Option<Reading>) -> Option<Timestamp> {
    match reading {
        Some(fields) => Some(fields.timestamp()),
        None => None,
    }
}

/// The three metadata fields that hold a date-time.
#[derive(Clone, Copy, Debug, PartialEq, Eq, Structural)]
pub enum DateField {
    /// When the photograph was taken.
    Original,
    /// When the photograph was digitized.
    Digitized,
    /// When the file was last changed.
    Changed,
}

impl DateField {
    /// The number of the field's tag in the metadata.
    pub open spec fn tag(self) -> int {
        match self {
            DateField::Original => 0x9003,
            DateField::Digitized => 0x9004,
            DateField::Changed => 0x0132,
        }
    }
}

/// The layout of metadata text with colons in the date.
pub open spec fn layout_colons() -> Seq<char> {
    "%Y:%m:%d %H:%M:%S"@
}

/// The layout of metadata text with hyphens in the date.
pub open spec fn layout_hyphens() -> Seq<char> {
    "%Y-%m-%d %H:%M:%S"@
}

/// The layout of metadata text with slashes in the date.
pub open spec fn layout_slashes() -> Seq<char> {
    "%Y/%m/%d %H:%M:%S"@
}

/// What `chrono` reads from `text` by the layout `layout`, or `None` where it
/// refuses the text.
pub uninterp spec fn parsed_datetime(text: Seq<char>, layout: Seq<char>) -> Option<Reading>;

/// The date-time in universal time that `chrono` gives for a number of
/// seconds since the start of 1970, or `None` where it has none.
pub uninterp spec fn utc_datetime(seconds: int) -> Option<Reading>;

/// `s` without the characters `c` at its start.
pub open spec fn trimmed_start(s: Seq<char>, c: char) -> Seq<char>
    decreases s.len(),
{
    if s.len() > 0 && s[0] == c {
        trimmed_start(s.drop_first(), c)
    } else {
        s
    }
}

/// `s` without the characters `c` at its end.
pub open spec fn trimmed_end(s: Seq<char>, c: char) -> Seq<char>
    decreases s.len(),
{
    if s.len() > 0 && s.last() == c {
        trimmed_end(s.drop_last(), c)
    } else {
        s
    }
}

/// `s` without the characters `c` at its start and at its end.
pub open spec fn trimmed(s: Seq<char>, c: char) -> Seq<char> {
    trimmed_end(trimmed_start(s, c), c)
}

/// The first of three readings that is a date-time, where one is.
pub open spec fn first_reading(
    a: Option<Timestamp>,
    b: Option<Timestamp>,
    c: Option<Timestamp>,
) -> Option<Timestamp> {
    if a is Some {
        a
    } else if b is Some {
        b
    } else {
        c
    }
}

/// The first date-time that one of the three layouts, tried in the order
/// colons, hyphens, slashes, reads from `text`.
pub open spec fn read_layouts(text: Seq<char>) -> Option<Timestamp> {
    first_reading(
        time_of(parsed_datetime(text, layout_colons())),
        time_of(parsed_datetime(text, layout_hyphens())),
        time_of(parsed_datetime(text, layout_slashes())),
    )
}

/// The date-time that a metadata field gives: its text, stripped of the
/// quotation marks around it, read by the three layouts. A missing field
/// gives none.
pub open spec fn read_field(field: Option<Seq<char>>) -> Option<Timestamp> {
    match field {
        Some(text) => read_layouts(trimmed(text, '"')),
        None => None,
    }
}

/// The time a photograph was taken, as far as its metadata tells: the first
/// of the three fields, in the order given, that holds a date-time.
pub open spec fn capture_time(
    original: Option<Seq<char>>,
    digitized: Option<Seq<char>>,
    changed: Option<Seq<char>>,
) -> Option<Timestamp> {
    first_reading(read_field(original), read_field(digitized), read_field(changed))
}

/// Whether a field holds text from which no date-time can be read.
pub open spec fn unread(field: Option<Seq<char>>) -> bool {
    field is Some && read_field(field) is None
}

/// The fields that were looked at in the search for the capture time and held
/// text from which no date-time could be read, in the order of the search.
/// The search ends at the first field that holds a date-time.
pub open spec fn unread_fields(
    original: Option<Seq<char>>,
    digitized: Option<Seq<char>>,
    changed: Option<Seq<char>>,
) -> Seq<DateField> {
    let first: Seq<DateField> = if unread(original) {
        seq![DateField::Original]
    } else {
        seq![]
    };
    let second: Seq<DateField> = if unread(digitized) {
        seq![DateField::Digitized]
    } else {
        seq![]
    };
    let third: Seq<DateField> = if unread(changed) {
        seq![DateField::Changed]
    } else {
        seq![]
    };
    if read_field(original) is Some {
        seq![]
    } else if read_field(digitized) is Some {
        first
    } else {
        first + second + third
    }
}

/// The date-time at which a file was last modified, from the whole seconds
/// between the start of 1970 and that moment. There is none where the
/// seconds are unknown or beyond what a calendar of this library holds.
pub open spec fn modification_time(seconds: Option<u64>) -> Option<Timestamp> {
    match seconds {
        Some(s) => if s <= i64::MAX {
            time_of(utc_datetime(s as int))
        } else {
            None
        },
        None => None,
    }
}

/// The character of a decimal digit.
pub open spec fn digit(d: int) -> char
    recommends
        0 <= d <= 9,
{
    if d == 0 {
        '0'
    } else if d == 1 {
        '1'
    } else if d == 2 {
        '2'
    } else if d == 3 {
        '3'
    } else if d == 4 {
        '4'
    } else if d == 5 {
        '5'
    } else if d == 6 {
        '6'
    } else if d == 7 {
        '7'
    } else if d == 8 {
        '8'
    } else {
        '9'
    }
}

/// A number below one hundred in two digits.
pub open spec fn two_digits(n: int) -> Seq<char>
    recommends
        0 <= n <= 99,
{
    seq![digit(n / 10), digit(n % 10)]
}

/// A number in two digits, or in three where it has three.
pub open spec fn padded(n: int) -> Seq<char>
    recommends
        0 <= n,
{
    if n <= 99 {
        two_digits(n)
    } else {
        digits(n as nat)
    }
}

/// A number in as many digits as it has.
pub open spec fn digits(n: nat) -> Seq<char>
    decreases n,
{
    if n < 10 {
        seq![digit(n as int)]
    } else {
        digits(n / 10).push(digit((n % 10) as int))
    }
}

/// A year in four digits, or, before the year 0 and after the year 9999, a
/// sign and at least four digits.
pub open spec fn year_text(year: int) -> Seq<char> {
    let size = if year < 0 {
        -year
    } else {
        year
    };
    let number = if size <= 9999 {
        two_digits(size / 100) + two_digits(size % 100)
    } else {
        digits(size as nat)
    };
    if year < 0 {
        seq!['-'] + number
    } else if year > 9999 {
        seq!['+'] + number
    } else {
        number
    }
}

/// A date-time as the stem of a file name: year, month, day, a low line,
/// hour, minute, second, each but the year in two digits.
pub open spec fn stem_text(at: Timestamp) -> Seq<char> {
    year_text(at.year as int) + padded(at.month as int) + padded(at.day as int) + seq!['_']
        + padded(at.hour as int) + padded(at.minute as int) + padded(at.second as int)
}

/// Calls `NaiveDateTime::parse_from_str` and hands out the fields of the
/// date-time. Claims that the outcome is a function of the text and the
/// layout, and that the fields of a date-time read are in range.
#[verifier::external_body]
pub(crate) fn parse_datetime(text: &str, layout: &str) -> (r: Option<Reading>)
    ensures
        r == parsed_datetime(text@, layout@),
        r matches Some(fields) ==> fields.in_range(),
{
    match NaiveDateTime::parse_from_str(text, layout) {
        Ok(at) => Some(
            Reading {
                year: at.year(),
                month: at.month(),
                day: at.day(),
                hour: at.hour(),
                minute: at.minute(),
                second: at.second(),
                nanosecond: at.nanosecond(),
            },
        ),
        Err(_) => None,
    }
}

/// Calls `DateTime::from_timestamp` with no fraction of a second and hands
/// out the fields of the date-time in universal time. Claims that the outcome
/// is a function of the seconds, and that the fields of a date-time are in
/// range.
#[verifier::external_body]
pub(crate) fn utc_from_seconds(seconds: i64) -> (r: Option<Reading>)
    ensures
        r == utc_datetime(seconds as int),
        r matches Some(fields) ==> fields.in_range(),
{
    let at = DateTime::from_timestamp(seconds, 0)?.naive_utc();
    Some(
        Reading {
            year: at.year(),
            month: at.month(),
            day: at.day(),
            hour: at.hour(),
            minute: at.minute(),
            second: at.second(),
            nanosecond: at.nanosecond(),
        },
    )
}

/// Calls `str::trim_matches` with a character, which strips every such
/// character from the start and from the end.
#[verifier::external_body]
pub(crate) fn trim_matches<'a>(text: &'a str, c: char) -> (r: &'a str)
    ensures
        r@ == trimmed(text@, c),
{
    text.trim_matches(c)
}

impl Timestamp {
    /// Makes a date-time of the fields that `chrono` hands out. A leap second
    /// becomes the second 60.
    pub fn from_reading(fields: Reading) -> (at: Timestamp)
        requires
            fields.in_range(),
        ensures
            at == fields.timestamp(),
            at.valid(),
    {
        let leap: u32 = fields.nanosecond / 1_000_000_000;
        Timestamp {
            year: fields.year,
            month: fields.month as u8,
            day: fields.day as u8,
            hour: fields.hour as u8,
            minute: fields.minute as u8,
            second: (fields.second + leap) as u8,
        }
    }
}

/// Makes a date-time of an optional reading.
pub fn read_time(reading: Option<Reading>) -> (r: Option<Timestamp>)
    requires
        reading matches Some(fields) ==> fields.in_range(),
    ensures
        r == time_of(reading),
        r matches Some(at) ==> at.valid(),
{
    match reading {
        Some(fields) => Some(Timestamp::from_reading(fields)),
        None => None,
    }
}

/// Picks the first of three readings that is a date-time.
pub fn first_of(a: Option<Timestamp>, b: Option<Timestamp>, c: Option<Timestamp>) -> (r: Option<
    Timestamp,
>)
    ensures
        r == first_reading(a, b, c),
{
    if a.is_some() {
        a
    } else if b.is_some() {
        b
    } else {
        c
    }
}

/// Reads a date-time from text in one of the three layouts.
pub fn parse_layouts(text: &str) -> (r: Option<Timestamp>)
    ensures
        r == read_layouts(text@),
        r matches Some(at) ==> at.valid(),
{
    let colons = read_time(parse_datetime(text, "%Y:%m:%d %H:%M:%S"));
    let hyphens = read_time(parse_datetime(text, "%Y-%m-%d %H:%M:%S"));
    let slashes = read_time(parse_datetime(text, "%Y/%m/%d %H:%M:%S"));
    first_of(colons, hyphens, slashes)
}

/// Reads the date-time of one metadata field.
pub fn parse_field(field: Option<&str>) -> (r: Option<Timestamp>)
    ensures
        r == read_field(
            match field {
                Some(text) => Some(text@),
                None => None,
            },
        ),
        r matches Some(at) ==> at.valid(),
{
    match field {
        Some(text) => parse_layouts(trim_matches(text, '"')),
        None => None,
    }
}

/// The view of an optional string.
pub open spec fn text_of(field: Option<&str>) -> Option<Seq<char>> {
    match field {
        Some(text) => Some(text@),
        None => None,
    }
}

/// Finds when a photograph was taken from the text of its three date-time
/// fields: the time of the capture, the time of digitizing, the time of the
/// last change. The first field that holds a date-time decides.
pub fn find_capture_time(
    original: Option<&str>,
    digitized: Option<&str>,
    changed: Option<&str>,
) -> (r: Option<Timestamp>)
    ensures
        r == capture_time(text_of(original), text_of(digitized), text_of(changed)),
        r matches Some(at) ==> at.valid(),
{
    first_of(parse_field(original), parse_field(digitized), parse_field(changed))
}

/// The fields, of three looked at in turn until one gives a date-time, that
/// hold text and give none. Of each field it is told whether it holds text,
/// and what was read from it.
pub open spec fn unread_among(
    present: (bool, bool, bool),
    read: (Option<Timestamp>, Option<Timestamp>, Option<Timestamp>),
) -> Seq<DateField> {
    let first: Seq<DateField> = if present.0 && read.0 is None {
        seq![DateField::Original]
    } else {
        seq![]
    };
    let second: Seq<DateField> = if present.1 && read.1 is None {
        seq![DateField::Digitized]
    } else {
        seq![]
    };
    let third: Seq<DateField> = if present.2 && read.2 is None {
        seq![DateField::Changed]
    } else {
        seq![]
    };
    if read.0 is Some {
        seq![]
    } else if read.1 is Some {
        first
    } else {
        first + second + third
    }
}

/// Lists the fields that hold text and give no date-time, up to the first
/// field that gives one.
pub fn list_unread(
    present: (bool, bool, bool),
    read: (Option<Timestamp>, Option<Timestamp>, Option<Timestamp>),
) -> (r: Vec<DateField>)
    ensures
        r@ == unread_among(present, read),
{
    let mut fields: Vec<DateField> = Vec::new();
    if read.0.is_some() {
        return fields;
    }
    if present.0 {
        fields.push(DateField::Original);
    }
    let ghost after_first = fields@;
    if read.1.is_some() {
        return fields;
    }
    if present.1 {
        fields.push(DateField::Digitized);
    }
    let ghost after_second = fields@;
    if present.2 && read.2.is_none() {
        fields.push(DateField::Changed);
    }
    proof {
        let a: Seq<DateField> = if present.0 && read.0 is None {
            seq![DateField::Original]
        } else {
            seq![]
        };
        let b: Seq<DateField> = if present.1 && read.1 is None {
            seq![DateField::Digitized]
        } else {
            seq![]
        };
        let c: Seq<DateField> = if present.2 && read.2 is None {
            seq![DateField::Changed]
        } else {
            seq![]
        };
        assert(after_first =~= a);
        assert(after_second =~= a + b);
        assert(fields@ =~= a + b + c);
    }
    fields
}

/// Lists the fields that the search for the capture time looked at and could
/// not read, so that they can be reported.
pub fn find_unread_fields(
    original: Option<&str>,
    digitized: Option<&str>,
    changed: Option<&str>,
) -> (r: Vec<DateField>)
    ensures
        r@ == unread_fields(text_of(original), text_of(digitized), text_of(changed)),
{
    list_unread(
        (original.is_some(), digitized.is_some(), changed.is_some()),
        (parse_field(original), parse_field(digitized), parse_field(changed)),
    )
}

/// Finds when a file was last modified from the whole seconds since the
/// start of 1970.
pub fn find_modification_time(seconds: Option<u64>) -> (r: Option<Timestamp>)
    ensures
        r == modification_time(seconds),
        r matches Some(at) ==> at.valid(),
{
    match seconds {
        Some(s) => {
            if s <= i64::MAX as u64 {
                read_time(utc_from_seconds(s as i64))
            } else {
                None
            }
        },
        None => None,
    }
}

/// The text of one decimal digit.
fn digit_text(d: u32) -> (text: &'static str)
    requires
        d <= 9,
    ensures
        text@ == seq![digit(d as int)],
{
    proof {
        reveal_strlit("0");
        reveal_strlit("1");
        reveal_strlit("2");
        reveal_strlit("3");
        reveal_strlit("4");
        reveal_strlit("5");
        reveal_strlit("6");
        reveal_strlit("7");
        reveal_strlit("8");
        reveal_strlit("9");
    }
    let text = if d == 0 {
        "0"
    } else if d == 1 {
        "1"
    } else if d == 2 {
        "2"
    } else if d == 3 {
        "3"
    } else if d == 4 {
        "4"
    } else if d == 5 {
        "5"
    } else if d == 6 {
        "6"
    } else if d == 7 {
        "7"
    } else if d == 8 {
        "8"
    } else {
        "9"
    };
    assert(text@ =~= seq![digit(d as int)]);
    text
}

/// Appends a number below one hundred in two digits.
fn push_two_digits(out: &mut String, n: u32)
    requires
        n <= 99,
    ensures
        final(out)@ == old(out)@ + two_digits(n as int),
{
    out.append(digit_text(n / 10));
    out.append(digit_text(n % 10));
    assert(out@ =~= old(out)@ + two_digits(n as int));
}

/// Appends a number in as many digits as it has.
fn push_digits(out: &mut String, n: u32)
    ensures
        final(out)@ == old(out)@ + digits(n as nat),
    decreases n,
{
    if n >= 10 {
        push_digits(out, n / 10);
    }
    out.append(digit_text(n % 10));
    assert(out@ =~= old(out)@ + digits(n as nat));
}

/// Appends a number in two digits, or in three where it has three.
fn push_padded(out: &mut String, n: u8)
    ensures
        final(out)@ == old(out)@ + padded(n as int),
{
    if n <= 99 {
        push_two_digits(out, n as u32);
    } else {
        push_digits(out, n as u32);
    }
}

/// Appends a year.
fn push_year(out: &mut String, year: i32)
    ensures
        final(out)@ == old(out)@ + year_text(year as int),
{
    let size: u32 = if year < 0 {
        (-(year as i64)) as u32
    } else {
        year as u32
    };
    if year < 0 {
        proof {
            reveal_strlit("-");
        }
        out.append("-");
    } else if year > 9999 {
        proof {
            reveal_strlit("+");
        }
        out.append("+");
    }
    let ghost signed = out@;
    if size <= 9999 {
        push_two_digits(out, size / 100);
        push_two_digits(out, size % 100);
        assert(out@ =~= signed + (two_digits(size as int / 100) + two_digits(size as int % 100)));
    } else {
        push_digits(out, size);
    }
    assert(out@ =~= old(out)@ + year_text(year as int));
}

impl Timestamp {
    /// Writes this date-time as the stem of a file name.
    pub fn stem(&self) -> (text: String)
        ensures
            text@ == stem_text(*self),
    {
        let mut out = String::new();
        push_year(&mut out, self.year);
        push_padded(&mut out, self.month);
        push_padded(&mut out, self.day);
        proof {
            reveal_strlit("_");
        }
        out.append("_");
        push_padded(&mut out, self.hour);
        push_padded(&mut out, self.minute);
        push_padded(&mut out, self.second);
        assert(out@ =~= stem_text(*self));
        out
    }
}

} // verus!
