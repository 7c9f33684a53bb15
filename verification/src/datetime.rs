//! The internal date of a message: `"dd-Mon-yyyy hh:mm:ss +zzzz"`.

use crate::codec::{emit_byte, Encoder};
use crate::error::{agrees, error, error_at, Category, IMAPResult, ParseError, SpecResult};
use crate::lex::{
    byte, dquote, kw, put_byte, skip, sp, spec_byte, spec_dquote, spec_sp, spec_tag_no_case,
    tag_no_case,
};
use vstd::prelude::*;
use vstd::string::*;

verus! {

/// The months of the year.
#[derive(Debug, Clone, Copy, PartialEq, Eq, Hash, Structural)]
pub enum Month {
    Jan,
    Feb,
    Mar,
    Apr,
    May,
    Jun,
    Jul,
    Aug,
    Sep,
    Oct,
    Nov,
    Dec,
}

impl DeepView for Month {
    type V = Month;

    open spec fn deep_view(&self) -> Month {
        *self
    }
}

/// A date and time with its zone as a mathematical value.
pub struct DateTimeModel {
    pub day: u8,
    pub month: Month,
    pub year: u16,
    pub hour: u8,
    pub minute: u8,
    pub second: u8,
    /// Whether the zone lies east of Greenwich (`+`) or west of it (`-`).
    pub east: bool,
    pub zone_hours: u8,
    pub zone_minutes: u8,
}

impl DateTimeModel {
    /// The fields are within the ranges of a date and a time of day.
    pub open spec fn valid(self) -> bool {
        &&& 1 <= self.day <= 31
        &&& self.year <= 9999
        &&& self.hour <= 23
        &&& self.minute <= 59
        &&& self.second <= 59
        &&& self.zone_hours <= 23
        &&& self.zone_minutes <= 59
    }
}

/// A date and time with its zone. The fields are within their ranges.
#[derive(Debug, Clone, Copy, PartialEq, Eq, Hash)]
pub struct DateTime {
    day: u8,
    month: Month,
    year: u16,
    hour: u8,
    minute: u8,
    second: u8,
    east: bool,
    zone_hours: u8,
    zone_minutes: u8,
}

impl DeepView for DateTime {
    type V = DateTimeModel;

    closed spec fn deep_view(&self) -> DateTimeModel {
        DateTimeModel {
            day: self.day,
            month: self.month,
            year: self.year,
            hour: self.hour,
            minute: self.minute,
            second: self.second,
            east: self.east,
            zone_hours: self.zone_hours,
            zone_minutes: self.zone_minutes,
        }
    }
}

/// A date: the day of the month, the month and the year.
pub struct Date {
    pub day: u8,
    pub month: Month,
    pub year: u16,
}

/// A time of day.
pub struct Time {
    pub hour: u8,
    pub minute: u8,
    pub second: u8,
}

/// A time zone: the direction and the distance from Greenwich.
pub struct Zone {
    pub east: bool,
    pub hours: u8,
    pub minutes: u8,
}

/// The date and time made of the three parts.
pub open spec fn spec_date_time_of(date: Date, time: Time, zone: Zone) -> DateTimeModel {
    DateTimeModel {
        day: date.day,
        month: date.month,
        year: date.year,
        hour: time.hour,
        minute: time.minute,
        second: time.second,
        east: zone.east,
        zone_hours: zone.hours,
        zone_minutes: zone.minutes,
    }
}

impl DateTime {
    #[verifier::type_invariant]
    spec fn in_range(self) -> bool {
        self.deep_view().valid()
    }

    /// The date and time made of the three parts, if every field is within
    /// its range.
    pub fn new(date: Date, time: Time, zone: Zone) -> (r: Option<DateTime>)
        ensures
            r is Some <==> spec_date_time_of(date, time, zone).valid(),
            r matches Some(d) ==> d.deep_view() == spec_date_time_of(date, time, zone),
    {
        if 1 <= date.day && date.day <= 31 && date.year <= 9999 && time.hour <= 23 && time.minute
            <= 59 && time.second <= 59 && zone.hours <= 23 && zone.minutes <= 59 {
            Some(
                DateTime {
                    day: date.day,
                    month: date.month,
                    year: date.year,
                    hour: time.hour,
                    minute: time.minute,
                    second: time.second,
                    east: zone.east,
                    zone_hours: zone.hours,
                    zone_minutes: zone.minutes,
                },
            )
        } else {
            None
        }
    }

    /// The date.
    pub fn date(&self) -> (r: Date)
        ensures
            r.day == self.deep_view().day,
            r.month == self.deep_view().month,
            r.year == self.deep_view().year,
            self.deep_view().valid(),
    {
        proof {
            use_type_invariant(self);
        }
        Date { day: self.day, month: self.month, year: self.year }
    }

    /// The time of day.
    pub fn time(&self) -> (r: Time)
        ensures
            r.hour == self.deep_view().hour,
            r.minute == self.deep_view().minute,
            r.second == self.deep_view().second,
    {
        Time { hour: self.hour, minute: self.minute, second: self.second }
    }

    /// The zone.
    pub fn zone(&self) -> (r: Zone)
        ensures
            r.east == self.deep_view().east,
            r.hours == self.deep_view().zone_hours,
            r.minutes == self.deep_view().zone_minutes,
    {
        Zone { east: self.east, hours: self.zone_hours, minutes: self.zone_minutes }
    }
}

/// One decimal digit: its value.
pub open spec fn spec_digit(s: Seq<u8>) -> SpecResult<u8> {
    if s.len() == 0 {
        Err(ParseError::Incomplete)
    } else if '0' as u8 <= s[0] <= '9' as u8 {
        Ok((s.skip(1), (s[0] - '0' as u8) as u8))
    } else {
        Err(error_at(Category::CharacterClass, s))
    }
}

/// Two decimal digits: their value.
pub open spec fn spec_digits2(s: Seq<u8>) -> SpecResult<u8> {
    match spec_digit(s) {
        Err(e) => Err(e),
        Ok((r1, a)) => match spec_digit(r1) {
            Err(e) => Err(e),
            Ok((r2, b)) => Ok((r2, (a * 10 + b) as u8)),
        },
    }
}

/// Four decimal digits: their value.
pub open spec fn spec_digits4(s: Seq<u8>) -> SpecResult<u16> {
    match spec_digits2(s) {
        Err(e) => Err(e),
        Ok((r1, a)) => match spec_digits2(r1) {
            Err(e) => Err(e),
            Ok((r2, b)) => Ok((r2, (a * 100 + b) as u16)),
        },
    }
}

/// Parses one decimal digit.
pub fn digit<'a>(input: &'a [u8]) -> (r: IMAPResult<'a, u8>)
    ensures
        agrees(r, spec_digit(input@)),
        r matches Ok((_, v)) ==> v <= 9,
{
    if input.len() == 0 {
        Err(ParseError::Incomplete)
    } else if '0' as u8 <= input[0] && input[0] <= '9' as u8 {
        Ok((skip(input, 1), input[0] - '0' as u8))
    } else {
        Err(error(Category::CharacterClass, input))
    }
}

/// Parses two decimal digits.
pub fn digits2<'a>(input: &'a [u8]) -> (r: IMAPResult<'a, u8>)
    ensures
        agrees(r, spec_digits2(input@)),
        r matches Ok((_, v)) ==> v <= 99,
{
    let (r1, a) = digit(input)?;
    let (r2, b) = digit(r1)?;
    Ok((r2, a * 10 + b))
}

/// Parses four decimal digits.
pub fn digits4<'a>(input: &'a [u8]) -> (r: IMAPResult<'a, u16>)
    ensures
        agrees(r, spec_digits4(input@)),
        r matches Ok((_, v)) ==> v <= 9999,
{
    let (r1, a) = digits2(input)?;
    let (r2, b) = digits2(r1)?;
    Ok((r2, a as u16 * 100 + b as u16))
}

/// `date-day-fixed = (SP DIGIT) / 2DIGIT`
pub open spec fn spec_date_day_fixed(s: Seq<u8>) -> SpecResult<u8> {
    match spec_sp(s) {
        Ok((rest, _)) => spec_digit(rest),
        Err(ParseError::Error(_)) => spec_digits2(s),
        Err(e) => Err(e),
    }
}

/// Parses `date-day-fixed`.
pub fn date_day_fixed<'a>(input: &'a [u8]) -> (r: IMAPResult<'a, u8>)
    ensures
        agrees(r, spec_date_day_fixed(input@)),
{
    match sp(input) {
        Ok((rest, _)) => digit(rest),
        Err(ParseError::Error(_)) => digits2(input),
        Err(e) => Err(e),
    }
}

/// The name of a month.
pub open spec fn spec_month_name(m: Month) -> Seq<u8> {
    match m {
        Month::Jan => kw("Jan"),
        Month::Feb => kw("Feb"),
        Month::Mar => kw("Mar"),
        Month::Apr => kw("Apr"),
        Month::May => kw("May"),
        Month::Jun => kw("Jun"),
        Month::Jul => kw("Jul"),
        Month::Aug => kw("Aug"),
        Month::Sep => kw("Sep"),
        Month::Oct => kw("Oct"),
        Month::Nov => kw("Nov"),
        Month::Dec => kw("Dec"),
    }
}

/// The month after `m`, if there is one.
pub open spec fn spec_next_month(m: Month) -> Option<Month> {
    match m {
        Month::Jan => Some(Month::Feb),
        Month::Feb => Some(Month::Mar),
        Month::Mar => Some(Month::Apr),
        Month::Apr => Some(Month::May),
        Month::May => Some(Month::Jun),
        Month::Jun => Some(Month::Jul),
        Month::Jul => Some(Month::Aug),
        Month::Aug => Some(Month::Sep),
        Month::Sep => Some(Month::Oct),
        Month::Oct => Some(Month::Nov),
        Month::Nov => Some(Month::Dec),
        Month::Dec => None,
    }
}

/// How many months follow `m` in the year.
pub open spec fn spec_months_after(m: Month) -> nat {
    match m {
        Month::Jan => 11,
        Month::Feb => 10,
        Month::Mar => 9,
        Month::Apr => 8,
        Month::May => 7,
        Month::Jun => 6,
        Month::Jul => 5,
        Month::Aug => 4,
        Month::Sep => 3,
        Month::Oct => 2,
        Month::Nov => 1,
        Month::Dec => 0,
    }
}

/// `date-month`, tried from the month `from` on: the first month whose name
/// the input begins with, in any mix of case.
pub open spec fn spec_month_from(s: Seq<u8>, from: Month) -> SpecResult<Month>
    decreases spec_months_after(from),
{
    match spec_tag_no_case(s, spec_month_name(from)) {
        Ok((rest, _)) => Ok((rest, from)),
        Err(ParseError::Error(e)) => match spec_next_month(from) {
            Some(next) => spec_month_from(s, next),
            None => Err(ParseError::Error(e)),
        },
        Err(e) => Err(e),
    }
}

/// `date-month = "Jan" / "Feb" / "Mar" / "Apr" / "May" / "Jun" / "Jul" /
/// "Aug" / "Sep" / "Oct" / "Nov" / "Dec"`
pub open spec fn spec_date_month(s: Seq<u8>) -> SpecResult<Month> {
    spec_month_from(s, Month::Jan)
}

impl Month {
    /// The name of the month.
    pub fn name(&self) -> (r: &'static str)
        ensures
            kw(r) == spec_month_name(*self),
    {
        match self {
            Month::Jan => "Jan",
            Month::Feb => "Feb",
            Month::Mar => "Mar",
            Month::Apr => "Apr",
            Month::May => "May",
            Month::Jun => "Jun",
            Month::Jul => "Jul",
            Month::Aug => "Aug",
            Month::Sep => "Sep",
            Month::Oct => "Oct",
            Month::Nov => "Nov",
            Month::Dec => "Dec",
        }
    }

    /// The month after this one, if there is one.
    pub fn next(&self) -> (r: Option<Month>)
        ensures
            r == spec_next_month(*self),
    {
        match self {
            Month::Jan => Some(Month::Feb),
            Month::Feb => Some(Month::Mar),
            Month::Mar => Some(Month::Apr),
            Month::Apr => Some(Month::May),
            Month::May => Some(Month::Jun),
            Month::Jun => Some(Month::Jul),
            Month::Jul => Some(Month::Aug),
            Month::Aug => Some(Month::Sep),
            Month::Sep => Some(Month::Oct),
            Month::Oct => Some(Month::Nov),
            Month::Nov => Some(Month::Dec),
            Month::Dec => None,
        }
    }
}

/// Parses `date-month`.
pub fn date_month<'a>(input: &'a [u8]) -> (r: IMAPResult<'a, Month>)
    ensures
        agrees(r, spec_date_month(input@)),
{
    let mut m = Month::Jan;
    loop
        invariant
            spec_date_month(input@) == spec_month_from(input@, m),
        decreases spec_months_after(m),
    {
        match tag_no_case(input, m.name()) {
            Ok((rest, _)) => {
                return Ok((rest, m));
            },
            Err(ParseError::Error(e)) => match m.next() {
                Some(next) => {
                    m = next;
                },
                None => {
                    return Err(ParseError::Error(e));
                },
            },
            Err(e) => {
                return Err(e);
            },
        }
    }
}

/// `date-day-fixed "-" date-month "-" date-year`
pub open spec fn spec_date(s: Seq<u8>) -> SpecResult<Date> {
    match spec_date_day_fixed(s) {
        Err(e) => Err(e),
        Ok((r1, day)) => match spec_byte(r1, '-' as u8) {
            Err(e) => Err(e),
            Ok((r2, _)) => match spec_date_month(r2) {
                Err(e) => Err(e),
                Ok((r3, month)) => match spec_byte(r3, '-' as u8) {
                    Err(e) => Err(e),
                    Ok((r4, _)) => match spec_digits4(r4) {
                        Err(e) => Err(e),
                        Ok((r5, year)) => Ok((r5, Date { day, month, year })),
                    },
                },
            },
        },
    }
}

/// `time = 2DIGIT ":" 2DIGIT ":" 2DIGIT`
pub open spec fn spec_time(s: Seq<u8>) -> SpecResult<Time> {
    match spec_digits2(s) {
        Err(e) => Err(e),
        Ok((r1, hour)) => match spec_byte(r1, ':' as u8) {
            Err(e) => Err(e),
            Ok((r2, _)) => match spec_digits2(r2) {
                Err(e) => Err(e),
                Ok((r3, minute)) => match spec_byte(r3, ':' as u8) {
                    Err(e) => Err(e),
                    Ok((r4, _)) => match spec_digits2(r4) {
                        Err(e) => Err(e),
                        Ok((r5, second)) => Ok((r5, Time { hour, minute, second })),
                    },
                },
            },
        },
    }
}

/// The sign of a zone: `+` for east, `-` for west.
pub open spec fn spec_zone_sign(s: Seq<u8>) -> SpecResult<bool> {
    match spec_byte(s, '+' as u8) {
        Ok((rest, _)) => Ok((rest, true)),
        Err(ParseError::Error(_)) => match spec_byte(s, '-' as u8) {
            Ok((rest, _)) => Ok((rest, false)),
            Err(e) => Err(e),
        },
        Err(e) => Err(e),
    }
}

/// `zone = ("+" / "-") 4DIGIT`
pub open spec fn spec_zone(s: Seq<u8>) -> SpecResult<Zone> {
    match spec_zone_sign(s) {
        Err(e) => Err(e),
        Ok((r1, east)) => match spec_digits2(r1) {
            Err(e) => Err(e),
            Ok((r2, hours)) => match spec_digits2(r2) {
                Err(e) => Err(e),
                Ok((r3, minutes)) => Ok((r3, Zone { east, hours, minutes })),
            },
        },
    }
}

/// `date-time = DQUOTE date-day-fixed "-" date-month "-" date-year SP time
/// SP zone DQUOTE`, with every field within its range.
pub open spec fn spec_date_time(s: Seq<u8>) -> SpecResult<DateTimeModel> {
    match spec_dquote(s) {
        Err(e) => Err(e),
        Ok((r1, _)) => match spec_date(r1) {
            Err(e) => Err(e),
            Ok((r2, date)) => match spec_sp(r2) {
                Err(e) => Err(e),
                Ok((r3, _)) => match spec_time(r3) {
                    Err(e) => Err(e),
                    Ok((r4, time)) => match spec_sp(r4) {
                        Err(e) => Err(e),
                        Ok((r5, _)) => match spec_zone(r5) {
                            Err(e) => Err(e),
                            Ok((r6, zone)) => match spec_dquote(r6) {
                                Err(e) => Err(e),
                                Ok((r7, _)) => if spec_date_time_of(date, time, zone).valid() {
                                    Ok((r7, spec_date_time_of(date, time, zone)))
                                } else {
                                    Err(error_at(Category::Overflow, s))
                                },
                            },
                        },
                    },
                },
            },
        },
    }
}

/// Parses a date.
pub fn date<'a>(input: &'a [u8]) -> (r: Result<(&'a [u8], Date), ParseError>)
    ensures
        match r {
            Ok((rest, d)) => spec_date(input@) == Ok::<_, ParseError>((rest@, d)),
            Err(e) => spec_date(input@) == Err::<(Seq<u8>, Date), _>(e),
        },
{
    let (r1, day) = date_day_fixed(input)?;
    let (r2, _) = byte(r1, '-' as u8)?;
    let (r3, month) = date_month(r2)?;
    let (r4, _) = byte(r3, '-' as u8)?;
    let (r5, year) = digits4(r4)?;
    Ok((r5, Date { day, month, year }))
}

/// Parses a time of day.
pub fn time<'a>(input: &'a [u8]) -> (r: Result<(&'a [u8], Time), ParseError>)
    ensures
        match r {
            Ok((rest, t)) => spec_time(input@) == Ok::<_, ParseError>((rest@, t)),
            Err(e) => spec_time(input@) == Err::<(Seq<u8>, Time), _>(e),
        },
{
    let (r1, hour) = digits2(input)?;
    let (r2, _) = byte(r1, ':' as u8)?;
    let (r3, minute) = digits2(r2)?;
    let (r4, _) = byte(r3, ':' as u8)?;
    let (r5, second) = digits2(r4)?;
    Ok((r5, Time { hour, minute, second }))
}

/// Parses a zone.
pub fn zone<'a>(input: &'a [u8]) -> (r: Result<(&'a [u8], Zone), ParseError>)
    ensures
        match r {
            Ok((rest, z)) => spec_zone(input@) == Ok::<_, ParseError>((rest@, z)),
            Err(e) => spec_zone(input@) == Err::<(Seq<u8>, Zone), _>(e),
        },
{
    let (r1, east) = match byte(input, '+' as u8) {
        Ok((rest, _)) => (rest, true),
        Err(ParseError::Error(_)) => {
            let (rest, _) = byte(input, '-' as u8)?;
            (rest, false)
        },
        Err(e) => {
            return Err(e);
        },
    };
    let (r2, hours) = digits2(r1)?;
    let (r3, minutes) = digits2(r2)?;
    Ok((r3, Zone { east, hours, minutes }))
}

/// Parses a `date-time`.
pub fn date_time<'a>(input: &'a [u8]) -> (r: IMAPResult<'a, DateTime>)
    ensures
        agrees(r, spec_date_time(input@)),
{
    let (r1, _) = dquote(input)?;
    let (r2, d) = date(r1)?;
    let (r3, _) = sp(r2)?;
    let (r4, t) = time(r3)?;
    let (r5, _) = sp(r4)?;
    let (r6, z) = zone(r5)?;
    let (r7, _) = dquote(r6)?;
    match DateTime::new(d, t, z) {
        Some(v) => Ok((r7, v)),
        None => Err(error(Category::Overflow, input)),
    }
}

/// A number below 100 as two digits.
pub open spec fn spec_two_digits(n: u8) -> Seq<u8> {
    seq![('0' as u8 + n / 10) as u8, ('0' as u8 + n % 10) as u8]
}

/// A number below 10000 as four digits.
pub open spec fn spec_four_digits(n: u16) -> Seq<u8> {
    spec_two_digits((n / 100) as u8) + spec_two_digits((n % 100) as u8)
}

/// Appends a number below 100 as two digits.
pub fn put_two_digits(out: &mut Vec<u8>, n: u8)
    requires
        n <= 99,
    ensures
        final(out)@ == old(out)@ + spec_two_digits(n),
{
    let ghost start = out@;
    out.push('0' as u8 + n / 10);
    out.push('0' as u8 + n % 10);
    assert(out@ =~= start + spec_two_digits(n));
}

/// A date and time between double quotes: the day and the times as two
/// digits each, the year and the zone as four.
pub open spec fn spec_encode_date_time(d: DateTimeModel) -> Seq<u8> {
    seq!['"' as u8] + spec_two_digits(d.day) + seq!['-' as u8] + spec_month_name(d.month) + seq![
        '-' as u8,
    ] + spec_four_digits(d.year) + seq![' ' as u8] + spec_two_digits(d.hour) + seq![':' as u8]
        + spec_two_digits(d.minute) + seq![':' as u8] + spec_two_digits(d.second) + seq![
        ' ' as u8,
    ] + seq![if d.east {
        '+' as u8
    } else {
        '-' as u8
    }] + spec_two_digits(d.zone_hours) + spec_two_digits(d.zone_minutes) + seq!['"' as u8]
}

impl Encoder for DateTime {
    open spec fn wire(v: DateTimeModel) -> Seq<u8> {
        spec_encode_date_time(v)
    }

    fn encode_into(&self, out: &mut Vec<u8>) {
        proof {
            use_type_invariant(self);
        }
        let s = Ghost(out@);
        put_byte(out, '"' as u8);
        let d = Ghost(Seq::<u8>::empty().push('"' as u8));
        put_two_digits(out, self.day);
        let d = crate::codec::appended(s, d, Ghost(spec_two_digits(self.day)));
        let d = emit_byte('-' as u8, out, s, d);
        let d = crate::codec::emit_str(self.month.name(), out, s, d);
        let d = emit_byte('-' as u8, out, s, d);
        let ghost before = out@;
        put_two_digits(out, (self.year / 100) as u8);
        put_two_digits(out, (self.year % 100) as u8);
        assert(out@ =~= before + spec_four_digits(self.year));
        let d = crate::codec::appended(s, d, Ghost(spec_four_digits(self.year)));
        let d = emit_byte(' ' as u8, out, s, d);
        put_two_digits(out, self.hour);
        let d = crate::codec::appended(s, d, Ghost(spec_two_digits(self.hour)));
        let d = emit_byte(':' as u8, out, s, d);
        put_two_digits(out, self.minute);
        let d = crate::codec::appended(s, d, Ghost(spec_two_digits(self.minute)));
        let d = emit_byte(':' as u8, out, s, d);
        put_two_digits(out, self.second);
        let d = crate::codec::appended(s, d, Ghost(spec_two_digits(self.second)));
        let d = emit_byte(' ' as u8, out, s, d);
        let sign = if self.east {
            '+' as u8
        } else {
            '-' as u8
        };
        let d = emit_byte(sign, out, s, d);
        put_two_digits(out, self.zone_hours);
        let d = crate::codec::appended(s, d, Ghost(spec_two_digits(self.zone_hours)));
        put_two_digits(out, self.zone_minutes);
        let d = crate::codec::appended(s, d, Ghost(spec_two_digits(self.zone_minutes)));
        let d = emit_byte('"' as u8, out, s, d);
    }
}

} // verus!
