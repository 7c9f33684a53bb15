//! Dates that are written and read back.

use crate::datetime::{
    spec_date, spec_date_time, spec_date_time_of, spec_digits2, spec_digits4, spec_encode_date_time,
    spec_four_digits, spec_month_from, spec_month_name, spec_months_after, spec_next_month,
    spec_time, spec_two_digits, spec_zone, Date, DateTimeModel, Month, Time, Zone,
};
use crate::error::ParseError;
use crate::lex::{spec_lower, spec_tag_no_case};
use crate::theorems::keywords::lemma_month_words;
use crate::theorems::lex::{lemma_byte, lemma_no_byte, lemma_tag, lemma_tag_mismatch};
use vstd::prelude::*;

verus! {

/// Two digits are read back as the number below 100 that they stand for.
pub proof fn lemma_two_digits(n: u8, rest: Seq<u8>)
    requires
        n <= 99,
    ensures
        spec_digits2(spec_two_digits(n) + rest) == Ok::<_, ParseError>((rest, n)),
        (spec_two_digits(n) + rest)[0] != ' ' as u8,
{
    let s = spec_two_digits(n) + rest;
    assert(s[0] == ('0' as u8 + n / 10) as u8);
    assert(s.skip(1)[0] == ('0' as u8 + n % 10) as u8);
    assert(s.skip(1).skip(1) =~= rest);
}

/// Four digits are read back as the number below 10000 that they stand
/// for.
pub proof fn lemma_four_digits(n: u16, rest: Seq<u8>)
    requires
        n <= 9999,
    ensures
        spec_digits4(spec_four_digits(n) + rest) == Ok::<_, ParseError>((rest, n)),
{
    let low = spec_two_digits((n % 100) as u8) + rest;
    assert(spec_four_digits(n) + rest =~= spec_two_digits((n / 100) as u8) + low);
    lemma_two_digits((n / 100) as u8, low);
    lemma_two_digits((n % 100) as u8, rest);
}

/// The names of two different months differ in one of their three letters,
/// even when case is ignored.
proof fn lemma_months_differ(a: Month, b: Month, rest: Seq<u8>)
    requires
        a != b,
    ensures
        spec_tag_no_case(spec_month_name(a) + rest, spec_month_name(b)) matches Err(
            ParseError::Error(_),
        ),
{
    lemma_month_words();
    let s = spec_month_name(a) + rest;
    let na = spec_month_name(a);
    let nb = spec_month_name(b);
    assert(s[0] == na[0]);
    assert(s[1] == na[1]);
    assert(s[2] == na[2]);
    if spec_lower(na[0]) != spec_lower(nb[0]) {
        lemma_tag_mismatch(s, nb, 0);
    } else if spec_lower(na[1]) != spec_lower(nb[1]) {
        lemma_tag_mismatch(s, nb, 1);
    } else {
        lemma_tag_mismatch(s, nb, 2);
    }
}

/// The name of a month is read back as the month, from whichever month the
/// search begins that is not later in the year.
proof fn lemma_month_from(m: Month, from: Month, rest: Seq<u8>)
    requires
        spec_months_after(from) >= spec_months_after(m),
    ensures
        spec_month_from(spec_month_name(m) + rest, from) == Ok::<_, ParseError>((rest, m)),
    decreases spec_months_after(from),
{
    if from == m {
        lemma_tag(spec_month_name(m), rest);
    } else {
        lemma_months_differ(m, from, rest);
        lemma_month_from(m, spec_next_month(from)->0, rest);
    }
}

/// A date is written as the day in two digits, the name of the month and
/// the year in four digits, with dashes between them.
pub open spec fn spec_encode_date(d: Date) -> Seq<u8> {
    spec_two_digits(d.day) + (seq!['-' as u8] + (spec_month_name(d.month) + (seq!['-' as u8]
        + spec_four_digits(d.year))))
}

/// A time is written as the hour, the minute and the second in two digits
/// each, with colons between them.
pub open spec fn spec_encode_time(t: Time) -> Seq<u8> {
    spec_two_digits(t.hour) + (seq![':' as u8] + (spec_two_digits(t.minute) + (seq![':' as u8]
        + spec_two_digits(t.second))))
}

/// A zone is written as its sign and four digits.
pub open spec fn spec_encode_zone(z: Zone) -> Seq<u8> {
    seq![if z.east {
        '+' as u8
    } else {
        '-' as u8
    }] + (spec_two_digits(z.hours) + spec_two_digits(z.minutes))
}

/// A date is read back.
proof fn lemma_date_roundtrip(d: Date, rest: Seq<u8>)
    requires
        d.day <= 99,
        d.year <= 9999,
    ensures
        spec_date(spec_encode_date(d) + rest) == Ok::<_, ParseError>((rest, d)),
{
    let year = spec_four_digits(d.year) + rest;
    let after_month = seq!['-' as u8] + year;
    let month = spec_month_name(d.month) + after_month;
    let after_day = seq!['-' as u8] + month;
    assert(spec_encode_date(d) + rest =~= spec_two_digits(d.day) + after_day);
    lemma_two_digits(d.day, after_day);
    lemma_no_byte(spec_two_digits(d.day) + after_day, ' ' as u8);
    lemma_byte('-' as u8, month);
    lemma_month_from(d.month, Month::Jan, after_month);
    lemma_byte('-' as u8, year);
    lemma_four_digits(d.year, rest);
}

/// A time is read back.
proof fn lemma_time_roundtrip(t: Time, rest: Seq<u8>)
    requires
        t.hour <= 99,
        t.minute <= 99,
        t.second <= 99,
    ensures
        spec_time(spec_encode_time(t) + rest) == Ok::<_, ParseError>((rest, t)),
{
    let second = spec_two_digits(t.second) + rest;
    let after_minute = seq![':' as u8] + second;
    let minute = spec_two_digits(t.minute) + after_minute;
    let after_hour = seq![':' as u8] + minute;
    assert(spec_encode_time(t) + rest =~= spec_two_digits(t.hour) + after_hour);
    lemma_two_digits(t.hour, after_hour);
    lemma_byte(':' as u8, minute);
    lemma_two_digits(t.minute, after_minute);
    lemma_byte(':' as u8, second);
    lemma_two_digits(t.second, rest);
}

/// A zone is read back.
proof fn lemma_zone_roundtrip(z: Zone, rest: Seq<u8>)
    requires
        z.hours <= 99,
        z.minutes <= 99,
    ensures
        spec_zone(spec_encode_zone(z) + rest) == Ok::<_, ParseError>((rest, z)),
{
    let minutes = spec_two_digits(z.minutes) + rest;
    let hours = spec_two_digits(z.hours) + minutes;
    let sign = if z.east {
        '+' as u8
    } else {
        '-' as u8
    };
    assert(spec_encode_zone(z) + rest =~= seq![sign] + hours);
    lemma_byte(sign, hours);
    if !z.east {
        lemma_no_byte(seq![sign] + hours, '+' as u8);
    }
    lemma_two_digits(z.hours, minutes);
    lemma_two_digits(z.minutes, rest);
}

/// The date of a date and time.
pub open spec fn spec_date_of(d: DateTimeModel) -> Date {
    Date { day: d.day, month: d.month, year: d.year }
}

/// The time of a date and time.
pub open spec fn spec_time_of(d: DateTimeModel) -> Time {
    Time { hour: d.hour, minute: d.minute, second: d.second }
}

/// The zone of a date and time.
pub open spec fn spec_zone_of(d: DateTimeModel) -> Zone {
    Zone { east: d.east, hours: d.zone_hours, minutes: d.zone_minutes }
}

/// How the pieces of a date and time lie between the quotes.
proof fn lemma_date_time_form(d: DateTimeModel, rest: Seq<u8>)
    ensures
        spec_encode_date_time(d) + rest == seq!['"' as u8] + (spec_encode_date(spec_date_of(d)) + (
        seq![' ' as u8] + (spec_encode_time(spec_time_of(d)) + (seq![' ' as u8] + (
        spec_encode_zone(spec_zone_of(d)) + (seq!['"' as u8] + rest)))))),
{
    assert(spec_encode_date_time(d) + rest =~= seq!['"' as u8] + (spec_encode_date(
        spec_date_of(d),
    ) + (seq![' ' as u8] + (spec_encode_time(spec_time_of(d)) + (seq![' ' as u8] + (
    spec_encode_zone(spec_zone_of(d)) + (seq!['"' as u8] + rest)))))));
}

/// A date and time is read from its pieces between the quotes.
proof fn lemma_date_time_pieces(
    date: Seq<u8>,
    time: Seq<u8>,
    zone: Seq<u8>,
    rest: Seq<u8>,
    d: DateTimeModel,
)
    requires
        d.valid(),
        spec_date(date + (seq![' ' as u8] + (time + (seq![' ' as u8] + (zone + (seq!['"' as u8]
            + rest)))))) == Ok::<_, ParseError>(
            (
                seq![' ' as u8] + (time + (seq![' ' as u8] + (zone + (seq!['"' as u8] + rest)))),
                spec_date_of(d),
            ),
        ),
        spec_time(time + (seq![' ' as u8] + (zone + (seq!['"' as u8] + rest)))) == Ok::<
            _,
            ParseError,
        >((seq![' ' as u8] + (zone + (seq!['"' as u8] + rest)), spec_time_of(d))),
        spec_zone(zone + (seq!['"' as u8] + rest)) == Ok::<_, ParseError>(
            (seq!['"' as u8] + rest, spec_zone_of(d)),
        ),
    ensures
        spec_date_time(
            seq!['"' as u8] + (date + (seq![' ' as u8] + (time + (seq![' ' as u8] + (zone + (seq![
                '"' as u8,
            ] + rest)))))),
        ) == Ok::<_, ParseError>((rest, d)),
{
    let close = seq!['"' as u8] + rest;
    let after_time = seq![' ' as u8] + (zone + close);
    let after_date = seq![' ' as u8] + (time + after_time);
    lemma_byte('"' as u8, date + after_date);
    lemma_byte(' ' as u8, time + after_time);
    lemma_byte(' ' as u8, zone + close);
    lemma_byte('"' as u8, rest);
    assert(spec_date_time_of(spec_date_of(d), spec_time_of(d), spec_zone_of(d)) == d);
}

/// A date and time is read back, whatever follows it.
pub proof fn lemma_date_time_roundtrip(d: DateTimeModel, rest: Seq<u8>)
    requires
        d.valid(),
    ensures
        spec_date_time(spec_encode_date_time(d) + rest) == Ok::<_, ParseError>((rest, d)),
{
    let close = seq!['"' as u8] + rest;
    let zone = spec_encode_zone(spec_zone_of(d));
    let after_time = seq![' ' as u8] + (zone + close);
    let time = spec_encode_time(spec_time_of(d));
    let after_date = seq![' ' as u8] + (time + after_time);
    lemma_date_time_form(d, rest);
    lemma_date_roundtrip(spec_date_of(d), after_date);
    lemma_time_roundtrip(spec_time_of(d), after_time);
    lemma_zone_roundtrip(spec_zone_of(d), close);
    lemma_date_time_pieces(spec_encode_date(spec_date_of(d)), time, zone, rest, d);
}

} // verus!
