//! Dates and instants as they are written: for the weather service, as the
//! keys of local days, and as labels of the plot.

use vstd::prelude::*;

use crate::calendar::{civil_of, day_of, is_civil, Civil, DAY};
use crate::calendar::{law_day_numbers_follow_calendar, law_every_day_has_one_date};
use crate::text::{decimal, digit, four_digits, text_less, two_digits};
use crate::text::{
    law_decimal_is_injective, lemma_decimal_length, lemma_digit_injective, lemma_four_quotients,
    lemma_less_skips_prefix,
};

verus! {

/// A year: four digits from 0 to 9999, and a sign before at least four digits
/// otherwise.
pub open spec fn year_text(year: int) -> Seq<char> {
    if 0 <= year < 10_000 {
        four_digits(year)
    } else if year < 0 {
        seq!['-'] + magnitude_text(-year)
    } else {
        seq!['+'] + magnitude_text(year)
    }
}

/// At least four digits.
pub open spec fn magnitude_text(n: int) -> Seq<char> {
    if n < 10_000 {
        four_digits(n)
    } else {
        decimal(n as nat)
    }
}

/// A date as `2024-02-29`.
pub open spec fn date_text(c: Civil) -> Seq<char> {
    year_text(c.year) + seq!['-'] + two_digits(c.month) + seq!['-'] + two_digits(c.day)
}

/// The date of the day with the number `day`.
pub open spec fn day_text(day: int) -> Seq<char> {
    date_text(civil_of(day))
}

/// The time of day of an instant as `17:05`.
pub open spec fn clock_text(secs: int) -> Seq<char> {
    let second = secs % (DAY as int);
    two_digits(second / 3600) + seq![':'] + two_digits(second / 60 % 60)
}

/// The pattern of a date, `2024-02-29`.
pub open spec fn date_pattern() -> Seq<char> {
    "%Y-%m-%d"@
}

/// The pattern of a label on the time axis, `02/29 17:05`.
pub open spec fn axis_pattern() -> Seq<char> {
    "%m/%d %H:%M"@
}

/// The pattern of a date with a time of day, `2024-02-29 17:05`.
pub open spec fn moment_pattern() -> Seq<char> {
    "%Y-%m-%d %H:%M"@
}

/// What a pattern makes of the instant `secs` in UTC.
pub open spec fn utc_text(secs: int, pattern: Seq<char>) -> Seq<char> {
    let c = civil_of(day_of(secs));
    if pattern == date_pattern() {
        date_text(c)
    } else if pattern == axis_pattern() {
        two_digits(c.month) + seq!['/'] + two_digits(c.day) + seq![' '] + clock_text(secs)
    } else {
        date_text(c) + seq![' '] + clock_text(secs)
    }
}

proof fn lemma_four_digits_injective(a: int, b: int)
    requires
        0 <= a < 10_000,
        0 <= b < 10_000,
        four_digits(a) == four_digits(b),
    ensures
        a == b,
{
    let x = four_digits(a);
    let y = four_digits(b);
    assert(x[0] == y[0] && x[1] == y[1] && x[2] == y[2] && x[3] == y[3]);
    lemma_digit_injective(a / 1000, b / 1000);
    lemma_digit_injective(a / 100 % 10, b / 100 % 10);
    lemma_digit_injective(a / 10 % 10, b / 10 % 10);
    lemma_digit_injective(a % 10, b % 10);
}

proof fn lemma_two_digits_injective(a: int, b: int)
    requires
        0 <= a < 100,
        0 <= b < 100,
        two_digits(a) == two_digits(b),
    ensures
        a == b,
{
    let x = two_digits(a);
    let y = two_digits(b);
    assert(x[0] == y[0] && x[1] == y[1]);
    lemma_digit_injective(a / 10, b / 10);
    lemma_digit_injective(a % 10, b % 10);
}

proof fn lemma_magnitude_injective(a: int, b: int)
    requires
        0 <= a,
        0 <= b,
        magnitude_text(a) == magnitude_text(b),
    ensures
        a == b,
{
    lemma_decimal_length(a as nat);
    lemma_decimal_length(b as nat);
    if a < 10_000 {
        lemma_four_digits_injective(a, b);
    } else {
        law_decimal_is_injective(a as nat, b as nat);
    }
}

proof fn lemma_year_text_injective(a: int, b: int)
    requires
        year_text(a) == year_text(b),
    ensures
        a == b,
{
    let x = year_text(a);
    let y = year_text(b);
    assert(x[0] == y[0]);
    if 0 <= a < 10_000 {
        lemma_digit_injective(a / 1000, a / 1000);
    }
    if 0 <= b < 10_000 {
        lemma_digit_injective(b / 1000, b / 1000);
    }
    if 0 <= a < 10_000 {
        lemma_four_digits_injective(a, b);
    } else {
        assert(x.skip(1) == y.skip(1));
        let p = if a < 0 { -a } else { a };
        let q = if b < 0 { -b } else { b };
        assert(x.skip(1) =~= magnitude_text(p));
        assert(y.skip(1) =~= magnitude_text(q));
        lemma_magnitude_injective(p, q);
    }
}

/// Law: different dates are written differently.
pub proof fn law_date_text_is_injective(a: Civil, b: Civil)
    requires
        is_civil(a),
        is_civil(b),
        date_text(a) == date_text(b),
    ensures
        a == b,
{
    let x = date_text(a);
    let y = date_text(b);
    let n = x.len() as int;
    assert(x.subrange(n - 2, n) =~= two_digits(a.day));
    assert(y.subrange(n - 2, n) =~= two_digits(b.day));
    lemma_two_digits_injective(a.day, b.day);
    assert(x.subrange(n - 5, n - 3) =~= two_digits(a.month));
    assert(y.subrange(n - 5, n - 3) =~= two_digits(b.month));
    lemma_two_digits_injective(a.month, b.month);
    assert(x.subrange(0, n - 6) =~= year_text(a.year));
    assert(y.subrange(0, n - 6) =~= year_text(b.year));
    lemma_year_text_injective(a.year, b.year);
}

/// Law: different days are written differently.
pub proof fn law_day_text_is_injective(a: int, b: int)
    requires
        day_text(a) == day_text(b),
    ensures
        a == b,
{
    law_every_day_has_one_date(a);
    law_every_day_has_one_date(b);
    law_date_text_is_injective(civil_of(a), civil_of(b));
}

/// Law: from year 0 to year 9999 the order of dates as texts is their order in
/// time.
pub proof fn law_text_order_is_time_order(a: int, b: int)
    requires
        0 <= civil_of(a).year < 10_000,
        0 <= civil_of(b).year < 10_000,
    ensures
        text_less(day_text(a), day_text(b)) <==> a < b,
{
    if a < b {
        lemma_earlier_date_comes_first(a, b);
    } else if b < a {
        lemma_earlier_date_comes_first(b, a);
        crate::text::law_text_order_is_total(day_text(a), day_text(b));
    } else {
        crate::text::law_text_order_is_total(day_text(a), day_text(b));
    }
}

/// The number with the smaller leading digits is the smaller one.
proof fn lemma_first_different_digit(a: int, b: int)
    requires
        0 <= a < b < 10_000,
    ensures
        a / 1000 < b / 1000 || (a / 1000 == b / 1000 && (a / 100 % 10 < b / 100 % 10 || (a / 100
            % 10 == b / 100 % 10 && (a / 10 % 10 < b / 10 % 10 || (a / 10 % 10 == b / 10 % 10 && a
            % 10 < b % 10))))),
{
}

/// A text whose first difference from another is a smaller character comes
/// before it.
proof fn lemma_smaller_at(x: Seq<char>, y: Seq<char>, k: int)
    requires
        0 <= k < x.len(),
        k < y.len(),
        forall|j: int| 0 <= j < k ==> x[j] == y[j],
        x[k] < y[k],
    ensures
        text_less(x, y),
{
    lemma_less_skips_prefix(x, y, 0, k);
}

proof fn lemma_date_characters(c: Civil)
    requires
        0 <= c.year < 10_000,
    ensures
        date_text(c) =~= seq![
            digit(c.year / 1000),
            digit(c.year / 100 % 10),
            digit(c.year / 10 % 10),
            digit(c.year % 10),
            '-',
            digit(c.month / 10),
            digit(c.month % 10),
            '-',
            digit(c.day / 10),
            digit(c.day % 10),
        ],
{
}

proof fn lemma_earlier_date_comes_first(a: int, b: int)
    requires
        a < b,
        0 <= civil_of(a).year < 10_000,
        0 <= civil_of(b).year < 10_000,
    ensures
        text_less(day_text(a), day_text(b)),
{
    let p = civil_of(a);
    let q = civil_of(b);
    law_every_day_has_one_date(a);
    law_every_day_has_one_date(b);
    law_day_numbers_follow_calendar(p, q);
    let x = day_text(a);
    let y = day_text(b);
    lemma_date_characters(p);
    lemma_date_characters(q);
    if p.year < q.year {
        lemma_first_different_digit(p.year, q.year);
        if p.year / 1000 < q.year / 1000 {
            lemma_smaller_at(x, y, 0);
        } else if p.year / 100 % 10 < q.year / 100 % 10 {
            lemma_smaller_at(x, y, 1);
        } else if p.year / 10 % 10 < q.year / 10 % 10 {
            lemma_smaller_at(x, y, 2);
        } else {
            lemma_smaller_at(x, y, 3);
        }
    } else if p.month < q.month {
        if p.month / 10 < q.month / 10 {
            lemma_smaller_at(x, y, 5);
        } else {
            lemma_smaller_at(x, y, 6);
        }
    } else {
        if p.day / 10 < q.day / 10 {
            lemma_smaller_at(x, y, 8);
        } else {
            lemma_smaller_at(x, y, 9);
        }
    }
}

/// Law: a date of the years 0 to 9999 is written as the four digits of its year,
/// the two of its month and the two of its day, with hyphens between them.
pub proof fn law_dates_are_written_by_digits(
    thousands: int,
    hundreds: int,
    tens: int,
    ones: int,
    month: int,
    day: int,
)
    requires
        0 <= thousands < 10,
        0 <= hundreds < 10,
        0 <= tens < 10,
        0 <= ones < 10,
        0 <= month < 100,
        0 <= day < 100,
    ensures
        date_text(
            Civil { year: 1000 * thousands + 100 * hundreds + 10 * tens + ones, month, day },
        ) == seq![
            (48 + thousands) as char,
            (48 + hundreds) as char,
            (48 + tens) as char,
            (48 + ones) as char,
            '-',
            (48 + month / 10) as char,
            (48 + month % 10) as char,
            '-',
            (48 + day / 10) as char,
            (48 + day % 10) as char,
        ],
{
    let year = 1000 * thousands + 100 * hundreds + 10 * tens + ones;
    lemma_four_quotients(thousands, hundreds, tens, ones);
    lemma_date_characters(Civil { year, month, day });
}

/// Law: a year before 0 is written as its opposite behind a minus, and a year
/// after 9999 behind a plus. The month and the day follow as in other years.
pub proof fn law_other_years_have_a_sign(c: Civil)
    ensures
        c.year <= -10_000 ==> date_text(c) == seq!['-'] + decimal((-c.year) as nat) + seq!['-']
            + two_digits(c.month) + seq!['-'] + two_digits(c.day),
        -10_000 < c.year < 0 ==> date_text(c) == seq!['-'] + date_text(
            Civil { year: -c.year, ..c },
        ),
        c.year >= 10_000 ==> date_text(c) == seq!['+'] + decimal(c.year as nat) + seq!['-']
            + two_digits(c.month) + seq!['-'] + two_digits(c.day),
{
    if -10_000 < c.year < 0 {
        assert(date_text(c) =~= seq!['-'] + date_text(Civil { year: -c.year, ..c }));
    }
}

/// Law: on every day, the clock shows the hours and the minutes since midnight.
pub proof fn law_clock_shows_hours_and_minutes(day: int, hour: int, minute: int, second: int)
    requires
        0 <= hour < 24,
        0 <= minute < 60,
        0 <= second < 60,
    ensures
        clock_text(day * 86_400 + hour * 3600 + minute * 60 + second) == seq![
            (48 + hour / 10) as char,
            (48 + hour % 10) as char,
            ':',
            (48 + minute / 10) as char,
            (48 + minute % 10) as char,
        ],
{
    let past = hour * 3600 + minute * 60 + second;
    let secs = day * 86_400 + hour * 3600 + minute * 60 + second;
    assert(secs % 86_400 == past);
    assert(past / 3600 == hour);
    assert(past / 60 == hour * 60 + minute);
    assert((hour * 60 + minute) % 60 == minute);
    assert(clock_text(secs) =~= seq![
        (48 + hour / 10) as char,
        (48 + hour % 10) as char,
        ':',
        (48 + minute / 10) as char,
        (48 + minute % 10) as char,
    ]);
}

/// Law: the date of an instant is that of the day on which it lies. A moment is
/// its date and the clock, and a label of the time axis is the month and the day
/// of its date, and the clock.
pub proof fn law_labels_agree(secs: int, day: int)
    requires
        day * 86_400 <= secs < day * 86_400 + 86_400,
    ensures
        utc_text(secs, "%Y-%m-%d"@) == day_text(day),
        utc_text(secs, "%Y-%m-%d %H:%M"@) == day_text(day) + seq![' '] + clock_text(secs),
        utc_text(secs, "%m/%d %H:%M"@) == ({
            let date = day_text(day);
            let n = date.len() as int;
            date.subrange(n - 5, n - 3) + seq!['/'] + date.subrange(n - 2, n) + seq![' ']
                + clock_text(secs)
        }),
        day_text(day) == date_text(civil_of(day)),
        date_pattern() == "%Y-%m-%d"@,
        moment_pattern() == "%Y-%m-%d %H:%M"@,
        axis_pattern() == "%m/%d %H:%M"@,
{
    reveal_strlit("%Y-%m-%d");
    reveal_strlit("%m/%d %H:%M");
    reveal_strlit("%Y-%m-%d %H:%M");
    assert(date_pattern().len() == 8);
    assert(axis_pattern().len() == 11);
    assert(moment_pattern().len() == 14);
    assert(day_of(secs) == day);
    let c = civil_of(day);
    let date = day_text(day);
    let n = date.len() as int;
    assert(date.subrange(n - 2, n) =~= two_digits(c.day));
    assert(date.subrange(n - 5, n - 3) =~= two_digits(c.month));
}

} // verus!
