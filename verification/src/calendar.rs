//! The proleptic Gregorian calendar, and the instants that can be shown.

use vstd::prelude::*;

verus! {

/// The number of seconds in a day.
pub const DAY: i64 = 86_400;

/// The first second of year -262143, the earliest instant that can be shown.
pub const MIN_UTC: i64 = -8_334_601_228_800;

/// The last second of year 262142, the latest instant that can be shown.
pub const MAX_UTC: i64 = 8_210_266_876_799;

/// A day of the calendar. Year 0 is the year before year 1.
pub struct Civil {
    pub year: int,
    pub month: int,
    pub day: int,
}

/// Whether `secs`, counted from the start of 1970 in UTC, is an instant that
/// can be shown.
pub open spec fn in_utc_range(secs: int) -> bool {
    MIN_UTC <= secs <= MAX_UTC
}

/// Tells whether an instant can be shown.
pub fn check_utc_range(secs: i64) -> (answer: bool)
    ensures
        answer == in_utc_range(secs as int),
{
    MIN_UTC <= secs && secs <= MAX_UTC
}

pub open spec fn is_leap(year: int) -> bool {
    year % 4 == 0 && (year % 100 != 0 || year % 400 == 0)
}

pub open spec fn days_in_month(year: int, month: int) -> int {
    if month == 2 {
        if is_leap(year) {
            29
        } else {
            28
        }
    } else if month == 4 || month == 6 || month == 9 || month == 11 {
        30
    } else {
        31
    }
}

/// Whether the day exists.
pub open spec fn is_civil(c: Civil) -> bool {
    &&& 1 <= c.month <= 12
    &&& 1 <= c.day <= days_in_month(c.year, c.month)
}

/// The days from the start of year 0 to the start of `year`: 365 for each
/// year between them, and one more for each leap year.
pub open spec fn days_before_year(year: int) -> int {
    365 * year + (year + 3) / 4 - (year + 99) / 100 + (year + 399) / 400
}

/// The days of `year` that lie before the start of `month`.
pub open spec fn days_before_month(year: int, month: int) -> int
    decreases month,
{
    if month <= 1 {
        0
    } else {
        days_before_month(year, month - 1) + days_in_month(year, month - 1)
    }
}

/// The number of the day, counted from 0 for the first day of 1970.
pub open spec fn day_number(c: Civil) -> int {
    days_before_year(c.year) + days_before_month(c.year, c.month) + c.day - 1
        - days_before_year(1970)
}

/// The day that has the number `day`.
pub open spec fn civil_of(day: int) -> Civil {
    choose|c: Civil| is_civil(c) && day_number(c) == day
}

/// The day on which the instant `secs` lies, in UTC.
pub open spec fn day_of(secs: int) -> int {
    secs / DAY as int
}

/// Whether one day lies before another, by year, then month, then day.
pub open spec fn civil_before(a: Civil, b: Civil) -> bool {
    ||| a.year < b.year
    ||| a.year == b.year && a.month < b.month
    ||| a.year == b.year && a.month == b.month && a.day < b.day
}

/// A year has 365 days, a leap year one more.
proof fn lemma_year_length(year: int)
    ensures
        days_before_year(year + 1) - days_before_year(year) == (if is_leap(year) {
            366int
        } else {
            365int
        }),
{
    lemma_step_4(year);
    lemma_step_100(year);
    lemma_step_400(year);
    assert(year % 400 == 0 ==> year % 100 == 0) by {
        assert(year == 400 * (year / 400) + year % 400);
    }
    assert(year % 100 == 0 ==> year % 4 == 0) by {
        assert(year == 100 * (year / 100) + year % 100);
    }
}

// A quotient that is rounded up grows by one after each multiple of its divisor.

proof fn lemma_step_4(n: int)
    ensures
        (n + 1 + 3) / 4 - (n + 3) / 4 == (if n % 4 == 0 { 1int } else { 0 }),
{
    let q = n / 4;
    let r = n % 4;
    assert(n == 4 * q + r);
    if r == 0 {
        assert((n + 3) / 4 == q);
        assert((n + 1 + 3) / 4 == q + 1);
    } else {
        assert((n + 3) / 4 == q + 1);
        assert((n + 1 + 3) / 4 == q + 1);
    }
}

proof fn lemma_step_100(n: int)
    ensures
        (n + 1 + 99) / 100 - (n + 99) / 100 == (if n % 100 == 0 { 1int } else { 0 }),
{
    let q = n / 100;
    let r = n % 100;
    assert(n == 100 * q + r);
    if r == 0 {
        assert((n + 99) / 100 == q);
        assert((n + 1 + 99) / 100 == q + 1);
    } else {
        assert((n + 99) / 100 == q + 1);
        assert((n + 1 + 99) / 100 == q + 1);
    }
}

proof fn lemma_step_400(n: int)
    ensures
        (n + 1 + 399) / 400 - (n + 399) / 400 == (if n % 400 == 0 { 1int } else { 0 }),
{
    let q = n / 400;
    let r = n % 400;
    assert(n == 400 * q + r);
    if r == 0 {
        assert((n + 399) / 400 == q);
        assert((n + 1 + 399) / 400 == q + 1);
    } else {
        assert((n + 399) / 400 == q + 1);
        assert((n + 1 + 399) / 400 == q + 1);
    }
}

proof fn lemma_year_order(a: int, b: int)
    requires
        a < b,
    ensures
        days_before_year(a + 1) <= days_before_year(b),
    decreases b - a,
{
    if a + 1 < b {
        lemma_year_order(a, b - 1);
        lemma_year_length(b - 1);
    }
}

proof fn lemma_month_order(year: int, a: int, b: int)
    requires
        1 <= a < b <= 13,
    ensures
        days_before_month(year, a) + days_in_month(year, a) <= days_before_month(year, b),
    decreases b - a,
{
    if a + 1 < b {
        lemma_month_order(year, a, b - 1);
    }
}

proof fn lemma_months_fill_year(year: int)
    ensures
        days_before_month(year, 13) == (if is_leap(year) {
            366int
        } else {
            365int
        }),
{
    reveal_with_fuel(days_before_month, 14);
}

/// Law: days are numbered in the order of the calendar.
pub proof fn law_day_numbers_follow_calendar(a: Civil, b: Civil)
    requires
        is_civil(a),
        is_civil(b),
    ensures
        civil_before(a, b) <==> day_number(a) < day_number(b),
        a == b <==> day_number(a) == day_number(b),
{
    if civil_before(a, b) {
        lemma_before_has_smaller_number(a, b);
    } else if civil_before(b, a) {
        lemma_before_has_smaller_number(b, a);
    }
}

proof fn lemma_before_has_smaller_number(a: Civil, b: Civil)
    requires
        is_civil(a),
        is_civil(b),
        civil_before(a, b),
    ensures
        day_number(a) < day_number(b),
{
    if a.year < b.year {
        lemma_year_order(a.year, b.year);
        lemma_year_length(a.year);
        lemma_months_fill_year(a.year);
        lemma_month_order(a.year, a.month, 13);
        lemma_months_nonnegative(b.year, b.month);
    } else if a.month < b.month {
        lemma_month_order(a.year, a.month, b.month);
    }
}

proof fn lemma_months_nonnegative(year: int, month: int)
    ensures
        days_before_month(year, month) >= 0,
    decreases month,
{
    if month > 1 {
        lemma_months_nonnegative(year, month - 1);
    }
}

/// The day after `c`.
spec fn next_civil(c: Civil) -> Civil {
    if c.day < days_in_month(c.year, c.month) {
        Civil { day: c.day + 1, ..c }
    } else if c.month < 12 {
        Civil { month: c.month + 1, day: 1, ..c }
    } else {
        Civil { year: c.year + 1, month: 1, day: 1 }
    }
}

/// The day before `c`.
spec fn previous_civil(c: Civil) -> Civil {
    if c.day > 1 {
        Civil { day: c.day - 1, ..c }
    } else if c.month > 1 {
        Civil { month: c.month - 1, day: days_in_month(c.year, c.month - 1), ..c }
    } else {
        Civil { year: c.year - 1, month: 12, day: 31 }
    }
}

proof fn lemma_next_civil(c: Civil)
    requires
        is_civil(c),
    ensures
        is_civil(next_civil(c)),
        day_number(next_civil(c)) == day_number(c) + 1,
{
    lemma_year_length(c.year);
    lemma_months_fill_year(c.year);
}

proof fn lemma_previous_civil(c: Civil)
    requires
        is_civil(c),
    ensures
        is_civil(previous_civil(c)),
        day_number(previous_civil(c)) == day_number(c) - 1,
{
    lemma_year_length(c.year - 1);
    lemma_months_fill_year(c.year - 1);
}

proof fn lemma_some_civil(day: int) -> (c: Civil)
    ensures
        is_civil(c),
        day_number(c) == day,
    decreases (if day < 0 { -day } else { day }),
{
    if day == 0 {
        Civil { year: 1970, month: 1, day: 1 }
    } else if day > 0 {
        let c = lemma_some_civil(day - 1);
        lemma_next_civil(c);
        next_civil(c)
    } else {
        let c = lemma_some_civil(day + 1);
        lemma_previous_civil(c);
        previous_civil(c)
    }
}

/// Law: every number is that of exactly one day.
pub proof fn law_every_day_has_one_date(day: int)
    ensures
        is_civil(civil_of(day)),
        day_number(civil_of(day)) == day,
        forall|c: Civil| #[trigger] is_civil(c) && day_number(c) == day ==> c == civil_of(day),
{
    let found = lemma_some_civil(day);
    assert(is_civil(found) && day_number(found) == day);
    assert forall|c: Civil| #[trigger] is_civil(c) && day_number(c) == day implies c == civil_of(
        day,
    ) by {
        law_day_numbers_follow_calendar(c, civil_of(day));
    }
}

/// The first day that can be shown.
spec fn first_civil() -> Civil {
    Civil { year: -262_143, month: 1, day: 1 }
}

/// The last day that can be shown.
spec fn last_civil() -> Civil {
    Civil { year: 262_142, month: 12, day: 31 }
}

proof fn lemma_numbers_of_ends()
    ensures
        is_civil(first_civil()),
        is_civil(last_civil()),
        day_number(first_civil()) == -96_465_292,
        day_number(last_civil()) == 95_026_236,
{
    lemma_months_fill_year(262_142);
    assert(days_before_month(262_142, 12) + days_in_month(262_142, 12) == days_before_month(
        262_142,
        13,
    ));
    assert(days_before_month(-262_143, 1) == 0);
}

/// The first instant of a day in the years that can be written can be shown.
pub proof fn lemma_instants_of_years(c: Civil)
    requires
        is_civil(c),
        -262_143 <= c.year <= 262_142,
    ensures
        in_utc_range(day_number(c) * DAY),
{
    lemma_numbers_of_ends();
    law_day_numbers_follow_calendar(c, first_civil());
    law_day_numbers_follow_calendar(last_civil(), c);
}

/// The days of an instant that can be shown lie in the years that can be
/// written.
pub proof fn lemma_range_of_years(secs: int)
    requires
        in_utc_range(secs),
    ensures
        -262_143 <= civil_of(day_of(secs)).year <= 262_142,
{
    let c = civil_of(day_of(secs));
    law_every_day_has_one_date(day_of(secs));
    lemma_numbers_of_ends();
    assert(-96_465_292 <= day_of(secs) <= 95_026_236);
    law_day_numbers_follow_calendar(c, first_civil());
    law_day_numbers_follow_calendar(last_civil(), c);
}

/// Law: a day spans the 86400 seconds that follow those of the days before it.
pub proof fn law_days_span_their_seconds(secs: int)
    ensures
        day_of(secs) * 86_400 <= secs < day_of(secs) * 86_400 + 86_400,
        forall|day: int|
            #![trigger day * 86_400]
            day * 86_400 <= secs < day * 86_400 + 86_400 ==> day == day_of(secs),
{
}

/// Law: the count of days begins with the first day of 1970. The day after one is
/// the next of its month, and after the last of a month the first of the next
/// month. April, June, September and November have 30 days, February 28, or 29 in
/// a leap year, and the other months 31.
pub proof fn law_days_follow_one_another(day: int)
    ensures
        civil_of(0) == (Civil { year: 1970, month: 1, day: 1 }),
        ({
            let today = civil_of(day);
            let tomorrow = civil_of(day + 1);
            let leap = today.year % 4 == 0 && today.year % 100 != 0 || today.year % 400 == 0;
            let length: int = if today.month == 2 {
                if leap {
                    29
                } else {
                    28
                }
            } else if today.month == 4 || today.month == 6 || today.month == 9 || today.month
                == 11 {
                30
            } else {
                31
            };
            &&& 1 <= today.month <= 12
            &&& 1 <= today.day <= length
            &&& today.day < length ==> tomorrow == (Civil { day: today.day + 1, ..today })
            &&& today.day == length && today.month < 12 ==> tomorrow == (Civil {
                year: today.year,
                month: today.month + 1,
                day: 1,
            })
            &&& today.day == length && today.month == 12 ==> tomorrow == (Civil {
                year: today.year + 1,
                month: 1,
                day: 1,
            })
        }),
{
    let today = civil_of(day);
    law_every_day_has_one_date(day);
    law_every_day_has_one_date(day + 1);
    law_every_day_has_one_date(0);
    lemma_next_civil(today);
    assert(is_civil(next_civil(today)));
    assert(today.year % 400 == 0 ==> today.year % 4 == 0) by {
        assert(today.year == 400 * (today.year / 400) + today.year % 400);
    }
    let epoch = Civil { year: 1970, month: 1, day: 1 };
    assert(is_civil(epoch) && day_number(epoch) == 0);
}

/// Law: the years 0 to 9999 are the seconds from -62167219200 to 253402300799.
pub proof fn law_instants_of_four_digit_years(secs: int)
    ensures
        -62_167_219_200 <= secs < 253_402_300_800 <==> 0 <= civil_of(day_of(secs)).year < 10_000,
{
    let c = civil_of(day_of(secs));
    let first = Civil { year: 0, month: 1, day: 1 };
    let last = Civil { year: 9999, month: 12, day: 31 };
    law_every_day_has_one_date(day_of(secs));
    assert(days_before_month(0, 1) == 0);
    assert(is_civil(first) && day_number(first) == -719_528);
    lemma_months_fill_year(9999);
    assert(days_before_month(9999, 12) + days_in_month(9999, 12) == days_before_month(9999, 13));
    assert(is_civil(last) && day_number(last) == 2_932_896);
    law_day_numbers_follow_calendar(c, first);
    law_day_numbers_follow_calendar(last, c);
}

} // verus!
