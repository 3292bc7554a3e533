//! What holds of daily highs and lows.

use vstd::prelude::*;

use crate::binary64::{extreme, greatest, least, Binary64};
use crate::binary64::{INFINITY, LARGEST, SMALLEST};
use crate::binary64::{
    law_extreme_ignores_order, law_greatest_is_an_upper_bound, law_least_is_a_lower_bound,
};
use crate::calendar::{civil_of, in_utc_range, DAY};
use crate::calendar::law_instants_of_four_digit_years;
use crate::daily::{can_summarise, has_day, is_daily_summary, local_day, temperatures_on};
use crate::daily::NOON;
use crate::date_text::{
    axis_pattern, clock_text, date_pattern, day_text, moment_pattern, utc_text,
};
use crate::date_text::{
    law_day_text_is_injective, law_labels_agree, law_text_order_is_time_order,
};
use crate::records::TemperatureRecord;
use crate::text::{law_text_order_is_total, text_less, two_digits};

verus! {

/// Two summaries of the same records have their points on the same days up to
/// the position `n`.
proof fn lemma_same_days_up_to(
    p: Seq<TemperatureRecord>,
    q: Seq<TemperatureRecord>,
    records: Seq<TemperatureRecord>,
    offset: int,
    p_high: bool,
    q_high: bool,
    n: int,
)
    requires
        is_daily_summary(p, records, offset, p_high),
        is_daily_summary(q, records, offset, q_high),
        0 <= n <= p.len(),
        n <= q.len(),
    ensures
        forall|i: int|
            0 <= i < n ==> local_day(#[trigger] p[i], offset) == local_day(q[i], offset),
    decreases n,
{
    if n > 0 {
        lemma_same_days_up_to(p, q, records, offset, p_high, q_high, n - 1);
        let a = local_day(p[n - 1], offset);
        let b = local_day(q[n - 1], offset);
        if a != b {
            if day_text(a) == day_text(b) {
                law_day_text_is_injective(a, b);
            }
            law_text_order_is_total(day_text(a), day_text(b));
            lemma_no_earlier_stranger(p, q, records, offset, p_high, q_high, n - 1);
            lemma_no_earlier_stranger(q, p, records, offset, q_high, p_high, n - 1);
        }
    }
}

/// The day of a point of one summary is that of a point of the other.
proof fn lemma_day_in_both(
    p: Seq<TemperatureRecord>,
    q: Seq<TemperatureRecord>,
    records: Seq<TemperatureRecord>,
    offset: int,
    p_high: bool,
    q_high: bool,
    i: int,
)
    requires
        is_daily_summary(p, records, offset, p_high),
        is_daily_summary(q, records, offset, q_high),
        0 <= i < p.len(),
    ensures
        has_day(q, offset, local_day(p[i], offset)),
{
    let day = local_day(p[i], offset);
    assert(has_day(records, offset, day));
    let k = choose|k: int| 0 <= k < records.len() && #[trigger] local_day(records[k], offset) == day;
    assert(has_day(q, offset, local_day(records[k], offset)));
}

/// Where two summaries agree before position `i`, the day of one at `i` cannot
/// come before that of the other.
proof fn lemma_no_earlier_stranger(
    p: Seq<TemperatureRecord>,
    q: Seq<TemperatureRecord>,
    records: Seq<TemperatureRecord>,
    offset: int,
    p_high: bool,
    q_high: bool,
    i: int,
)
    requires
        is_daily_summary(p, records, offset, p_high),
        is_daily_summary(q, records, offset, q_high),
        0 <= i < p.len(),
        i < q.len(),
        forall|j: int|
            0 <= j < i ==> local_day(#[trigger] p[j], offset) == local_day(q[j], offset),
    ensures
        !text_less(day_text(local_day(p[i], offset)), day_text(local_day(q[i], offset))),
{
    let a = local_day(p[i], offset);
    lemma_day_in_both(p, q, records, offset, p_high, q_high, i);
    let j = choose|j: int| 0 <= j < q.len() && #[trigger] local_day(q[j], offset) == a;
    law_text_order_is_total(day_text(a), day_text(a));
    if j < i {
        assert(local_day(p[j], offset) == a);
        assert(text_less(day_text(local_day(p[j], offset)), day_text(a)));
    } else if j > i {
        assert(text_less(
            day_text(local_day(q[i], offset)),
            day_text(local_day(q[j], offset)),
        ));
        law_text_order_is_total(day_text(a), day_text(local_day(q[i], offset)));
    }
}

proof fn lemma_not_shorter(
    p: Seq<TemperatureRecord>,
    q: Seq<TemperatureRecord>,
    records: Seq<TemperatureRecord>,
    offset: int,
    p_high: bool,
    q_high: bool,
)
    requires
        is_daily_summary(p, records, offset, p_high),
        is_daily_summary(q, records, offset, q_high),
    ensures
        q.len() <= p.len(),
{
    if p.len() < q.len() {
        let n = p.len() as int;
        lemma_same_days_up_to(p, q, records, offset, p_high, q_high, n);
        lemma_day_in_both(q, p, records, offset, q_high, p_high, n);
        let day = local_day(q[n], offset);
        let j = choose|j: int| 0 <= j < p.len() && #[trigger] local_day(p[j], offset) == day;
        assert(local_day(q[j], offset) == day);
        assert(text_less(day_text(local_day(q[j], offset)), day_text(local_day(q[n], offset))));
        law_text_order_is_total(day_text(day), day_text(day));
    }
}

/// Law: daily highs and daily lows of the same records lie at the same
/// instants.
pub proof fn law_highs_and_lows_share_instants(
    highs: Seq<TemperatureRecord>,
    lows: Seq<TemperatureRecord>,
    records: Seq<TemperatureRecord>,
    offset: int,
)
    requires
        is_daily_summary(highs, records, offset, true),
        is_daily_summary(lows, records, offset, false),
    ensures
        highs.len() == lows.len(),
        forall|i: int|
            0 <= i < highs.len() ==> (#[trigger] highs[i]).timestamp == lows[i].timestamp,
{
    lemma_not_shorter(highs, lows, records, offset, true, false);
    lemma_not_shorter(lows, highs, records, offset, false, true);
    lemma_same_days_up_to(highs, lows, records, offset, true, false, highs.len() as int);
}

/// Law: the daily highs, or lows, of some records are determined by them.
pub proof fn law_summary_is_determined(
    p: Seq<TemperatureRecord>,
    q: Seq<TemperatureRecord>,
    records: Seq<TemperatureRecord>,
    offset: int,
    high: bool,
)
    requires
        is_daily_summary(p, records, offset, high),
        is_daily_summary(q, records, offset, high),
    ensures
        p == q,
{
    lemma_not_shorter(p, q, records, offset, high, high);
    lemma_not_shorter(q, p, records, offset, high, high);
    lemma_same_days_up_to(p, q, records, offset, high, high, p.len() as int);
    assert forall|i: int| 0 <= i < p.len() implies p[i] == q[i] by {
        assert(local_day(p[i], offset) == local_day(q[i], offset));
        assert(p[i].timestamp == q[i].timestamp);
    }
    assert(p =~= q);
}

/// Law: no two points of a summary lie on the same local day.
pub proof fn law_one_point_per_day(
    points: Seq<TemperatureRecord>,
    records: Seq<TemperatureRecord>,
    offset: int,
    high: bool,
    i: int,
    j: int,
)
    requires
        is_daily_summary(points, records, offset, high),
        0 <= i < points.len(),
        0 <= j < points.len(),
        local_day(points[i], offset) == local_day(points[j], offset),
    ensures
        i == j,
{
    let text = day_text(local_day(points[i], offset));
    law_text_order_is_total(text, text);
    if i < j {
        assert(text_less(
            day_text(local_day(points[i], offset)),
            day_text(local_day(points[j], offset)),
        ));
    } else if j < i {
        assert(text_less(
            day_text(local_day(points[j], offset)),
            day_text(local_day(points[i], offset)),
        ));
    }
}

/// Law: every point of a summary is at noon by the clock of the location: its
/// moment is written as the date of its local day and 12:00.
pub proof fn law_points_are_at_local_noon(
    points: Seq<TemperatureRecord>,
    records: Seq<TemperatureRecord>,
    offset: int,
    high: bool,
    i: int,
)
    requires
        is_daily_summary(points, records, offset, high),
        0 <= i < points.len(),
    ensures
        clock_text(points[i].timestamp + offset) == two_digits(12) + seq![':'] + two_digits(0),
        utc_text(points[i].timestamp + offset, moment_pattern()) == day_text(
            local_day(points[i], offset),
        ) + seq![' '] + two_digits(12) + seq![':'] + two_digits(0),
{
    let day = local_day(points[i], offset);
    assert((day * DAY + NOON) % (DAY as int) == NOON);
    reveal_strlit("%Y-%m-%d");
    reveal_strlit("%m/%d %H:%M");
    reveal_strlit("%Y-%m-%d %H:%M");
    assert(moment_pattern().len() == 14);
    assert(date_pattern().len() == 8);
    assert(axis_pattern().len() == 11);
    let text = utc_text(points[i].timestamp + offset, moment_pattern());
    assert(text =~= day_text(day) + seq![' '] + two_digits(12) + seq![':'] + two_digits(0));
}

/// Law: while the local dates lie in the years 0 to 9999, the points of a
/// summary go forward in time.
pub proof fn law_points_go_forward(
    points: Seq<TemperatureRecord>,
    records: Seq<TemperatureRecord>,
    offset: int,
    high: bool,
)
    requires
        is_daily_summary(points, records, offset, high),
        forall|k: int|
            0 <= k < records.len() ==> 0 <= civil_of(
                local_day(#[trigger] records[k], offset),
            ).year < 10_000,
    ensures
        forall|i: int, j: int|
            0 <= i < j < points.len() ==> (#[trigger] points[i]).timestamp < (
            #[trigger] points[j]).timestamp,
{
    assert forall|i: int| 0 <= i < points.len() implies 0 <= civil_of(
        local_day(#[trigger] points[i], offset),
    ).year < 10_000 by {
        let day = local_day(points[i], offset);
        assert(has_day(records, offset, day));
        let k = choose|k: int|
            0 <= k < records.len() && #[trigger] local_day(records[k], offset) == day;
        assert(0 <= civil_of(local_day(records[k], offset)).year < 10_000);
    }
    assert forall|i: int, j: int| 0 <= i < j < points.len() implies (#[trigger] points[i]).timestamp
        < (#[trigger] points[j]).timestamp by {
        law_text_order_is_time_order(local_day(points[i], offset), local_day(points[j], offset));
    }
}

/// The temperature of a record is among those of its day.
proof fn lemma_temperature_of_day(records: Seq<TemperatureRecord>, offset: int, k: int)
    requires
        0 <= k < records.len(),
    ensures
        temperatures_on(records, offset, local_day(records[k], offset)).contains(
            records[k].temperature,
        ),
    decreases records.len(),
{
    let day = local_day(records[k], offset);
    let all = temperatures_on(records, offset, day);
    let rest = records.drop_last();
    if k == records.len() - 1 {
        assert(all[all.len() - 1] == records[k].temperature);
    } else {
        lemma_temperature_of_day(rest, offset, k);
        let before = temperatures_on(rest, offset, day);
        assert(rest[k] == records[k]);
        let m = choose|m: int| 0 <= m < before.len() && before[m] == records[k].temperature;
        assert(all[m] == before[m]);
    }
}

/// Law: no record lies above the high, or below the low, of its local day.
pub proof fn law_records_lie_between_low_and_high(
    highs: Seq<TemperatureRecord>,
    lows: Seq<TemperatureRecord>,
    records: Seq<TemperatureRecord>,
    offset: int,
    k: int,
    i: int,
)
    requires
        is_daily_summary(highs, records, offset, true),
        is_daily_summary(lows, records, offset, false),
        0 <= k < records.len(),
        records[k].temperature.is_number(),
        0 <= i < highs.len(),
        local_day(highs[i], offset) == local_day(records[k], offset),
    ensures
        i < lows.len(),
        lows[i].temperature.rank() <= records[k].temperature.rank()
            <= highs[i].temperature.rank(),
        !highs[i].temperature.less(lows[i].temperature),
{
    law_highs_and_lows_share_instants(highs, lows, records, offset);
    assert(highs[i].timestamp == lows[i].timestamp);
    let day = local_day(records[k], offset);
    let values = temperatures_on(records, offset, day);
    lemma_temperature_of_day(records, offset, k);
    let m = choose|m: int| 0 <= m < values.len() && values[m] == records[k].temperature;
    law_greatest_is_an_upper_bound(values);
    law_least_is_a_lower_bound(values);
    assert(values[m].is_number());
}

/// A temperature of a day is that of one of its records.
proof fn lemma_record_of_temperature(
    records: Seq<TemperatureRecord>,
    offset: int,
    day: int,
    value: Binary64,
) -> (k: int)
    requires
        temperatures_on(records, offset, day).contains(value),
    ensures
        0 <= k < records.len(),
        local_day(records[k], offset) == day,
        records[k].temperature == value,
    decreases records.len(),
{
    let all = temperatures_on(records, offset, day);
    let m = choose|m: int| 0 <= m < all.len() && all[m] == value;
    let end = records.len() - 1;
    let rest = records.drop_last();
    let before = temperatures_on(rest, offset, day);
    if m < before.len() {
        assert(before[m] == value);
        lemma_record_of_temperature(rest, offset, day, value)
    } else {
        end
    }
}

/// Law: where a day has a finite temperature, its high, or low, is the
/// temperature of one of its records.
pub proof fn law_extremes_are_measured(
    points: Seq<TemperatureRecord>,
    records: Seq<TemperatureRecord>,
    offset: int,
    high: bool,
    i: int,
    finite: int,
)
    requires
        is_daily_summary(points, records, offset, high),
        0 <= i < points.len(),
        0 <= finite < records.len(),
        local_day(records[finite], offset) == local_day(points[i], offset),
        records[finite].temperature.magnitude() < INFINITY,
    ensures
        exists|k: int|
            0 <= k < records.len() && #[trigger] local_day(records[k], offset) == local_day(
                points[i],
                offset,
            ) && records[k].temperature == points[i].temperature,
{
    let day = local_day(points[i], offset);
    let values = temperatures_on(records, offset, day);
    lemma_temperature_of_day(records, offset, finite);
    let m = choose|m: int| 0 <= m < values.len() && values[m] == records[finite].temperature;
    law_greatest_is_an_upper_bound(values);
    law_least_is_a_lower_bound(values);
    assert(values[m].is_number());
    assert(values.contains(extreme(values, high))) by {
        if !values.contains(extreme(values, high)) {
            assert(values[m] == extreme(values, high));
        }
    }
    let k = lemma_record_of_temperature(records, offset, day, extreme(values, high));
    assert(local_day(records[k], offset) == day);
}

/// Where exactly one record lies on a day, its temperature is the only one.
proof fn lemma_only_temperature(records: Seq<TemperatureRecord>, offset: int, i: int)
    requires
        0 <= i < records.len(),
        forall|j: int|
            0 <= j < records.len() && j != i ==> local_day(#[trigger] records[j], offset)
                != local_day(records[i], offset),
    ensures
        temperatures_on(records, offset, local_day(records[i], offset)) == seq![
            records[i].temperature,
        ],
    decreases records.len(),
{
    let day = local_day(records[i], offset);
    let rest = records.drop_last();
    if i == records.len() - 1 {
        assert(!has_day(rest, offset, day)) by {
            if has_day(rest, offset, day) {
                let k = choose|k: int|
                    0 <= k < rest.len() && #[trigger] local_day(rest[k], offset) == day;
                assert(local_day(records[k], offset) == day);
            }
        }
        crate::daily::lemma_no_temperatures(rest, offset, day);
        assert(temperatures_on(records, offset, day) =~= seq![records[i].temperature]);
    } else {
        assert forall|j: int| 0 <= j < rest.len() && j != i implies local_day(
            #[trigger] rest[j],
            offset,
        ) != local_day(rest[i], offset) by {
            assert(local_day(records[j], offset) != day);
        }
        assert(local_day(records[records.len() - 1], offset) != day);
        lemma_only_temperature(rest, offset, i);
    }
}

/// A summary is its own summary, of the kind `again`, if folding each of its
/// temperatures alone gives the temperature back.
proof fn lemma_summary_of_points(
    points: Seq<TemperatureRecord>,
    records: Seq<TemperatureRecord>,
    offset: int,
    high: bool,
    again: bool,
)
    requires
        is_daily_summary(points, records, offset, high),
        forall|i: int|
            0 <= i < points.len() ==> extreme(
                seq![(#[trigger] points[i]).temperature],
                again,
            ) == points[i].temperature,
    ensures
        is_daily_summary(points, points, offset, again),
{
    assert forall|i: int| 0 <= i < points.len() implies {
        let day = local_day(#[trigger] points[i], offset);
        &&& points[i].timestamp + offset == day * DAY + NOON
        &&& points[i].temperature == extreme(temperatures_on(points, offset, day), again)
        &&& has_day(points, offset, day)
    } by {
        let day = local_day(points[i], offset);
        assert forall|j: int| 0 <= j < points.len() && j != i implies local_day(
            #[trigger] points[j],
            offset,
        ) != day by {
            if local_day(points[j], offset) == day {
                law_one_point_per_day(points, records, offset, high, i, j);
            }
        }
        lemma_only_temperature(points, offset, i);
    }
    assert forall|k: int| 0 <= k < points.len() implies has_day(
        points,
        offset,
        local_day(#[trigger] points[k], offset),
    ) by {}
}

/// The extremes of a single value are that value, within the finite limit from
/// which the folding starts.
proof fn lemma_extreme_of_one(value: Binary64, high: bool)
    requires
        value.is_number(),
        high ==> value.rank() >= (Binary64 { bits: SMALLEST }).rank(),
        !high ==> value.rank() <= (Binary64 { bits: LARGEST }).rank(),
    ensures
        extreme(seq![value], high) == value,
{
    assert(seq![value].drop_last() =~= Seq::<Binary64>::empty());
    reveal_with_fuel(greatest, 2);
    reveal_with_fuel(least, 2);
}

/// Law: summarising the daily highs, or lows, once more changes nothing.
pub proof fn law_summary_of_summary(
    points: Seq<TemperatureRecord>,
    records: Seq<TemperatureRecord>,
    offset: int,
    high: bool,
)
    requires
        is_daily_summary(points, records, offset, high),
    ensures
        is_daily_summary(points, points, offset, high),
{
    assert forall|i: int| 0 <= i < points.len() implies extreme(
        seq![(#[trigger] points[i]).temperature],
        high,
    ) == points[i].temperature by {
        let values = temperatures_on(records, offset, local_day(points[i], offset));
        law_greatest_is_an_upper_bound(values);
        law_least_is_a_lower_bound(values);
        lemma_extreme_of_one(points[i].temperature, high);
    }
    lemma_summary_of_points(points, records, offset, high, high);
}

/// Law: where the daily highs are finite, their daily lows are the same, and
/// where the daily lows are finite, so are their daily highs.
pub proof fn law_summary_of_other_kind(
    points: Seq<TemperatureRecord>,
    records: Seq<TemperatureRecord>,
    offset: int,
    high: bool,
)
    requires
        is_daily_summary(points, records, offset, high),
        forall|i: int|
            0 <= i < points.len() ==> (#[trigger] points[i]).temperature.magnitude() < INFINITY,
    ensures
        is_daily_summary(points, points, offset, !high),
{
    assert forall|i: int| 0 <= i < points.len() implies extreme(
        seq![(#[trigger] points[i]).temperature],
        !high,
    ) == points[i].temperature by {
        lemma_extreme_of_one(points[i].temperature, !high);
    }
    lemma_summary_of_points(points, records, offset, high, !high);
}

/// Where the same records occur, the same temperatures occur on a day.
proof fn lemma_same_temperatures(
    a: Seq<TemperatureRecord>,
    b: Seq<TemperatureRecord>,
    offset: int,
    day: int,
    value: Binary64,
)
    requires
        forall|r: TemperatureRecord| #[trigger] a.contains(r) ==> b.contains(r),
        temperatures_on(a, offset, day).contains(value),
    ensures
        temperatures_on(b, offset, day).contains(value),
{
    let k = lemma_record_of_temperature(a, offset, day, value);
    assert(a.contains(a[k]));
    let m = choose|m: int| 0 <= m < b.len() && b[m] == a[k];
    lemma_temperature_of_day(b, offset, m);
}

/// Where the same records occur, records lie on the same days.
proof fn lemma_same_day(
    a: Seq<TemperatureRecord>,
    b: Seq<TemperatureRecord>,
    offset: int,
    day: int,
)
    requires
        forall|r: TemperatureRecord| #[trigger] a.contains(r) ==> b.contains(r),
        has_day(a, offset, day),
    ensures
        has_day(b, offset, day),
{
    let k = choose|k: int| 0 <= k < a.len() && #[trigger] local_day(a[k], offset) == day;
    assert(a.contains(a[k]));
    let m = choose|m: int| 0 <= m < b.len() && b[m] == a[k];
    assert(local_day(b[m], offset) == day);
}

/// Law: a summary depends neither on the order of the records nor on how often
/// one is repeated.
pub proof fn law_summary_depends_on_which_records(
    points: Seq<TemperatureRecord>,
    a: Seq<TemperatureRecord>,
    b: Seq<TemperatureRecord>,
    offset: int,
    high: bool,
)
    requires
        is_daily_summary(points, a, offset, high),
        forall|r: TemperatureRecord| #[trigger] a.contains(r) <==> b.contains(r),
    ensures
        is_daily_summary(points, b, offset, high),
{
    assert forall|r: TemperatureRecord| #[trigger] b.contains(r) implies a.contains(r) by {}
    assert forall|i: int| 0 <= i < points.len() implies {
        let day = local_day(#[trigger] points[i], offset);
        &&& points[i].timestamp + offset == day * DAY + NOON
        &&& points[i].temperature == extreme(temperatures_on(b, offset, day), high)
        &&& has_day(b, offset, day)
    } by {
        let day = local_day(points[i], offset);
        let x = temperatures_on(a, offset, day);
        let y = temperatures_on(b, offset, day);
        assert forall|v: Binary64| #[trigger] x.contains(v) <==> y.contains(v) by {
            if x.contains(v) {
                lemma_same_temperatures(a, b, offset, day, v);
            }
            if y.contains(v) {
                lemma_same_temperatures(b, a, offset, day, v);
            }
        }
        law_extreme_ignores_order(x, y, high);
        lemma_same_day(a, b, offset, day);
    }
    assert forall|k: int| 0 <= k < b.len() implies has_day(
        points,
        offset,
        local_day(#[trigger] b[k], offset),
    ) by {
        assert(b.contains(b[k]));
        let m = choose|m: int| 0 <= m < a.len() && a[m] == b[k];
        assert(has_day(points, offset, local_day(a[m], offset)));
    }
}

/// Law: the order of the records does not matter to their summary.
pub proof fn law_order_of_records_does_not_matter(
    points: Seq<TemperatureRecord>,
    a: Seq<TemperatureRecord>,
    b: Seq<TemperatureRecord>,
    offset: int,
    high: bool,
)
    requires
        is_daily_summary(points, a, offset, high),
        a.to_multiset() == b.to_multiset(),
    ensures
        is_daily_summary(points, b, offset, high),
{
    a.to_multiset_ensures();
    b.to_multiset_ensures();
    assert forall|r: TemperatureRecord| #[trigger] a.contains(r) <==> b.contains(r) by {
        assert(a.contains(r) <==> a.to_multiset().count(r) > 0);
        assert(b.contains(r) <==> b.to_multiset().count(r) > 0);
    }
    law_summary_depends_on_which_records(points, a, b, offset, high);
}

/// Law: the day to which a record is counted is the one that the clock of the
/// location shows: the offset from UTC is added to the instant, and the day is
/// the one whose seconds hold the sum, and whose date is written for it.
pub proof fn law_records_count_to_their_local_day(record: TemperatureRecord, offset: int)
    ensures
        local_day(record, offset) * 86_400 <= record.timestamp + offset,
        record.timestamp + offset < (local_day(record, offset) + 1) * 86_400,
        day_text(local_day(record, offset)) == utc_text(
            record.timestamp + offset,
            date_pattern(),
        ),
{
    law_labels_agree(record.timestamp + offset, local_day(record, offset));
}

/// Law: every point of a summary is at noon by the clock of the location, and no
/// two are at the same instant.
pub proof fn law_points_lie_at_different_noons(
    points: Seq<TemperatureRecord>,
    records: Seq<TemperatureRecord>,
    offset: int,
    high: bool,
)
    requires
        is_daily_summary(points, records, offset, high),
    ensures
        forall|i: int|
            0 <= i < points.len() ==> ((#[trigger] points[i]).timestamp + offset) % 86_400
                == 43_200,
        forall|i: int, j: int|
            0 <= i < j < points.len() ==> (#[trigger] points[i]).timestamp != (
            #[trigger] points[j]).timestamp,
{
    assert forall|i: int| 0 <= i < points.len() implies ((#[trigger] points[i]).timestamp + offset)
        % 86_400 == 43_200 by {
        let day = local_day(points[i], offset);
        assert((day * DAY + NOON) % 86_400 == 43_200);
    }
    assert forall|i: int, j: int| 0 <= i < j < points.len() implies (#[trigger] points[i]).timestamp
        != (#[trigger] points[j]).timestamp by {
        if points[i].timestamp == points[j].timestamp {
            law_one_point_per_day(points, records, offset, high, i, j);
        }
    }
}

/// Law: every record lies on the local day of a point, within the twelve hours
/// before its noon or the twelve hours from it on.
pub proof fn law_every_record_has_its_point(
    points: Seq<TemperatureRecord>,
    records: Seq<TemperatureRecord>,
    offset: int,
    high: bool,
    k: int,
)
    requires
        is_daily_summary(points, records, offset, high),
        0 <= k < records.len(),
    ensures
        exists|i: int|
            0 <= i < points.len() && (#[trigger] points[i]).timestamp - 43_200
                <= records[k].timestamp < points[i].timestamp + 43_200,
{
    let day = local_day(records[k], offset);
    assert(has_day(points, offset, day));
    let i = choose|i: int| 0 <= i < points.len() && #[trigger] local_day(points[i], offset) == day;
    lemma_same_day_as_point(points, records, offset, high, i, k);
    assert(points[i].timestamp - 43_200 <= records[k].timestamp);
}

/// Law: no day without records has a point: some record lies on the local day of
/// every point.
pub proof fn law_every_point_has_a_record(
    points: Seq<TemperatureRecord>,
    records: Seq<TemperatureRecord>,
    offset: int,
    high: bool,
    i: int,
)
    requires
        is_daily_summary(points, records, offset, high),
        0 <= i < points.len(),
    ensures
        exists|k: int|
            0 <= k < records.len() && points[i].timestamp - 43_200 <= (
            #[trigger] records[k]).timestamp < points[i].timestamp + 43_200,
{
    let day = local_day(points[i], offset);
    assert(has_day(records, offset, day));
    let k = choose|k: int|
        0 <= k < records.len() && #[trigger] local_day(records[k], offset) == day;
    lemma_same_day_as_point(points, records, offset, high, i, k);
    assert(points[i].timestamp - 43_200 <= records[k].timestamp);
}

/// A record lies on the local day of a point exactly if it lies within the
/// twelve hours before the point or the twelve hours from it on.
proof fn lemma_same_day_as_point(
    points: Seq<TemperatureRecord>,
    records: Seq<TemperatureRecord>,
    offset: int,
    high: bool,
    i: int,
    k: int,
)
    requires
        is_daily_summary(points, records, offset, high),
        0 <= i < points.len(),
        0 <= k < records.len(),
    ensures
        local_day(records[k], offset) == local_day(points[i], offset) <==> points[i].timestamp
            - 43_200 <= records[k].timestamp < points[i].timestamp + 43_200,
{
    let day = local_day(points[i], offset);
    let instant = records[k].timestamp + offset;
    assert(points[i].timestamp + offset == day * 86_400 + 43_200);
    law_records_count_to_their_local_day(records[k], offset);
    assert(local_day(records[k], offset) == day <==> day * 86_400 <= instant < day * 86_400
        + 86_400);
}

/// Law: no record of the local day of a point is above a high, or below a low.
/// The high, or low, is the temperature of a record of that day, unless none of
/// them is finite. Then it may be the finite value from which the folding starts,
/// beyond which a high, or low, never falls back.
pub proof fn law_points_hold_the_extremes_of_their_day(
    points: Seq<TemperatureRecord>,
    records: Seq<TemperatureRecord>,
    offset: int,
    high: bool,
    i: int,
)
    requires
        is_daily_summary(points, records, offset, high),
        0 <= i < points.len(),
    ensures
        forall|k: int|
            0 <= k < records.len() && points[i].timestamp - 43_200 <= (
            #[trigger] records[k]).timestamp < points[i].timestamp + 43_200 ==> !(if high {
                points[i].temperature.less(records[k].temperature)
            } else {
                records[k].temperature.less(points[i].temperature)
            }),
        (exists|k: int|
            0 <= k < records.len() && points[i].timestamp - 43_200 <= (
            #[trigger] records[k]).timestamp < points[i].timestamp + 43_200
                && records[k].temperature == points[i].temperature) || ({
            &&& points[i].temperature.bits == (if high {
                0xFFEF_FFFF_FFFF_FFFFu64
            } else {
                0x7FEF_FFFF_FFFF_FFFFu64
            })
            &&& forall|k: int|
                0 <= k < records.len() && points[i].timestamp - 43_200 <= (
                #[trigger] records[k]).timestamp < points[i].timestamp + 43_200 ==> !(
                records[k].temperature.bits < 0x7FF0_0000_0000_0000 || 0x8000_0000_0000_0000
                    <= records[k].temperature.bits < 0xFFF0_0000_0000_0000)
        }),
        points[i].temperature.is_number(),
        high ==> !points[i].temperature.less(Binary64 { bits: 0xFFEF_FFFF_FFFF_FFFF }),
        !high ==> !(Binary64 { bits: 0x7FEF_FFFF_FFFF_FFFF }).less(points[i].temperature),
{
    let day = local_day(points[i], offset);
    let values = temperatures_on(records, offset, day);
    law_greatest_is_an_upper_bound(values);
    law_least_is_a_lower_bound(values);
    assert forall|k: int|
        0 <= k < records.len() && points[i].timestamp - 43_200 <= (#[trigger] records[k]).timestamp
            < points[i].timestamp + 43_200 implies !(if high {
        points[i].temperature.less(records[k].temperature)
    } else {
        records[k].temperature.less(points[i].temperature)
    }) by {
        lemma_same_day_as_point(points, records, offset, high, i, k);
        lemma_temperature_of_day(records, offset, k);
        let m = choose|m: int| 0 <= m < values.len() && values[m] == records[k].temperature;
        assert(values[m].is_number() || !values[m].is_number());
    }
    if values.contains(points[i].temperature) {
        let k = lemma_record_of_temperature(records, offset, day, points[i].temperature);
        lemma_same_day_as_point(points, records, offset, high, i, k);
        assert(records[k].temperature == points[i].temperature);
    } else {
        assert forall|k: int|
            0 <= k < records.len() && points[i].timestamp - 43_200 <= (
            #[trigger] records[k]).timestamp < points[i].timestamp + 43_200 implies !(
        records[k].temperature.bits < 0x7FF0_0000_0000_0000 || 0x8000_0000_0000_0000
            <= records[k].temperature.bits < 0xFFF0_0000_0000_0000) by {
            lemma_same_day_as_point(points, records, offset, high, i, k);
            if records[k].temperature.magnitude() < INFINITY {
                law_extremes_are_measured(points, records, offset, high, i, k);
                let m = choose|m: int|
                    0 <= m < records.len() && #[trigger] local_day(records[m], offset) == day
                        && records[m].temperature == points[i].temperature;
                lemma_temperature_of_day(records, offset, m);
            }
        }
    }
}

/// Law: the points of a summary come in the order of the dates that the clock of
/// the location shows at them. From year 0 to year 9999 that is the order of time.
pub proof fn law_points_come_by_date(
    points: Seq<TemperatureRecord>,
    records: Seq<TemperatureRecord>,
    offset: int,
    high: bool,
)
    requires
        is_daily_summary(points, records, offset, high),
    ensures
        forall|i: int, j: int|
            0 <= i < j < points.len() ==> text_less(
                utc_text((#[trigger] points[i]).timestamp + offset, date_pattern()),
                utc_text((#[trigger] points[j]).timestamp + offset, date_pattern()),
            ),
        (forall|k: int|
            0 <= k < records.len() ==> -62_167_219_200 <= (#[trigger] records[k]).timestamp + offset
                < 253_402_300_800) ==> forall|i: int, j: int|
            0 <= i < j < points.len() ==> (#[trigger] points[i]).timestamp < (
            #[trigger] points[j]).timestamp,
{
    assert forall|i: int, j: int| 0 <= i < j < points.len() implies text_less(
        utc_text((#[trigger] points[i]).timestamp + offset, date_pattern()),
        utc_text((#[trigger] points[j]).timestamp + offset, date_pattern()),
    ) by {
        law_records_count_to_their_local_day(points[i], offset);
        law_records_count_to_their_local_day(points[j], offset);
    }
    if forall|k: int|
        0 <= k < records.len() ==> -62_167_219_200 <= (#[trigger] records[k]).timestamp + offset
            < 253_402_300_800 {
        assert forall|k: int| 0 <= k < records.len() implies 0 <= civil_of(
            local_day(#[trigger] records[k], offset),
        ).year < 10_000 by {
            law_instants_of_four_digit_years(records[k].timestamp + offset);
        }
        law_points_go_forward(points, records, offset, high);
    }
}

/// Records with their instants moved by the same number of seconds.
pub open spec fn are_moved(
    later: Seq<TemperatureRecord>,
    records: Seq<TemperatureRecord>,
    seconds: int,
) -> bool {
    &&& later.len() == records.len()
    &&& forall|i: int|
        0 <= i < records.len() ==> (#[trigger] later[i]).timestamp == records[i].timestamp + seconds
            && later[i].temperature == records[i].temperature
}

/// Moving the records moves them to the same local days where the clocks are
/// moved back.
proof fn lemma_moved_temperatures(
    later: Seq<TemperatureRecord>,
    records: Seq<TemperatureRecord>,
    seconds: int,
    offset: int,
    day: int,
)
    requires
        are_moved(later, records, seconds),
    ensures
        temperatures_on(later, offset - seconds, day) == temperatures_on(records, offset, day),
        has_day(records, offset, day) ==> has_day(later, offset - seconds, day),
    decreases records.len(),
{
    if records.len() > 0 {
        let end = records.len() - 1;
        assert(later[end].timestamp == records[end].timestamp + seconds);
        assert forall|i: int| 0 <= i < end implies (#[trigger] later.drop_last()[i]).timestamp
            == records.drop_last()[i].timestamp + seconds && later.drop_last()[i].temperature
            == records.drop_last()[i].temperature by {
            assert(later[i].timestamp == records[i].timestamp + seconds);
        }
        lemma_moved_temperatures(later.drop_last(), records.drop_last(), seconds, offset, day);
        assert(local_day(later[end], offset - seconds) == local_day(records[end], offset));
    }
    if has_day(records, offset, day) {
        let k = choose|k: int|
            0 <= k < records.len() && #[trigger] local_day(records[k], offset) == day;
        assert(later[k].timestamp == records[k].timestamp + seconds);
        assert(local_day(later[k], offset - seconds) == day);
    }
}

/// Law: only the local time of the records matters. Where the records are moved
/// by some seconds and the clocks are moved back by as many, the points are moved
/// with the records.
pub proof fn law_only_local_time_matters(
    points: Seq<TemperatureRecord>,
    records: Seq<TemperatureRecord>,
    moved_points: Seq<TemperatureRecord>,
    moved_records: Seq<TemperatureRecord>,
    seconds: int,
    offset: int,
    high: bool,
)
    requires
        is_daily_summary(points, records, offset, high),
        are_moved(moved_points, points, seconds),
        are_moved(moved_records, records, seconds),
    ensures
        is_daily_summary(moved_points, moved_records, offset - seconds, high),
{
    let back = offset - seconds;
    assert forall|i: int| 0 <= i < points.len() implies local_day(
        #[trigger] moved_points[i],
        back,
    ) == local_day(points[i], offset) by {}
    assert forall|i: int| 0 <= i < moved_points.len() implies {
        let day = local_day(#[trigger] moved_points[i], back);
        &&& moved_points[i].timestamp + back == day * DAY + NOON
        &&& moved_points[i].temperature == extreme(temperatures_on(moved_records, back, day), high)
        &&& has_day(moved_records, back, day)
    } by {
        let day = local_day(points[i], offset);
        assert(has_day(records, offset, day));
        lemma_moved_temperatures(moved_records, records, seconds, offset, day);
    }
    assert forall|k: int| 0 <= k < moved_records.len() implies has_day(
        moved_points,
        back,
        local_day(#[trigger] moved_records[k], back),
    ) by {
        let day = local_day(records[k], offset);
        assert(local_day(moved_records[k], back) == day);
        assert(has_day(points, offset, day));
        lemma_moved_temperatures(moved_points, points, seconds, offset, day);
    }
    assert forall|i: int, j: int| 0 <= i < j < moved_points.len() implies text_less(
        day_text(local_day(#[trigger] moved_points[i], back)),
        day_text(local_day(#[trigger] moved_points[j], back)),
    ) by {
        assert(text_less(
            day_text(local_day(points[i], offset)),
            day_text(local_day(points[j], offset)),
        ));
    }
}

/// Law: while the offset from UTC is far from the ends of the count, records can
/// be summarised exactly if the local time of each lies in the years from -262143
/// to 262142.
pub proof fn law_which_records_can_be_summarised(records: Seq<TemperatureRecord>, offset: int)
    requires
        -0x4000_0000_0000_0000 <= offset <= 0x4000_0000_0000_0000,
    ensures
        can_summarise(records, offset) <==> forall|k: int|
            0 <= k < records.len() ==> -8_334_601_228_800 <= (#[trigger] records[k]).timestamp
                + offset <= 8_210_266_876_799,
{
    if forall|k: int|
        0 <= k < records.len() ==> -8_334_601_228_800 <= (#[trigger] records[k]).timestamp + offset
            <= 8_210_266_876_799 {
        assert forall|k: int| 0 <= k < records.len() implies {
            &&& in_utc_range((#[trigger] records[k]).timestamp + offset)
            &&& i64::MIN <= local_day(records[k], offset) * DAY + NOON - offset <= i64::MAX
        } by {
            law_records_count_to_their_local_day(records[k], offset);
        }
    }
    if can_summarise(records, offset) {
        assert forall|k: int| 0 <= k < records.len() implies -8_334_601_228_800 <= (
        #[trigger] records[k]).timestamp + offset <= 8_210_266_876_799 by {
            assert(in_utc_range(records[k].timestamp + offset));
        }
    }
}

} // verus!
