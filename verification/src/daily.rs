//! Daily highs and lows of hourly records, by local day.

use vstd::prelude::*;

use crate::binary64::{extreme, fold_extreme, Binary64};
use crate::calendar::{civil_of, day_of, in_utc_range};
use crate::calendar::{law_every_day_has_one_date, lemma_range_of_years};
use crate::calendar::{check_utc_range, DAY};
use crate::date_text::{date_text, day_text, law_day_text_is_injective};
use crate::records::TemperatureRecord;
use crate::text::text_less;
use crate::text::{comes_before, law_text_order_is_total, law_text_order_is_transitive};
use crate::utc::{noon_of, utc_date};

verus! {

/// Noon, in seconds since midnight.
pub const NOON: i64 = 43_200;

/// The day on which a record lies where clocks are `offset` seconds ahead of
/// UTC.
pub open spec fn local_day(record: TemperatureRecord, offset: int) -> int {
    day_of(record.timestamp + offset)
}

/// Whether some record lies on `day`.
pub open spec fn has_day(records: Seq<TemperatureRecord>, offset: int, day: int) -> bool {
    exists|k: int| 0 <= k < records.len() && #[trigger] local_day(records[k], offset) == day
}

/// The temperatures of the records that lie on `day`.
pub open spec fn temperatures_on(
    records: Seq<TemperatureRecord>,
    offset: int,
    day: int,
) -> Seq<Binary64>
    decreases records.len(),
{
    if records.len() == 0 {
        Seq::empty()
    } else {
        let rest = temperatures_on(records.drop_last(), offset, day);
        if local_day(records.last(), offset) == day {
            rest.push(records.last().temperature)
        } else {
            rest
        }
    }
}

/// Whether the local time of every record can be shown, and local noon of its
/// day can be counted.
pub open spec fn can_summarise(records: Seq<TemperatureRecord>, offset: int) -> bool {
    forall|k: int|
        0 <= k < records.len() ==> {
            &&& in_utc_range((#[trigger] records[k]).timestamp + offset)
            &&& i64::MIN <= local_day(records[k], offset) * DAY + NOON - offset <= i64::MAX
        }
}

/// Tells whether some records can be summarised.
pub fn check_summarise(records: &Vec<TemperatureRecord>, offset: i64) -> (answer: bool)
    ensures
        answer == can_summarise(records@, offset as int),
{
    let mut i: usize = 0;
    while i < records.len()
        invariant
            i <= records.len(),
            forall|k: int|
                0 <= k < i ==> {
                    &&& in_utc_range((#[trigger] records[k]).timestamp + offset)
                    &&& i64::MIN <= local_day(records[k], offset as int) * DAY + NOON - offset
                        <= i64::MAX
                },
        decreases records.len() - i,
    {
        let local = match records[i].timestamp.checked_add(offset) {
            Some(local) => local,
            None => {
                assert(!in_utc_range(records[i as int].timestamp + offset));
                return false;
            },
        };
        if !check_utc_range(local) {
            assert(!in_utc_range(records[i as int].timestamp + offset));
            return false;
        }
        let past: i64 = local % DAY;
        let midnight: i64 = if past < 0 {
            local - past - DAY
        } else {
            local - past
        };
        assert(midnight == local_day(records[i as int], offset as int) * DAY);
        if (midnight + NOON).checked_sub(offset).is_none() {
            assert(!(i64::MIN <= local_day(records[i as int], offset as int) * DAY + NOON - offset
                <= i64::MAX));
            return false;
        }
        i = i + 1;
    }
    true
}

/// Whether `points` are the daily highs or lows of `records`: one point for
/// each local day that has a record, at local noon of that day, with the
/// greatest or the least temperature of that day, in the order of the dates as
/// texts.
pub open spec fn is_daily_summary(
    points: Seq<TemperatureRecord>,
    records: Seq<TemperatureRecord>,
    offset: int,
    high: bool,
) -> bool {
    &&& forall|i: int|
        0 <= i < points.len() ==> {
            let day = local_day(#[trigger] points[i], offset);
            &&& points[i].timestamp + offset == day * DAY + NOON
            &&& points[i].temperature == extreme(temperatures_on(records, offset, day), high)
            &&& has_day(records, offset, day)
        }
    &&& forall|k: int|
        0 <= k < records.len() ==> has_day(points, offset, local_day(#[trigger] records[k], offset))
    &&& forall|i: int, j: int|
        0 <= i < j < points.len() ==> text_less(
            day_text(local_day(#[trigger] points[i], offset)),
            day_text(local_day(#[trigger] points[j], offset)),
        )
}

/// The temperatures of one local day.
struct DayGroup {
    day: Ghost<int>,
    date: String,
    temperatures: Vec<Binary64>,
}

/// Whether `groups` hold the temperatures of `records` by local day, in the
/// order of the dates as texts.
spec fn are_groups(groups: Seq<DayGroup>, records: Seq<TemperatureRecord>, offset: int) -> bool {
    &&& forall|g: int|
        0 <= g < groups.len() ==> {
            let day = (#[trigger] groups[g]).day@;
            &&& groups[g].date@ == day_text(day)
            &&& groups[g].temperatures@ == temperatures_on(records, offset, day)
            &&& has_day(records, offset, day)
        }
    &&& forall|k: int|
        0 <= k < records.len() ==> has_group(groups, local_day(#[trigger] records[k], offset))
    &&& groups_sorted(groups)
}

spec fn has_group(groups: Seq<DayGroup>, day: int) -> bool {
    exists|g: int| 0 <= g < groups.len() && (#[trigger] groups[g]).day@ == day
}

spec fn groups_sorted(groups: Seq<DayGroup>) -> bool {
    forall|g: int, h: int|
        0 <= g < h < groups.len() ==> text_less(
            (#[trigger] groups[g]).date@,
            (#[trigger] groups[h]).date@,
        )
}

/// Without records on a day there are no temperatures on it.
pub proof fn lemma_no_temperatures(records: Seq<TemperatureRecord>, offset: int, day: int)
    requires
        !has_day(records, offset, day),
    ensures
        temperatures_on(records, offset, day) == Seq::<Binary64>::empty(),
    decreases records.len(),
{
    if records.len() > 0 {
        let rest = records.drop_last();
        if has_day(rest, offset, day) {
            let k = choose|k: int|
                0 <= k < rest.len() && #[trigger] local_day(rest[k], offset) == day;
            assert(local_day(records[k], offset) == day);
        }
        assert(local_day(records[records.len() - 1], offset) != day);
        lemma_no_temperatures(rest, offset, day);
    }
}

/// One more record adds its temperature to its own day alone.
proof fn lemma_push_record(
    done: Seq<TemperatureRecord>,
    record: TemperatureRecord,
    offset: int,
    day: int,
)
    ensures
        temperatures_on(done.push(record), offset, day) == (if local_day(record, offset) == day {
            temperatures_on(done, offset, day).push(record.temperature)
        } else {
            temperatures_on(done, offset, day)
        }),
        has_day(done, offset, day) ==> has_day(done.push(record), offset, day),
        has_day(done.push(record), offset, local_day(record, offset)),
{
    let all = done.push(record);
    assert(all.drop_last() =~= done);
    assert(local_day(all[done.len() as int], offset) == local_day(record, offset));
    if has_day(done, offset, day) {
        let k = choose|k: int| 0 <= k < done.len() && #[trigger] local_day(done[k], offset) == day;
        assert(local_day(all[k], offset) == day);
    }
}

/// The group of the record's day is there: it takes one more temperature.
proof fn lemma_group_grows(
    before: Seq<DayGroup>,
    after: Seq<DayGroup>,
    at: int,
    done: Seq<TemperatureRecord>,
    record: TemperatureRecord,
    offset: int,
)
    requires
        are_groups(before, done, offset),
        0 <= at < before.len(),
        before[at].date@ == day_text(local_day(record, offset)),
        after.len() == before.len(),
        forall|g: int| 0 <= g < before.len() && g != at ==> #[trigger] after[g] == before[g],
        after[at].day == before[at].day,
        after[at].date == before[at].date,
        after[at].temperatures@ == before[at].temperatures@.push(record.temperature),
    ensures
        are_groups(after, done.push(record), offset),
{
    let all = done.push(record);
    let day = local_day(record, offset);
    law_day_text_is_injective(before[at].day@, day);
    assert forall|g: int| 0 <= g < after.len() implies {
        let d = (#[trigger] after[g]).day@;
        &&& after[g].date@ == day_text(d)
        &&& after[g].temperatures@ == temperatures_on(all, offset, d)
        &&& has_day(all, offset, d)
    } by {
        let old_group = before[g];
        lemma_push_record(done, record, offset, after[g].day@);
        if g != at {
            assert(after[g] == before[g]);
            if old_group.day@ == day {
                law_text_order_is_total(before[g].date@, before[at].date@);
                if g < at {
                    assert(text_less(before[g].date@, before[at].date@));
                } else {
                    assert(text_less(before[at].date@, before[g].date@));
                }
            }
        }
    }
    assert forall|k: int| 0 <= k < all.len() implies has_group(
        after,
        local_day(#[trigger] all[k], offset),
    ) by {
        if k < done.len() {
            assert(has_group(before, local_day(done[k], offset)));
            let g = choose|g: int|
                0 <= g < before.len() && (#[trigger] before[g]).day@ == local_day(
                    done[k],
                    offset,
                );
            assert(after[g].day@ == local_day(all[k], offset));
        } else {
            assert(after[at].day@ == day);
        }
    }
    assert(groups_sorted(after)) by {
        assert forall|g: int, h: int| 0 <= g < h < after.len() implies text_less(
            (#[trigger] after[g]).date@,
            (#[trigger] after[h]).date@,
        ) by {
            assert(after[g].date == before[g].date && after[h].date == before[h].date);
            assert(text_less(before[g].date@, before[h].date@));
        }
    }
}

/// The group of the record's day is not there: it comes before the first
/// greater date.
proof fn lemma_group_inserted(
    before: Seq<DayGroup>,
    group: DayGroup,
    at: int,
    done: Seq<TemperatureRecord>,
    record: TemperatureRecord,
    offset: int,
)
    requires
        are_groups(before, done, offset),
        0 <= at <= before.len(),
        forall|g: int| 0 <= g < at ==> text_less((#[trigger] before[g]).date@, group.date@),
        forall|g: int|
            at <= g < before.len() ==> text_less(group.date@, (#[trigger] before[g]).date@),
        group.day@ == local_day(record, offset),
        group.date@ == day_text(group.day@),
        group.temperatures@ == seq![record.temperature],
    ensures
        are_groups(before.insert(at, group), done.push(record), offset),
{
    let all = done.push(record);
    let after = before.insert(at, group);
    let day = local_day(record, offset);
    assert forall|g: int| 0 <= g < before.len() implies (#[trigger] before[g]).day@ != day by {
        law_text_order_is_total(before[g].date@, group.date@);
    }
    assert(!has_day(done, offset, day)) by {
        if has_day(done, offset, day) {
            let k = choose|k: int|
                0 <= k < done.len() && #[trigger] local_day(done[k], offset) == day;
            assert(has_group(before, local_day(done[k], offset)));
        }
    }
    lemma_no_temperatures(done, offset, day);
    assert forall|g: int| 0 <= g < after.len() implies {
        let d = (#[trigger] after[g]).day@;
        &&& after[g].date@ == day_text(d)
        &&& after[g].temperatures@ == temperatures_on(all, offset, d)
        &&& has_day(all, offset, d)
    } by {
        lemma_push_record(done, record, offset, after[g].day@);
        if g < at {
            assert(after[g] == before[g]);
        } else if g > at {
            assert(after[g] == before[g - 1]);
        } else {
            assert(after[g].temperatures@ =~= temperatures_on(all, offset, day));
        }
    }
    assert forall|k: int| 0 <= k < all.len() implies has_group(
        after,
        local_day(#[trigger] all[k], offset),
    ) by {
        if k < done.len() {
            assert(has_group(before, local_day(done[k], offset)));
            let g = choose|g: int|
                0 <= g < before.len() && (#[trigger] before[g]).day@ == local_day(
                    done[k],
                    offset,
                );
            if g < at {
                assert(after[g].day@ == local_day(all[k], offset));
            } else {
                assert(after[g + 1].day@ == local_day(all[k], offset));
            }
        } else {
            assert(after[at].day@ == day);
        }
    }
    assert(groups_sorted(after)) by {
        assert forall|g: int, h: int| 0 <= g < h < after.len() implies text_less(
            (#[trigger] after[g]).date@,
            (#[trigger] after[h]).date@,
        ) by {
            let x = if g < at { before[g] } else if g == at { group } else { before[g - 1] };
            let y = if h < at { before[h] } else if h == at { group } else { before[h - 1] };
            assert(after[g] == x && after[h] == y);
        }
    }
}

/// Puts one more record into the group of its day.
fn add_to_groups(
    groups: &mut Vec<DayGroup>,
    record: TemperatureRecord,
    offset: i64,
    Ghost(done): Ghost<Seq<TemperatureRecord>>,
)
    requires
        are_groups(old(groups)@, done, offset as int),
        in_utc_range(record.timestamp + offset),
    ensures
        are_groups(final(groups)@, done.push(record), offset as int),
{
    let date = utc_date(record.timestamp + offset);
    let ghost day = local_day(record, offset as int);
    let ghost before = groups@;
    let ghost all = done.push(record);
    let mut at: usize = 0;
    assert(date@ == day_text(day));
    while at < groups.len() && comes_before(groups[at].date.as_str(), date.as_str())
        invariant
            at <= groups.len(),
            groups@ == before,
            forall|g: int| 0 <= g < at ==> text_less((#[trigger] groups[g]).date@, date@),
        decreases groups.len() - at,
    {
        at = at + 1;
    }
    if at < groups.len() && groups[at].date == date {
        groups[at].temperatures.push(record.temperature);
        proof {
            lemma_group_grows(before, groups@, at as int, done, record, offset as int);
        }
    } else {
        let mut temperatures: Vec<Binary64> = Vec::new();
        temperatures.push(record.temperature);
        let group = DayGroup { day: Ghost(day), date, temperatures };
        proof {
            assert(group.temperatures@ =~= seq![record.temperature]);
            assert forall|g: int| at <= g < before.len() implies text_less(
                group.date@,
                (#[trigger] before[g]).date@,
            ) by {
                law_text_order_is_total(before[at as int].date@, group.date@);
                if g > at {
                    assert(text_less(before[at as int].date@, before[g].date@));
                    law_text_order_is_transitive(
                        group.date@,
                        before[at as int].date@,
                        before[g].date@,
                    );
                }
            }
            lemma_group_inserted(before, group, at as int, done, record, offset as int);
        }
        groups.insert(at, group);
    }
}

/// Groups the temperatures of some records by local day.
fn group_by_day(records: &Vec<TemperatureRecord>, offset: i64) -> (groups: Vec<DayGroup>)
    requires
        can_summarise(records@, offset as int),
    ensures
        are_groups(groups@, records@, offset as int),
{
    let mut groups: Vec<DayGroup> = Vec::new();
    let mut i: usize = 0;
    assert(records@.take(0) =~= Seq::empty());
    while i < records.len()
        invariant
            i <= records.len(),
            can_summarise(records@, offset as int),
            are_groups(groups@, records@.take(i as int), offset as int),
        decreases records.len() - i,
    {
        assert(records@.take(i + 1) =~= records@.take(i as int).push(records@[i as int]));
        add_to_groups(&mut groups, records[i], offset, Ghost(records@.take(i as int)));
        i = i + 1;
    }
    assert(records@.take(i as int) =~= records@);
    groups
}

/// The daily highs, or lows, of some records, where clocks are `offset` seconds
/// ahead of UTC.
pub fn process_daily_metrics(
    records: &Vec<TemperatureRecord>,
    get_high: bool,
    offset: i64,
) -> (points: Vec<TemperatureRecord>)
    requires
        can_summarise(records@, offset as int),
    ensures
        is_daily_summary(points@, records@, offset as int, get_high),
{
    let groups = group_by_day(records, offset);
    let mut points: Vec<TemperatureRecord> = Vec::new();
    let mut g: usize = 0;
    while g < groups.len()
        invariant
            g <= groups.len(),
            points.len() == g,
            can_summarise(records@, offset as int),
            are_groups(groups@, records@, offset as int),
            forall|i: int|
                0 <= i < g ==> {
                    let day = groups@[i].day@;
                    &&& (#[trigger] points[i]).timestamp + offset == day * DAY + NOON
                    &&& points[i].temperature == extreme(
                        temperatures_on(records@, offset as int, day),
                        get_high,
                    )
                },
        decreases groups.len() - g,
    {
        let group = &groups[g];
        proof {
            let day = group.day@;
            assert(has_day(records@, offset as int, day));
            let k = choose|k: int|
                0 <= k < records@.len() && #[trigger] local_day(records@[k], offset as int) == day;
            assert(in_utc_range(records@[k].timestamp + offset));
            law_every_day_has_one_date(day);
            lemma_range_of_years(records@[k].timestamp + offset);
            assert(group.date@ == date_text(civil_of(day)));
        }
        let temperature = fold_extreme(&group.temperatures, get_high);
        if let Some(noon) = noon_of(group.date.as_str()) {
            points.push(TemperatureRecord { timestamp: noon - offset, temperature });
        }
        g = g + 1;
    }
    proof {
        lemma_points_of_groups(points@, groups@, records@, offset as int, get_high);
    }
    points
}

/// Points at local noon of the days of the groups, in the same order, are the
/// summary.
proof fn lemma_points_of_groups(
    points: Seq<TemperatureRecord>,
    groups: Seq<DayGroup>,
    records: Seq<TemperatureRecord>,
    offset: int,
    high: bool,
)
    requires
        are_groups(groups, records, offset),
        points.len() == groups.len(),
        forall|i: int|
            0 <= i < points.len() ==> {
                let day = groups[i].day@;
                &&& (#[trigger] points[i]).timestamp + offset == day * DAY + NOON
                &&& points[i].temperature == extreme(temperatures_on(records, offset, day), high)
            },
    ensures
        is_daily_summary(points, records, offset, high),
{
    assert forall|i: int| 0 <= i < points.len() implies local_day(#[trigger] points[i], offset)
        == groups[i].day@ by {
        lemma_noon_is_on_its_day(groups[i].day@);
    }
    assert forall|k: int| 0 <= k < records.len() implies has_day(
        points,
        offset,
        local_day(#[trigger] records[k], offset),
    ) by {
        assert(has_group(groups, local_day(records[k], offset)));
        let g = choose|g: int|
            0 <= g < groups.len() && (#[trigger] groups[g]).day@ == local_day(records[k], offset);
        assert(local_day(points[g], offset) == local_day(records[k], offset));
    }
    assert forall|i: int, j: int| 0 <= i < j < points.len() implies text_less(
        day_text(local_day(#[trigger] points[i], offset)),
        day_text(local_day(#[trigger] points[j], offset)),
    ) by {
        assert(text_less(groups[i].date@, groups[j].date@));
    }
}

proof fn lemma_noon_is_on_its_day(day: int)
    ensures
        day_of(day * DAY + NOON) == day,
{
}

} // verus!
