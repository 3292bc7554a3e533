//! What the plot shows: its lines, the frame around them, the labels of its
//! time axis, and the time in its tooltip.

use vstd::prelude::*;
#[allow(unused_imports)]
use vstd::string::StringExecFns;

use crate::binary64::{extreme, greatest, least, Binary64};
use crate::binary64::{LARGEST, SMALLEST};
use crate::binary64::{
    law_extreme_is_one_of_the_values, law_greatest_is_an_upper_bound, law_least_is_a_lower_bound,
};
use crate::calendar::in_utc_range;
use crate::date_text::{axis_pattern, moment_pattern, utc_text};
use crate::records::TemperatureRecord;
use crate::utc::{axis_text, moment_text};

verus! {

/// The colour of a line.
#[derive(Clone, Copy, Debug, PartialEq, Eq, Structural)]
pub enum LineColor {
    Red,
    LightBlue,
}

/// Records to be drawn as one line.
pub struct Dataset {
    pub records: Vec<TemperatureRecord>,
    pub color: LineColor,
}

/// What a dataset holds.
pub struct DatasetView {
    pub records: Seq<TemperatureRecord>,
    pub color: LineColor,
}

impl View for Dataset {
    type V = DatasetView;

    open spec fn view(&self) -> DatasetView {
        DatasetView { records: self.records@, color: self.color }
    }
}

/// The least and the greatest temperature and time of some records.
#[derive(Clone, Copy, Debug, PartialEq, Eq, Structural)]
pub struct PlotBounds {
    pub min_temp: Binary64,
    pub max_temp: Binary64,
    pub min_time: i64,
    pub max_time: i64,
}

/// The lines of a plot, and the frame that holds them.
pub struct PlotScene {
    pub lines: Vec<Dataset>,
    pub bounds: PlotBounds,
}

/// How far the frame reaches on either side of a single instant, in seconds.
pub const MARGIN: i64 = 3600;

/// How far the pointer may be from a record in time: three hours, 10800
/// seconds, as the bits of a double-precision value.
pub const REACH: u64 = 0x40C5_1800_0000_0000;

/// What each dataset of a list holds.
pub open spec fn views(datasets: Seq<Dataset>) -> Seq<DatasetView> {
    datasets.map_values(|d: Dataset| d@)
}

/// The datasets that have records.
pub open spec fn with_records(datasets: Seq<DatasetView>) -> Seq<DatasetView> {
    datasets.filter(|d: DatasetView| d.records.len() > 0)
}

/// All records of some datasets, in the order of the datasets.
pub open spec fn all_records(datasets: Seq<DatasetView>) -> Seq<TemperatureRecord>
    decreases datasets.len(),
{
    if datasets.len() == 0 {
        Seq::empty()
    } else {
        all_records(datasets.drop_last()) + datasets.last().records
    }
}

/// The temperatures of some records.
pub open spec fn temperatures(records: Seq<TemperatureRecord>) -> Seq<Binary64> {
    records.map_values(|r: TemperatureRecord| r.temperature)
}

/// The earliest instant of some records.
pub open spec fn earliest(records: Seq<TemperatureRecord>) -> i64
    decreases records.len(),
{
    if records.len() == 0 {
        i64::MAX
    } else {
        let rest = earliest(records.drop_last());
        if records.last().timestamp < rest {
            records.last().timestamp
        } else {
            rest
        }
    }
}

/// The latest instant of some records.
pub open spec fn latest(records: Seq<TemperatureRecord>) -> i64
    decreases records.len(),
{
    if records.len() == 0 {
        i64::MIN
    } else {
        let rest = latest(records.drop_last());
        if records.last().timestamp > rest {
            records.last().timestamp
        } else {
            rest
        }
    }
}

/// The least and the greatest of the records' temperatures and times.
pub open spec fn tight_bounds(records: Seq<TemperatureRecord>) -> PlotBounds {
    PlotBounds {
        min_temp: least(temperatures(records)),
        max_temp: greatest(temperatures(records)),
        min_time: earliest(records),
        max_time: latest(records),
    }
}

/// The frame of a plot: an hour on either side where all records lie at one
/// instant, and their bounds otherwise.
pub open spec fn frame(records: Seq<TemperatureRecord>) -> PlotBounds {
    let tight = tight_bounds(records);
    if tight.min_time == tight.max_time {
        PlotBounds {
            min_time: (tight.min_time - MARGIN) as i64,
            max_time: (tight.max_time + MARGIN) as i64,
            ..tight
        }
    } else {
        tight
    }
}

/// Whether the frame of the records can be counted: a single instant must not
/// lie within an hour of the ends of the count.
pub open spec fn can_frame(records: Seq<TemperatureRecord>) -> bool {
    records.len() > 0 && earliest(records) == latest(records) ==> i64::MIN + MARGIN <= earliest(
        records,
    ) <= i64::MAX - MARGIN
}

/// Law: no record lies outside the bounds in time, and both bounds are taken
/// by some record.
pub proof fn law_times_are_tight(records: Seq<TemperatureRecord>)
    requires
        records.len() > 0,
    ensures
        forall|i: int|
            0 <= i < records.len() ==> earliest(records) <= (#[trigger] records[i]).timestamp
                <= latest(records),
        exists|i: int| 0 <= i < records.len() && (#[trigger] records[i]).timestamp == earliest(records),
        exists|i: int| 0 <= i < records.len() && (#[trigger] records[i]).timestamp == latest(records),
    decreases records.len(),
{
    let rest = records.drop_last();
    let end = records.len() - 1;
    assert(records[end] == records.last());
    if rest.len() > 0 {
        law_times_are_tight(rest);
        assert forall|i: int| 0 <= i < records.len() implies earliest(records) <= (
        #[trigger] records[i]).timestamp <= latest(records) by {
            if i < end {
                assert(rest[i] == records[i]);
            }
        }
        let low = choose|i: int|
            0 <= i < rest.len() && (#[trigger] rest[i]).timestamp == earliest(rest);
        let high = choose|i: int|
            0 <= i < rest.len() && (#[trigger] rest[i]).timestamp == latest(rest);
        assert(records[low] == rest[low]);
        assert(records[high] == rest[high]);
        if records.last().timestamp < earliest(rest) {
            assert(records[end].timestamp == earliest(records));
        } else {
            assert(records[low].timestamp == earliest(records));
        }
        if records.last().timestamp > latest(rest) {
            assert(records[end].timestamp == latest(records));
        } else {
            assert(records[high].timestamp == latest(records));
        }
    } else {
        assert(records[end].timestamp == earliest(records));
        assert(records[end].timestamp == latest(records));
    }
}

/// Law: the frame of a plot has a width, and holds every record in time.
pub proof fn law_frame_has_a_width(records: Seq<TemperatureRecord>)
    requires
        records.len() > 0,
        can_frame(records),
    ensures
        frame(records).min_time < frame(records).max_time,
        forall|i: int|
            0 <= i < records.len() ==> frame(records).min_time <= (#[trigger] records[i]).timestamp
                <= frame(records).max_time,
{
    law_times_are_tight(records);
    assert(earliest(records) <= records[0].timestamp <= latest(records));
}

/// Law: leaving out the datasets without records leaves out no record.
pub proof fn law_all_records_are_drawn(datasets: Seq<DatasetView>)
    ensures
        all_records(with_records(datasets)) == all_records(datasets),
    decreases datasets.len(),
{
    reveal(Seq::filter);
    if datasets.len() > 0 {
        let rest = datasets.drop_last();
        law_all_records_are_drawn(rest);
        if datasets.last().records.len() > 0 {
            assert(with_records(datasets) =~= with_records(rest).push(datasets.last()));
            assert(with_records(datasets).drop_last() =~= with_records(rest));
        } else {
            assert(with_records(datasets) =~= with_records(rest));
            assert(datasets.last().records =~= Seq::empty());
            assert(all_records(datasets) =~= all_records(rest));
        }
    } else {
        assert(with_records(datasets) =~= datasets);
    }
}

/// Takes the records of one dataset into the bounds.
fn widen(bounds: PlotBounds, records: &Vec<TemperatureRecord>, Ghost(done): Ghost<
    Seq<TemperatureRecord>,
>) -> (wider: PlotBounds)
    requires
        bounds == tight_bounds(done),
    ensures
        wider == tight_bounds(done + records@),
{
    let mut wider = bounds;
    let mut i: usize = 0;
    assert(done + records@.take(0) =~= done);
    while i < records.len()
        invariant
            i <= records.len(),
            wider == tight_bounds(done + records@.take(i as int)),
        decreases records.len() - i,
    {
        let record = records[i];
        proof {
            let before = done + records@.take(i as int);
            let after = done + records@.take(i + 1);
            assert(after.drop_last() =~= before);
            assert(after.last() == record);
            assert(temperatures(after).drop_last() =~= temperatures(before));
            assert(temperatures(after).last() == record.temperature);
        }
        wider =
        PlotBounds {
            min_temp: wider.min_temp.min(record.temperature),
            max_temp: wider.max_temp.max(record.temperature),
            min_time: if record.timestamp < wider.min_time {
                record.timestamp
            } else {
                wider.min_time
            },
            max_time: if record.timestamp > wider.max_time {
                record.timestamp
            } else {
                wider.max_time
            },
        };
        i = i + 1;
    }
    assert(records@.take(i as int) =~= records@);
    wider
}

fn copy_records(records: &Vec<TemperatureRecord>) -> (copy: Vec<TemperatureRecord>)
    ensures
        copy@ == records@,
{
    let mut copy: Vec<TemperatureRecord> = Vec::new();
    let mut i: usize = 0;
    while i < records.len()
        invariant
            i <= records.len(),
            copy@ == records@.take(i as int),
        decreases records.len() - i,
    {
        copy.push(records[i]);
        i = i + 1;
        assert(copy@ =~= records@.take(i as int));
    }
    assert(copy@ =~= records@);
    copy
}

/// Tells whether some datasets have any record, and measures their bounds.
fn measure(datasets: &Vec<Dataset>) -> (measured: (bool, PlotBounds))
    ensures
        measured.0 <==> all_records(views(datasets@)).len() > 0,
        measured.1 == tight_bounds(all_records(views(datasets@))),
{
    let mut any: bool = false;
    let mut bounds = PlotBounds {
        min_temp: Binary64 { bits: LARGEST },
        max_temp: Binary64 { bits: SMALLEST },
        min_time: i64::MAX,
        max_time: i64::MIN,
    };
    let mut i: usize = 0;
    let ghost all = views(datasets@);
    proof {
        assert(all.take(0) =~= Seq::empty());
        assert(temperatures(all_records(all.take(0))) =~= Seq::empty());
    }
    while i < datasets.len()
        invariant
            i <= datasets.len(),
            all == views(datasets@),
            bounds == tight_bounds(all_records(all.take(i as int))),
            any <==> all_records(all.take(i as int)).len() > 0,
        decreases datasets.len() - i,
    {
        let ghost before = all.take(i as int);
        proof {
            assert(all.take(i + 1).drop_last() =~= before);
            assert(all.take(i + 1).last() == datasets@[i as int]@);
        }
        let dataset = &datasets[i];
        bounds = widen(bounds, &dataset.records, Ghost(all_records(before)));
        if dataset.records.len() > 0 {
            any = true;
        }
        i = i + 1;
    }
    assert(all.take(i as int) =~= all);
    (any, bounds)
}

/// The datasets that have records.
fn drawn_lines(datasets: &Vec<Dataset>) -> (lines: Vec<Dataset>)
    ensures
        views(lines@) == with_records(views(datasets@)),
{
    let mut lines: Vec<Dataset> = Vec::new();
    let mut i: usize = 0;
    let ghost all = views(datasets@);
    proof {
        reveal(Seq::filter);
        assert(views(lines@) =~= with_records(all.take(0)));
    }
    while i < datasets.len()
        invariant
            i <= datasets.len(),
            all == views(datasets@),
            views(lines@) == with_records(all.take(i as int)),
        decreases datasets.len() - i,
    {
        let ghost after = all.take(i + 1);
        let ghost old_lines = lines@;
        proof {
            assert(after.drop_last() =~= all.take(i as int));
            assert(after.last() == datasets@[i as int]@);
            reveal(Seq::filter);
        }
        let dataset = &datasets[i];
        if dataset.records.len() > 0 {
            lines.push(Dataset { records: copy_records(&dataset.records), color: dataset.color });
            assert(views(lines@) =~= views(old_lines).push(after.last()));
        }
        i = i + 1;
    }
    assert(all.take(i as int) =~= all);
    lines
}

/// Prepares the plot of some datasets: a line for each that has records, and
/// the frame around all of them. There is no plot without any record.
pub fn render_plot(datasets: &Vec<Dataset>) -> (scene: Option<PlotScene>)
    requires
        can_frame(all_records(views(datasets@))),
    ensures
        scene is None <==> all_records(views(datasets@)).len() == 0,
        scene is Some ==> views(scene->0.lines@) == with_records(views(datasets@)),
        scene is Some ==> scene->0.bounds == frame(all_records(views(datasets@))),
{
    let (any, measured) = measure(datasets);
    if !any {
        return None;
    }
    let mut bounds = measured;
    if bounds.min_time == bounds.max_time {
        bounds.min_time = bounds.min_time - MARGIN;
        bounds.max_time = bounds.max_time + MARGIN;
    }
    Some(PlotScene { lines: drawn_lines(datasets), bounds })
}

/// Tells whether the frame of some datasets can be counted.
pub fn check_frame(datasets: &Vec<Dataset>) -> (answer: bool)
    ensures
        answer == can_frame(all_records(views(datasets@))),
{
    let (any, bounds) = measure(datasets);
    !any || bounds.min_time != bounds.max_time || (i64::MIN + MARGIN <= bounds.min_time
        && bounds.min_time <= i64::MAX - MARGIN)
}

/// The label of the time axis at `tick`, where clocks are `offset` seconds
/// ahead of UTC.
pub fn axis_label(tick: i64, offset: i64) -> (label: String)
    requires
        in_utc_range(tick + offset),
    ensures
        label@ == utc_text(tick + offset, axis_pattern()),
{
    axis_text(tick + offset)
}

/// The line of the tooltip that tells the local time of a record.
pub fn tooltip_time(timestamp: i64, offset: i64) -> (line: String)
    requires
        in_utc_range(timestamp + offset),
    ensures
        line@ == "Time: "@ + utc_text(timestamp + offset, moment_pattern()),
{
    let mut line = "Time: ".to_owned();
    let time = moment_text(timestamp + offset);
    line.append(time.as_str());
    line
}

/// Law: where the records lie at more than one instant, the frame begins with the
/// instant of a record and ends with that of another, and no record lies before
/// or after them.
pub proof fn law_frame_is_tight_in_time(records: Seq<TemperatureRecord>, a: int, b: int)
    requires
        0 <= a < records.len(),
        0 <= b < records.len(),
        records[a].timestamp != records[b].timestamp,
    ensures
        exists|i: int|
            0 <= i < records.len() && (#[trigger] records[i]).timestamp == frame(records).min_time,
        exists|i: int|
            0 <= i < records.len() && (#[trigger] records[i]).timestamp == frame(records).max_time,
        forall|i: int|
            0 <= i < records.len() ==> frame(records).min_time <= (#[trigger] records[i]).timestamp
                <= frame(records).max_time,
{
    law_times_are_tight(records);
    assert(earliest(records) <= records[a].timestamp <= latest(records));
    assert(earliest(records) <= records[b].timestamp <= latest(records));
}

/// Law: where all records lie at one instant, the frame reaches from an hour
/// before it to an hour after it.
pub proof fn law_frame_of_one_instant(records: Seq<TemperatureRecord>, instant: i64)
    requires
        records.len() > 0,
        forall|i: int| 0 <= i < records.len() ==> (#[trigger] records[i]).timestamp == instant,
        i64::MIN + 3600 <= instant <= i64::MAX - 3600,
    ensures
        frame(records).min_time == instant - 3600,
        frame(records).max_time == instant + 3600,
{
    law_times_are_tight(records);
    assert(records[0].timestamp == instant);
}

/// Law: no record is colder than the frame's least temperature or warmer than its
/// greatest, and where some record is finite, each is the temperature of a
/// record.
pub proof fn law_frame_is_tight_in_temperature(records: Seq<TemperatureRecord>, finite: int)
    requires
        0 <= finite < records.len(),
        records[finite].temperature.bits < 0x7FF0_0000_0000_0000 || 0x8000_0000_0000_0000
            <= records[finite].temperature.bits < 0xFFF0_0000_0000_0000,
    ensures
        forall|i: int|
            0 <= i < records.len() ==> !(#[trigger] records[i]).temperature.less(
                frame(records).min_temp,
            ) && !frame(records).max_temp.less(records[i].temperature),
        exists|i: int|
            0 <= i < records.len() && (#[trigger] records[i]).temperature == frame(
                records,
            ).min_temp,
        exists|i: int|
            0 <= i < records.len() && (#[trigger] records[i]).temperature == frame(
                records,
            ).max_temp,
{
    let values = temperatures(records);
    assert(values[finite] == records[finite].temperature);
    law_extreme_is_one_of_the_values(values, true, finite);
    law_extreme_is_one_of_the_values(values, false, finite);
    let high = choose|i: int| 0 <= i < values.len() && #[trigger] values[i] == extreme(values, true);
    let low = choose|i: int| 0 <= i < values.len() && #[trigger] values[i] == extreme(values, false);
    assert(records[high].temperature == frame(records).max_temp);
    assert(records[low].temperature == frame(records).min_temp);
    assert forall|i: int| 0 <= i < records.len() implies !(#[trigger] records[i]).temperature.less(
        frame(records).min_temp,
    ) && !frame(records).max_temp.less(records[i].temperature) by {
        assert(values[i] == records[i].temperature);
    }
}

/// Law: whether or not a record is finite, none is colder than the frame's least
/// temperature or warmer than its greatest. The least is the temperature of a
/// record or the largest finite value, and no greater than that. The greatest is
/// the temperature of a record or the smallest finite value, and no less than
/// that.
pub proof fn law_frame_holds_every_temperature(records: Seq<TemperatureRecord>)
    ensures
        forall|i: int|
            0 <= i < records.len() ==> !(#[trigger] records[i]).temperature.less(
                frame(records).min_temp,
            ) && !frame(records).max_temp.less(records[i].temperature),
        frame(records).min_temp.bits == 0x7FEF_FFFF_FFFF_FFFF || exists|i: int|
            0 <= i < records.len() && (#[trigger] records[i]).temperature == frame(
                records,
            ).min_temp,
        frame(records).max_temp.bits == 0xFFEF_FFFF_FFFF_FFFF || exists|i: int|
            0 <= i < records.len() && (#[trigger] records[i]).temperature == frame(
                records,
            ).max_temp,
        frame(records).min_temp.is_number() && frame(records).max_temp.is_number(),
        !(Binary64 { bits: 0x7FEF_FFFF_FFFF_FFFF }).less(frame(records).min_temp),
        !frame(records).max_temp.less(Binary64 { bits: 0xFFEF_FFFF_FFFF_FFFF }),
{
    let values = temperatures(records);
    law_greatest_is_an_upper_bound(values);
    law_least_is_a_lower_bound(values);
    assert forall|i: int| 0 <= i < records.len() implies !(#[trigger] records[i]).temperature.less(
        frame(records).min_temp,
    ) && !frame(records).max_temp.less(records[i].temperature) by {
        assert(values[i] == records[i].temperature);
        assert(values[i].is_number() || !values[i].is_number());
    }
    if values.contains(greatest(values)) {
        let i = choose|i: int| 0 <= i < values.len() && values[i] == greatest(values);
        assert(records[i].temperature == greatest(values));
    }
    if values.contains(least(values)) {
        let i = choose|i: int| 0 <= i < values.len() && values[i] == least(values);
        assert(records[i].temperature == least(values));
    }
}

/// Law: the frame of some records can be counted exactly if there are none, two
/// of them lie at different instants, or the one instant of all is at least an
/// hour from the ends of the count.
pub proof fn law_which_records_can_be_framed(records: Seq<TemperatureRecord>)
    ensures
        records.len() == 0 ==> can_frame(records),
        forall|i: int, j: int|
            0 <= i < records.len() && 0 <= j < records.len() && (#[trigger] records[i]).timestamp
                != (#[trigger] records[j]).timestamp ==> can_frame(records),
        records.len() > 0 && i64::MIN + 3600 <= records[0].timestamp <= i64::MAX - 3600
            ==> can_frame(records),
        records.len() > 0 && can_frame(records) && !(i64::MIN + 3600 <= records[0].timestamp
            <= i64::MAX - 3600) ==> exists|i: int|
            0 <= i < records.len() && (#[trigger] records[i]).timestamp != records[0].timestamp,
{
    if records.len() > 0 {
        law_times_are_tight(records);
        let low = choose|i: int|
            0 <= i < records.len() && (#[trigger] records[i]).timestamp == earliest(records);
        let high = choose|i: int|
            0 <= i < records.len() && (#[trigger] records[i]).timestamp == latest(records);
        assert(earliest(records) <= records[0].timestamp <= latest(records));
        assert(records[low].timestamp == earliest(records));
        assert(records[high].timestamp == latest(records));
    }
}

/// Law: every dataset with records gives a line with the same records in the same
/// colour, in the same order, and a dataset without records gives none.
pub proof fn law_lines_follow_the_datasets(a: Seq<DatasetView>, b: Seq<DatasetView>)
    ensures
        with_records(a + b) == with_records(a) + with_records(b),
        a.len() == 1 && a[0].records.len() > 0 ==> with_records(a) == a,
        a.len() == 1 && a[0].records.len() == 0 ==> with_records(a).len() == 0,
        a.len() == 0 ==> with_records(a).len() == 0,
    decreases b.len(),
{
    reveal(Seq::filter);
    if a.len() == 1 {
        assert(a.drop_last() =~= Seq::empty());
        assert(with_records(a.drop_last()) =~= Seq::empty());
        if a[0].records.len() > 0 {
            assert(with_records(a) =~= a);
        }
    }
    if b.len() > 0 {
        law_lines_follow_the_datasets(a, b.drop_last());
        assert((a + b).drop_last() =~= a + b.drop_last());
        assert((a + b).last() == b.last());
    } else {
        assert(a + b =~= a);
    }
    assert(with_records(a + b) =~= with_records(a) + with_records(b));
}

/// Law: the records of some datasets are those of the first, then those of the
/// next, and so on, none left out and none repeated.
pub proof fn law_all_records_follow_the_datasets(a: Seq<DatasetView>, b: Seq<DatasetView>)
    ensures
        all_records(a + b) == all_records(a) + all_records(b),
        a.len() == 1 ==> all_records(a) == a[0].records,
        a.len() == 0 ==> all_records(a).len() == 0,
    decreases b.len(),
{
    if a.len() == 1 {
        assert(a.drop_last().len() == 0);
        assert(all_records(a.drop_last()) =~= Seq::empty());
        assert(a.last() == a[0]);
        assert(all_records(a) =~= a[0].records);
    }
    if b.len() > 0 {
        law_all_records_follow_the_datasets(a, b.drop_last());
        assert((a + b).drop_last() =~= a + b.drop_last());
        assert((a + b).last() == b.last());
    } else {
        assert(a + b =~= a);
    }
    assert(all_records(a + b) =~= all_records(a) + all_records(b));
}

/// Law: what a dataset holds are its records and its colour.
pub proof fn law_views_show_the_datasets(datasets: Seq<Dataset>)
    ensures
        views(datasets).len() == datasets.len(),
        forall|i: int|
            0 <= i < datasets.len() ==> (#[trigger] views(datasets)[i]).records
                == datasets[i].records@ && views(datasets)[i].color == datasets[i].color,
{
}

} // verus!
