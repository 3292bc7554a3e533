//! Reading and writing the rows of the cache.
//!
//! A column that cannot be read is `None`.

use vstd::prelude::*;

use crate::binary64::Binary64;
use crate::records::TemperatureRecord;
use crate::text::text_less;

verus! {

/// A location: its label, its coordinates as they were typed, and by how many
/// seconds its clocks are ahead of UTC.
pub struct SavedLocation {
    pub location: String,
    pub lat: String,
    pub lon: String,
    pub utc_offset: i32,
}

/// What a location holds.
pub struct LocationView {
    pub location: Seq<char>,
    pub lat: Seq<char>,
    pub lon: Seq<char>,
    pub utc_offset: i32,
}

impl View for SavedLocation {
    type V = LocationView;

    open spec fn view(&self) -> LocationView {
        LocationView {
            location: self.location@,
            lat: self.lat@,
            lon: self.lon@,
            utc_offset: self.utc_offset,
        }
    }
}

impl SavedLocation {
    /// A copy of the location.
    pub fn copy(&self) -> (copy: SavedLocation)
        ensures
            copy@ == self@,
    {
        SavedLocation {
            location: self.location.clone(),
            lat: self.lat.clone(),
            lon: self.lon.clone(),
            utc_offset: self.utc_offset,
        }
    }
}

/// What the locations of a list hold.
pub open spec fn location_views(locations: Seq<SavedLocation>) -> Seq<LocationView> {
    locations.map_values(|l: SavedLocation| l@)
}

/// The columns of a location.
pub struct LocationRow {
    pub location: Option<String>,
    pub lat: Option<String>,
    pub lon: Option<String>,
    pub utc_offset: Option<i32>,
}

/// The columns of a temperature record.
#[derive(Clone, Copy, Debug, PartialEq, Eq, Structural)]
pub struct RecordRow {
    pub timestamp: Option<i64>,
    pub temperature: Option<Binary64>,
}

/// The columns that hold the oldest and the newest instant of a location.
#[derive(Clone, Copy, Debug, PartialEq, Eq, Structural)]
pub struct RangeRow {
    pub min: Option<i64>,
    pub max: Option<i64>,
}

/// The latitude that is offered before a location was ever saved.
pub open spec fn default_lat() -> Seq<char> {
    "53.5461"@
}

/// The longitude that is offered before a location was ever saved.
pub open spec fn default_lon() -> Seq<char> {
    "-113.4938"@
}

/// The text of a column, empty where it cannot be read.
pub open spec fn text_or_empty(column: Option<String>) -> Seq<char> {
    match column {
        Some(text) => text@,
        None => Seq::empty(),
    }
}

/// The location that a row of the saved state stands for.
pub open spec fn state_of(row: Option<LocationRow>) -> LocationView {
    match row {
        Some(row) => LocationView {
            location: text_or_empty(row.location),
            lat: text_or_empty(row.lat),
            lon: text_or_empty(row.lon),
            utc_offset: match row.utc_offset {
                Some(offset) => offset,
                None => 0,
            },
        },
        None => LocationView {
            location: Seq::empty(),
            lat: default_lat(),
            lon: default_lon(),
            utc_offset: 0,
        },
    }
}

/// Whether every column of the row could be read.
pub open spec fn is_readable(row: LocationRow) -> bool {
    row.location is Some && row.lat is Some && row.lon is Some && row.utc_offset is Some
}

/// The locations of the rows that could be read.
pub open spec fn readable_locations(rows: Seq<LocationRow>) -> Seq<LocationView> {
    rows.filter(|row: LocationRow| is_readable(row)).map_values(
        |row: LocationRow| state_of(Some(row)),
    )
}

/// Whether a row holds a location in its columns.
pub open spec fn holds_location(row: LocationRow, location: LocationView) -> bool {
    &&& is_readable(row)
    &&& row.location->0@ == location.location
    &&& row.lat->0@ == location.lat
    &&& row.lon->0@ == location.lon
    &&& row.utc_offset->0 == location.utc_offset
}

/// Whether an instant lies in a window, of which both ends are part.
pub open spec fn in_window(timestamp: i64, start: i64, end: i64) -> bool {
    start <= timestamp <= end
}

/// The record of a row, if it could be read and lies in a window.
pub open spec fn record_in_window(row: RecordRow, start: i64, end: i64) -> Option<
    TemperatureRecord,
> {
    match (row.timestamp, row.temperature) {
        (Some(timestamp), Some(temperature)) => if in_window(timestamp, start, end) {
            Some(TemperatureRecord { timestamp, temperature })
        } else {
            None
        },
        _ => None,
    }
}

/// The records of a window: those of the rows that could be read and lie in it,
/// in the order of the rows.
pub open spec fn records_between(rows: Seq<RecordRow>, start: i64, end: i64) -> Seq<
    TemperatureRecord,
>
    decreases rows.len(),
{
    if rows.len() == 0 {
        Seq::empty()
    } else {
        let rest = records_between(rows.drop_last(), start, end);
        match record_in_window(rows.last(), start, end) {
            Some(record) => rest.push(record),
            None => rest,
        }
    }
}

/// Whether the rows are in the order of their instants.
pub open spec fn in_time_order(rows: Seq<RecordRow>) -> bool {
    forall|i: int, j: int|
        0 <= i < j < rows.len() && (#[trigger] rows[i]).timestamp is Some && (
        #[trigger] rows[j]).timestamp is Some ==> rows[i].timestamp->0 <= rows[j].timestamp->0
}

/// The row of a record.
pub open spec fn record_row(record: TemperatureRecord) -> RecordRow {
    RecordRow { timestamp: Some(record.timestamp), temperature: Some(record.temperature) }
}

/// The rows of some records.
pub open spec fn record_rows(records: Seq<TemperatureRecord>) -> Seq<RecordRow> {
    records.map_values(|r: TemperatureRecord| record_row(r))
}

fn text_of(column: Option<String>) -> (text: String)
    ensures
        text@ == text_or_empty(column),
{
    match column {
        Some(text) => text,
        None => String::new(),
    }
}

/// The location that was current when the state was last saved.
pub fn load_state(row: Option<LocationRow>) -> (state: SavedLocation)
    ensures
        state@ == state_of(row),
{
    match row {
        Some(row) => SavedLocation {
            location: text_of(row.location),
            lat: text_of(row.lat),
            lon: text_of(row.lon),
            utc_offset: match row.utc_offset {
                Some(offset) => offset,
                None => 0,
            },
        },
        None => SavedLocation {
            location: String::new(),
            lat: "53.5461".to_owned(),
            lon: "-113.4938".to_owned(),
            utc_offset: 0,
        },
    }
}

/// The row that saves a location, as the state or among the saved locations.
pub fn save_state(state: &SavedLocation) -> (row: LocationRow)
    ensures
        holds_location(row, state@),
{
    LocationRow {
        location: Some(state.location.clone()),
        lat: Some(state.lat.clone()),
        lon: Some(state.lon.clone()),
        utc_offset: Some(state.utc_offset),
    }
}

/// The saved locations, without the rows that cannot be read.
pub fn get_saved_locations(rows: &Vec<LocationRow>) -> (locations: Vec<SavedLocation>)
    ensures
        location_views(locations@) == readable_locations(rows@),
{
    let mut locations: Vec<SavedLocation> = Vec::new();
    let mut i: usize = 0;
    proof {
        reveal(Seq::filter);
        assert(location_views(locations@) =~= readable_locations(rows@.take(0)));
    }
    while i < rows.len()
        invariant
            i <= rows.len(),
            location_views(locations@) == readable_locations(rows@.take(i as int)),
        decreases rows.len() - i,
    {
        let ghost before = locations@;
        let ghost seen = rows@.take(i + 1);
        proof {
            assert(seen.drop_last() =~= rows@.take(i as int));
            assert(seen.last() == rows@[i as int]);
            reveal(Seq::filter);
        }
        let row = &rows[i];
        match (&row.location, &row.lat, &row.lon, &row.utc_offset) {
            (Some(location), Some(lat), Some(lon), Some(utc_offset)) => {
                locations.push(
                    SavedLocation {
                        location: location.clone(),
                        lat: lat.clone(),
                        lon: lon.clone(),
                        utc_offset: *utc_offset,
                    },
                );
                assert(location_views(locations@) =~= location_views(before).push(
                    state_of(Some(*row)),
                ));
                assert(readable_locations(seen) =~= readable_locations(rows@.take(i as int)).push(
                    state_of(Some(*row)),
                ));
            },
            _ => {
                assert(readable_locations(seen) =~= readable_locations(rows@.take(i as int)));
            },
        }
        i = i + 1;
    }
    assert(rows@.take(i as int) =~= rows@);
    locations
}

/// The rows that save some records.
pub fn save_records(records: &Vec<TemperatureRecord>) -> (rows: Vec<RecordRow>)
    ensures
        rows@ == record_rows(records@),
{
    let mut rows: Vec<RecordRow> = Vec::new();
    let mut i: usize = 0;
    while i < records.len()
        invariant
            i <= records.len(),
            rows@ == record_rows(records@.take(i as int)),
        decreases records.len() - i,
    {
        let record = records[i];
        rows.push(
            RecordRow {
                timestamp: Some(record.timestamp),
                temperature: Some(record.temperature),
            },
        );
        i = i + 1;
        assert(rows@ =~= record_rows(records@.take(i as int)));
    }
    assert(records@.take(i as int) =~= records@);
    rows
}

/// The records of some rows that lie in a window, without the rows that cannot
/// be read.
pub fn get_records(rows: &Vec<RecordRow>, start_ts: i64, end_ts: i64) -> (records: Vec<
    TemperatureRecord,
>)
    ensures
        records@ == records_between(rows@, start_ts, end_ts),
{
    let mut records: Vec<TemperatureRecord> = Vec::new();
    let mut i: usize = 0;
    assert(rows@.take(0) =~= Seq::empty());
    while i < rows.len()
        invariant
            i <= rows.len(),
            records@ == records_between(rows@.take(i as int), start_ts, end_ts),
        decreases rows.len() - i,
    {
        assert(rows@.take(i + 1).drop_last() =~= rows@.take(i as int));
        if let (Some(timestamp), Some(temperature)) = (rows[i].timestamp, rows[i].temperature) {
            if start_ts <= timestamp && timestamp <= end_ts {
                records.push(TemperatureRecord { timestamp, temperature });
            }
        }
        i = i + 1;
    }
    assert(rows@.take(i as int) =~= rows@);
    records
}

/// The oldest and the newest instant of a location, if it has any record.
pub fn get_date_range(row: Option<RangeRow>) -> (range: Option<(i64, i64)>)
    ensures
        range is Some <==> row is Some && row->0.min is Some && row->0.max is Some,
        range is Some ==> range == Some((row->0.min->0, row->0.max->0)),
{
    if let Some(row) = row {
        if let (Some(min), Some(max)) = (row.min, row.max) {
            return Some((min, max));
        }
    }
    None
}

/// Law: loading the row of a saved location gives the location back.
pub proof fn law_state_survives_saving(row: LocationRow, location: LocationView)
    requires
        holds_location(row, location),
    ensures
        state_of(Some(row)) == location,
{
}

/// Law: reading the rows of some saved locations gives them all back, in the
/// order of the rows.
pub proof fn law_locations_survive_saving(rows: Seq<LocationRow>, locations: Seq<LocationView>)
    requires
        rows.len() == locations.len(),
        forall|i: int| 0 <= i < rows.len() ==> holds_location(#[trigger] rows[i], locations[i]),
    ensures
        readable_locations(rows) == locations,
    decreases rows.len(),
{
    reveal(Seq::filter);
    if rows.len() > 0 {
        law_locations_survive_saving(rows.drop_last(), locations.drop_last());
        assert(holds_location(rows[rows.len() - 1], locations.last()));
        assert(readable_locations(rows) =~= readable_locations(rows.drop_last()).push(
            locations.last(),
        ));
    }
    assert(readable_locations(rows) =~= locations);
}

/// Whether the names of some rows come one after the other, none twice.
pub open spec fn in_name_order(rows: Seq<LocationRow>) -> bool {
    forall|i: int, j: int|
        0 <= i < j < rows.len() && (#[trigger] rows[i]).location is Some && (
        #[trigger] rows[j]).location is Some ==> text_less(
            rows[i].location->0@,
            rows[j].location->0@,
        )
}

/// A location that was read is that of one of the rows.
proof fn lemma_location_of_row(rows: Seq<LocationRow>, i: int) -> (k: int)
    requires
        0 <= i < readable_locations(rows).len(),
    ensures
        0 <= k < rows.len(),
        is_readable(rows[k]),
        readable_locations(rows)[i] == state_of(Some(rows[k])),
    decreases rows.len(),
{
    reveal(Seq::filter);
    let rest = rows.drop_last();
    let before = readable_locations(rest);
    if rows.len() == 0 {
        0
    } else if i < before.len() {
        assert(readable_locations(rows)[i] == before[i]);
        lemma_location_of_row(rest, i)
    } else {
        rows.len() - 1
    }
}

/// Law: where the rows come by name and none twice, so do the locations that
/// are read from them.
pub proof fn law_locations_keep_the_order_of_names(rows: Seq<LocationRow>)
    requires
        in_name_order(rows),
    ensures
        forall|i: int, j: int|
            0 <= i < j < readable_locations(rows).len() ==> text_less(
                (#[trigger] readable_locations(rows)[i]).location,
                (#[trigger] readable_locations(rows)[j]).location,
            ),
    decreases rows.len(),
{
    reveal(Seq::filter);
    if rows.len() > 0 {
        let rest = rows.drop_last();
        let before = readable_locations(rest);
        let all = readable_locations(rows);
        assert(in_name_order(rest)) by {
            assert forall|i: int, j: int|
                0 <= i < j < rest.len() && (#[trigger] rest[i]).location is Some && (
                #[trigger] rest[j]).location is Some implies text_less(
                rest[i].location->0@,
                rest[j].location->0@,
            ) by {
                assert(rest[i] == rows[i] && rest[j] == rows[j]);
            }
        }
        law_locations_keep_the_order_of_names(rest);
        assert forall|i: int, j: int| 0 <= i < j < all.len() implies text_less(
            (#[trigger] all[i]).location,
            (#[trigger] all[j]).location,
        ) by {
            assert(all[i] == before[i]);
            if j < before.len() {
                assert(all[j] == before[j]);
            } else {
                let k = lemma_location_of_row(rest, i);
                assert(rows[k] == rest[k]);
                assert(rows[rows.len() - 1] == rows.last());
            }
        }
    }
}

/// Law: where the rows are in the order of their instants, so are the records
/// that are read from them.
pub proof fn law_records_keep_the_order_of_time(rows: Seq<RecordRow>, start: i64, end: i64)
    requires
        in_time_order(rows),
    ensures
        forall|i: int, j: int|
            0 <= i < j < records_between(rows, start, end).len() ==> (
            #[trigger] records_between(rows, start, end)[i]).timestamp <= (
            #[trigger] records_between(rows, start, end)[j]).timestamp,
    decreases rows.len(),
{
    if rows.len() > 0 {
        let rest = rows.drop_last();
        let before = records_between(rest, start, end);
        let all = records_between(rows, start, end);
        assert(in_time_order(rest)) by {
            assert forall|i: int, j: int|
                0 <= i < j < rest.len() && (#[trigger] rest[i]).timestamp is Some && (
                #[trigger] rest[j]).timestamp is Some implies rest[i].timestamp->0
                <= rest[j].timestamp->0 by {
                assert(rest[i] == rows[i] && rest[j] == rows[j]);
            }
        }
        law_records_keep_the_order_of_time(rest, start, end);
        assert forall|i: int, j: int| 0 <= i < j < all.len() implies (
        #[trigger] all[i]).timestamp <= (#[trigger] all[j]).timestamp by {
            assert(all[i] == before[i]);
            if j < before.len() {
                assert(all[j] == before[j]);
            } else {
                let k = lemma_row_of_record(rest, start, end, i);
                assert(rows[k] == rest[k]);
                assert(rows[rows.len() - 1] == rows.last());
            }
        }
    }
}

/// A record that was read is that of one of the rows.
proof fn lemma_row_of_record(rows: Seq<RecordRow>, start: i64, end: i64, i: int) -> (k: int)
    requires
        0 <= i < records_between(rows, start, end).len(),
    ensures
        0 <= k < rows.len(),
        record_in_window(rows[k], start, end) == Some(records_between(rows, start, end)[i]),
    decreases rows.len(),
{
    let rest = rows.drop_last();
    let before = records_between(rest, start, end);
    if i < before.len() {
        lemma_row_of_record(rest, start, end, i)
    } else {
        rows.len() - 1
    }
}

/// Law: reading the rows of some records gives back those that lie in the
/// window, in the same order.
pub proof fn law_records_survive_saving(records: Seq<TemperatureRecord>, start: i64, end: i64)
    ensures
        records_between(record_rows(records), start, end) == records.filter(
            |r: TemperatureRecord| in_window(r.timestamp, start, end),
        ),
    decreases records.len(),
{
    reveal(Seq::filter);
    if records.len() > 0 {
        law_records_survive_saving(records.drop_last(), start, end);
        assert(record_rows(records).drop_last() =~= record_rows(records.drop_last()));
    } else {
        assert(record_rows(records) =~= Seq::empty());
    }
}

/// Law: every record that was read lies in the window.
pub proof fn law_records_lie_in_window(rows: Seq<RecordRow>, start: i64, end: i64)
    ensures
        forall|i: int|
            0 <= i < records_between(rows, start, end).len() ==> in_window(
                (#[trigger] records_between(rows, start, end)[i]).timestamp,
                start,
                end,
            ),
    decreases rows.len(),
{
    if rows.len() > 0 {
        law_records_lie_in_window(rows.drop_last(), start, end);
        let rest = records_between(rows.drop_last(), start, end);
        let all = records_between(rows, start, end);
        assert forall|i: int| 0 <= i < all.len() implies in_window(
            (#[trigger] all[i]).timestamp,
            start,
            end,
        ) by {
            if i < rest.len() {
                assert(all[i] == rest[i]);
            }
        }
    }
}

/// Law: rows put one after the other are read one after the other.
pub proof fn law_reading_rows_in_parts(
    a: Seq<RecordRow>,
    b: Seq<RecordRow>,
    start: i64,
    end: i64,
)
    ensures
        records_between(a + b, start, end) == records_between(a, start, end) + records_between(
            b,
            start,
            end,
        ),
    decreases b.len(),
{
    if b.len() > 0 {
        law_reading_rows_in_parts(a, b.drop_last(), start, end);
        assert((a + b).drop_last() =~= a + b.drop_last());
        assert((a + b).last() == b.last());
    } else {
        assert(a + b =~= a);
    }
    assert(records_between(a + b, start, end) =~= records_between(a, start, end)
        + records_between(b, start, end));
}

/// Where every instant lies before the window there is no record in it.
proof fn lemma_nothing_before_window(rows: Seq<RecordRow>, start: i64, end: i64)
    requires
        forall|i: int|
            0 <= i < rows.len() && (#[trigger] rows[i]).timestamp is Some
                ==> rows[i].timestamp->0 < start,
    ensures
        records_between(rows, start, end) == Seq::<TemperatureRecord>::empty(),
    decreases rows.len(),
{
    if rows.len() > 0 {
        let rest = rows.drop_last();
        assert forall|i: int| 0 <= i < rest.len() && (#[trigger] rest[i]).timestamp is Some implies rest[i].timestamp->0
            < start by {
            assert(rest[i] == rows[i]);
        }
        assert(rows[rows.len() - 1] == rows.last());
        lemma_nothing_before_window(rest, start, end);
    }
}

/// Law: of rows in the order of their instants, splitting a window neither
/// loses, nor repeats, nor reorders a record.
pub proof fn law_window_can_be_split(rows: Seq<RecordRow>, start: i64, middle: i64, end: i64)
    requires
        in_time_order(rows),
        start <= middle < end,
    ensures
        records_between(rows, start, end) == records_between(rows, start, middle)
            + records_between(rows, (middle + 1) as i64, end),
    decreases rows.len(),
{
    let later = (middle + 1) as i64;
    if rows.len() > 0 {
        let rest = rows.drop_last();
        let last = rows.last();
        assert(rows[rows.len() - 1] == last);
        assert(in_time_order(rest)) by {
            assert forall|i: int, j: int|
                0 <= i < j < rest.len() && (#[trigger] rest[i]).timestamp is Some && (
                #[trigger] rest[j]).timestamp is Some implies rest[i].timestamp->0
                <= rest[j].timestamp->0 by {
                assert(rest[i] == rows[i] && rest[j] == rows[j]);
            }
        }
        law_window_can_be_split(rest, start, middle, end);
        if last.timestamp is Some && last.timestamp->0 <= middle {
            assert forall|i: int|
                0 <= i < rest.len() && (#[trigger] rest[i]).timestamp is Some implies rest[i].timestamp->0
                < later by {
                assert(rest[i] == rows[i]);
            }
            lemma_nothing_before_window(rest, later, end);
        }
    }
    assert(records_between(rows, start, end) =~= records_between(rows, start, middle)
        + records_between(rows, later, end));
}

/// Law: what a location holds are its label, its coordinates and its offset.
pub proof fn law_view_shows_the_location(location: SavedLocation)
    ensures
        location@.location == location.location@,
        location@.lat == location.lat@,
        location@.lon == location.lon@,
        location@.utc_offset == location.utc_offset,
{
}

/// Law: each column of the saved state is read on its own. A text that cannot be
/// read is empty and an offset that cannot be read is 0, whatever the other
/// columns hold.
pub proof fn law_columns_are_read_one_by_one(row: LocationRow)
    ensures
        row.location is Some ==> state_of(Some(row)).location == row.location->0@,
        row.location is None ==> state_of(Some(row)).location.len() == 0,
        row.lat is Some ==> state_of(Some(row)).lat == row.lat->0@,
        row.lat is None ==> state_of(Some(row)).lat.len() == 0,
        row.lon is Some ==> state_of(Some(row)).lon == row.lon->0@,
        row.lon is None ==> state_of(Some(row)).lon.len() == 0,
        row.utc_offset is Some ==> state_of(Some(row)).utc_offset == row.utc_offset->0,
        row.utc_offset is None ==> state_of(Some(row)).utc_offset == 0,
{
}

/// Law: before anything was saved there is no label, the offset is 0, and the
/// coordinates are those of Edmonton.
pub proof fn law_state_before_anything_was_saved()
    ensures
        state_of(None).location.len() == 0,
        state_of(None).lat == "53.5461"@,
        state_of(None).lon == "-113.4938"@,
        state_of(None).utc_offset == 0,
{
}

/// Law: a row that holds a location has each of its parts in the column of that
/// name.
pub proof fn law_rows_hold_each_part(row: LocationRow, location: LocationView)
    requires
        holds_location(row, location),
    ensures
        row.location is Some && row.location->0@ == location.location,
        row.lat is Some && row.lat->0@ == location.lat,
        row.lon is Some && row.lon->0@ == location.lon,
        row.utc_offset == Some(location.utc_offset),
{
}

/// Law: every location that is read is that of a row with all its columns, and
/// every such row gives one. `at` holds the positions of these rows, each once
/// and in their order.
pub proof fn law_locations_are_those_of_full_rows(rows: Seq<LocationRow>) -> (at: Seq<int>)
    ensures
        at.len() == readable_locations(rows).len(),
        forall|k: int|
            0 <= k < at.len() ==> {
                let row = rows[#[trigger] at[k]];
                &&& 0 <= at[k] < rows.len()
                &&& row.location is Some && row.location->0@ == readable_locations(rows)[k].location
                &&& row.lat is Some && row.lat->0@ == readable_locations(rows)[k].lat
                &&& row.lon is Some && row.lon->0@ == readable_locations(rows)[k].lon
                &&& row.utc_offset == Some(readable_locations(rows)[k].utc_offset)
            },
        forall|j: int, k: int| 0 <= j < k < at.len() ==> #[trigger] at[j] < #[trigger] at[k],
        forall|i: int|
            0 <= i < rows.len() && (#[trigger] rows[i]).location is Some && rows[i].lat is Some
                && rows[i].lon is Some && rows[i].utc_offset is Some ==> at.contains(i),
    decreases rows.len(),
{
    reveal(Seq::filter);
    if rows.len() == 0 {
        Seq::empty()
    } else {
        let rest = rows.drop_last();
        let end = rows.len() - 1;
        let before = law_locations_are_those_of_full_rows(rest);
        let all = readable_locations(rows);
        let at = if is_readable(rows[end]) {
            before.push(end)
        } else {
            before
        };
        assert forall|k: int| 0 <= k < at.len() implies {
            let row = rows[#[trigger] at[k]];
            &&& 0 <= at[k] < rows.len()
            &&& row.location is Some && row.location->0@ == all[k].location
            &&& row.lat is Some && row.lat->0@ == all[k].lat
            &&& row.lon is Some && row.lon->0@ == all[k].lon
            &&& row.utc_offset == Some(all[k].utc_offset)
        } by {
            if k < before.len() {
                assert(at[k] == before[k]);
                assert(rest[before[k]] == rows[before[k]]);
                assert(all[k] == readable_locations(rest)[k]);
            }
        }
        assert forall|j: int, k: int| 0 <= j < k < at.len() implies #[trigger] at[j]
            < #[trigger] at[k] by {
            assert(at[j] == before[j]);
            if k < before.len() {
                assert(at[k] == before[k]);
            }
        }
        assert forall|i: int|
            0 <= i < rows.len() && (#[trigger] rows[i]).location is Some && rows[i].lat is Some
                && rows[i].lon is Some && rows[i].utc_offset is Some implies at.contains(i) by {
            if i < end {
                assert(rest[i] == rows[i]);
                let k = choose|k: int| 0 <= k < before.len() && before[k] == i;
                assert(at[k] == i);
            } else {
                assert(at[before.len() as int] == i);
            }
        }
        at
    }
}

/// Law: the rows that save some records hold the instant and the temperature of
/// each, in the same order.
pub proof fn law_rows_hold_each_record(records: Seq<TemperatureRecord>)
    ensures
        record_rows(records).len() == records.len(),
        forall|i: int|
            0 <= i < records.len() ==> (#[trigger] record_rows(records)[i]).timestamp == Some(
                records[i].timestamp,
            ) && record_rows(records)[i].temperature == Some(records[i].temperature),
{
}

/// Law: every record that is read is that of a row with both columns and an
/// instant from `start` to `end`, and every such row gives one. `at` holds the
/// positions of these rows, each once and in their order.
pub proof fn law_records_are_those_of_rows_in_window(
    rows: Seq<RecordRow>,
    start: i64,
    end: i64,
) -> (at: Seq<int>)
    ensures
        at.len() == records_between(rows, start, end).len(),
        forall|k: int|
            0 <= k < at.len() ==> {
                let row = rows[#[trigger] at[k]];
                &&& 0 <= at[k] < rows.len()
                &&& row.timestamp == Some(records_between(rows, start, end)[k].timestamp)
                &&& row.temperature == Some(records_between(rows, start, end)[k].temperature)
                &&& start <= records_between(rows, start, end)[k].timestamp <= end
            },
        forall|j: int, k: int| 0 <= j < k < at.len() ==> #[trigger] at[j] < #[trigger] at[k],
        forall|i: int|
            0 <= i < rows.len() && (#[trigger] rows[i]).timestamp is Some
                && rows[i].temperature is Some && start <= rows[i].timestamp->0 <= end
                ==> at.contains(i),
    decreases rows.len(),
{
    if rows.len() == 0 {
        Seq::empty()
    } else {
        let rest = rows.drop_last();
        let last = rows.len() - 1;
        let before = law_records_are_those_of_rows_in_window(rest, start, end);
        let all = records_between(rows, start, end);
        let at = if record_in_window(rows[last], start, end) is Some {
            before.push(last)
        } else {
            before
        };
        assert forall|k: int| 0 <= k < at.len() implies {
            let row = rows[#[trigger] at[k]];
            &&& 0 <= at[k] < rows.len()
            &&& row.timestamp == Some(all[k].timestamp)
            &&& row.temperature == Some(all[k].temperature)
            &&& start <= all[k].timestamp <= end
        } by {
            if k < before.len() {
                assert(at[k] == before[k]);
                assert(rest[before[k]] == rows[before[k]]);
                assert(all[k] == records_between(rest, start, end)[k]);
            }
        }
        assert forall|j: int, k: int| 0 <= j < k < at.len() implies #[trigger] at[j]
            < #[trigger] at[k] by {
            assert(at[j] == before[j]);
            if k < before.len() {
                assert(at[k] == before[k]);
            }
        }
        assert forall|i: int|
            0 <= i < rows.len() && (#[trigger] rows[i]).timestamp is Some
                && rows[i].temperature is Some && start <= rows[i].timestamp->0
                <= end implies at.contains(i) by {
            if i < last {
                assert(rest[i] == rows[i]);
                let k = choose|k: int| 0 <= k < before.len() && before[k] == i;
                assert(at[k] == i);
            } else {
                assert(at[before.len() as int] == i);
            }
        }
        at
    }
}

/// Law: what the locations of a list hold is listed in the same order.
pub proof fn law_views_show_the_locations(locations: Seq<SavedLocation>)
    ensures
        location_views(locations).len() == locations.len(),
        forall|i: int|
            0 <= i < locations.len() ==> #[trigger] location_views(locations)[i] == locations[i]@,
{
}

} // verus!
