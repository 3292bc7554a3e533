//! The state of the window: the location it shows, what is saved of it, the
//! requests under way, and the choices that shape the plot.

use vstd::prelude::*;
#[allow(unused_imports)]
use vstd::string::StringExecFns;

use crate::binary64::Binary64;
use crate::cache::{LocationView, SavedLocation};
use crate::calendar::DAY;
use crate::daily::{can_summarise, is_daily_summary, process_daily_metrics};
use crate::meteo::{truncated_quotient, whole_days};
use crate::plot::{Dataset, LineColor};
use crate::records::TemperatureRecord;
use crate::text::{decimal, decimal_text};
use crate::whitespace::{is_blank, is_white, law_blank_texts_trim_to_nothing};

verus! {

/// What a background request reports when it is done.
pub enum FetchMsg {
    Done(Result<i32, String>),
}

/// Which lines the plot shows.
#[derive(Clone, Copy, Debug, PartialEq, Eq, Structural)]
pub enum GraphViewMode {
    Hourly,
    DailyHigh,
    DailyLow,
    DailyMinMax,
}

/// A request to be carried out in the background.
pub struct FetchRequest {
    pub location: String,
    pub lat: Binary64,
    pub lon: Binary64,
}

/// What is to be done after looking for a message of the background request.
#[derive(Clone, Copy, Debug, PartialEq, Eq, Structural)]
pub enum PollOutcome {
    /// No request is under way.
    Idle,
    /// The request is not done: look again soon.
    Waiting,
    /// The request succeeded: read the cache again.
    Succeeded,
    /// The request failed.
    Failed,
}

/// What the overview shows.
pub enum Overview {
    LocationNotSet,
    Records { caption: String, start: i64, end: i64 },
}

/// The days that can be chosen without unlocking the history.
pub const OPEN_DAYS: i32 = 7;

/// The length of the overview in seconds.
pub const OVERVIEW: i64 = 259_200;

/// The state of the window.
pub struct WeatherApp {
    pub current_location: String,
    pub lat_input: String,
    pub lon_input: String,
    pub current_utc_offset: i32,
    pub location_error: Option<String>,
    pub saved_location: String,
    pub saved_lat: String,
    pub saved_lon: String,
    pub saved_utc_offset: i32,
    pub saved_locations_list: Vec<SavedLocation>,
    pub view_mode: GraphViewMode,
    pub start_days_ago: i32,
    pub end_days_ago: i32,
    pub unlock_history: bool,
    pub cached_days_available: i32,
    pub is_fetching: bool,
}

/// An integer reduced to 32 bits.
pub open spec fn wrapped(n: int) -> int {
    (n + 0x8000_0000) % 0x1_0000_0000 - 0x8000_0000
}

/// The oldest cached instant, now where there is none.
pub open spec fn oldest(range: Option<(i64, i64)>, now: i64) -> i64 {
    match range {
        Some((min, _)) => min,
        None => now,
    }
}

/// Whether the days since the oldest cached instant can be counted.
pub open spec fn can_count_days(range: Option<(i64, i64)>, now: i64) -> bool {
    i64::MIN <= now - oldest(range, now) <= i64::MAX
}

/// The whole days since the oldest cached instant, in 32 bits, and at least 7.
pub open spec fn days_available(range: Option<(i64, i64)>, now: i64) -> int {
    let days = wrapped(truncated_quotient(now - oldest(range, now), DAY as int));
    if days < OPEN_DAYS {
        OPEN_DAYS as int
    } else {
        days
    }
}

/// Tells whether the days since the oldest cached instant can be counted.
pub fn check_count_days(range: Option<(i64, i64)>, now: i64) -> (answer: bool)
    ensures
        answer == can_count_days(range, now),
{
    match range {
        Some((min, _)) => now.checked_sub(min).is_some(),
        None => true,
    }
}

/// Counts the days that are cached.
pub fn cached_days(range: Option<(i64, i64)>, now: i64) -> (days: i32)
    requires
        can_count_days(range, now),
    ensures
        days == days_available(range, now),
{
    let min_ts: i64 = match range {
        Some((min, _)) => min,
        None => now,
    };
    let whole: i64 = whole_days(now - min_ts);
    let days: i32 = whole as i32;
    assert(days == wrapped(whole as int)) by {
        assert((whole as i32) as i64 == (whole + 0x8000_0000) % 0x1_0000_0000 - 0x8000_0000)
            by (bit_vector);
    }
    if days < OPEN_DAYS {
        OPEN_DAYS
    } else {
        days
    }
}

/// The lesser of two numbers of days.
pub open spec fn at_most(days: i32, limit: i32) -> i32 {
    if days > limit {
        limit
    } else {
        days
    }
}

impl WeatherApp {
    /// Whether at least the days that are always open can be chosen.
    pub open spec fn is_valid(self) -> bool {
        self.cached_days_available >= OPEN_DAYS
    }

    /// The location that the window shows.
    pub open spec fn current(self) -> LocationView {
        LocationView {
            location: self.current_location@,
            lat: self.lat_input@,
            lon: self.lon_input@,
            utc_offset: self.current_utc_offset,
        }
    }

    /// The location that was saved last.
    pub open spec fn saved(self) -> LocationView {
        LocationView {
            location: self.saved_location@,
            lat: self.saved_lat@,
            lon: self.saved_lon@,
            utc_offset: self.saved_utc_offset,
        }
    }

    /// Whether looking for a message of the background request leads from this
    /// state to `after`: the offset from UTC is taken from a success, and a
    /// failure is shown.
    pub open spec fn is_polled(
        self,
        message: Option<FetchMsg>,
        outcome: PollOutcome,
        after: WeatherApp,
    ) -> bool {
        if !self.is_fetching {
            outcome is Idle && after == self
        } else {
            match message {
                None => outcome is Waiting && after == self,
                Some(FetchMsg::Done(Ok(offset))) => {
                    &&& outcome is Succeeded
                    &&& after == WeatherApp {
                        is_fetching: false,
                        current_utc_offset: offset,
                        ..self
                    }
                },
                Some(FetchMsg::Done(Err(reason))) => {
                    &&& outcome is Failed
                    &&& after.location_error is Some
                    &&& after.location_error->0@ == "Network/API Fault: "@ + reason@
                    &&& after == WeatherApp {
                        is_fetching: false,
                        location_error: after.location_error,
                        ..self
                    }
                },
            }
        }
    }

    /// Whether taking the unsaved location leads from this state to `after`:
    /// the current location is handed out if it is not the saved one, and is
    /// the saved one from then on.
    pub open spec fn is_unsaved_taken(
        self,
        state: Option<SavedLocation>,
        after: WeatherApp,
    ) -> bool {
        &&& state is Some <==> self.current() != self.saved()
        &&& state is Some ==> state->0@ == self.current()
        &&& after.saved() == self.current()
        &&& after == WeatherApp {
            saved_location: after.saved_location,
            saved_lat: after.saved_lat,
            saved_lon: after.saved_lon,
            saved_utc_offset: after.saved_utc_offset,
            ..self
        }
    }

    /// The state with the days of another cache.
    pub open spec fn with_cached_days(self, range: Option<(i64, i64)>, now: i64) -> WeatherApp {
        WeatherApp { cached_days_available: days_available(range, now) as i32, ..self }
    }

    /// The state after the days that can be chosen were adapted: while the
    /// history is locked, no more than 7 days ago are chosen.
    pub open spec fn adapted(self, range: Option<(i64, i64)>, now: i64) -> WeatherApp {
        if self.unlock_history {
            self.with_cached_days(range, now)
        } else {
            WeatherApp {
                start_days_ago: at_most(self.start_days_ago, OPEN_DAYS),
                end_days_ago: at_most(self.end_days_ago, OPEN_DAYS),
                ..self.with_cached_days(range, now)
            }
        }
    }

    /// Whether beginning a request leads from this state to `after`.
    pub open spec fn is_started(self, after: WeatherApp) -> bool {
        after == WeatherApp { is_fetching: true, location_error: None, ..self }
    }

    /// Whether pressing the button that requests data leads from this state to
    /// `after`. A request is begun for the current location if none is under
    /// way, the coordinates are numbers, and the label is not blank. Otherwise
    /// what is missing is shown, unless a request is under way.
    pub open spec fn is_pressed(
        self,
        lat: Option<Binary64>,
        lon: Option<Binary64>,
        request: Option<FetchRequest>,
        after: WeatherApp,
    ) -> bool {
        if self.is_fetching {
            request is None && after == self
        } else if lat is Some && lon is Some && !is_blank(self.current_location@) {
            &&& request is Some
            &&& request->0.location@ == self.current_location@
            &&& request->0.lat == lat->0
            &&& request->0.lon == lon->0
            &&& self.is_started(after)
        } else {
            &&& request is None
            &&& after.location_error is Some
            &&& after.location_error->0@ == (if lat is Some && lon is Some {
                "Please define a location label name."@
            } else {
                "Invalid float coordinates configuration format."@
            })
            &&& after == WeatherApp { location_error: after.location_error, ..self }
        }
    }

    /// Whether what can be typed or chosen in the window is all that differs in
    /// `after`.
    pub open spec fn is_edited(self, after: WeatherApp) -> bool {
        after == WeatherApp {
            current_location: after.current_location,
            lat_input: after.lat_input,
            lon_input: after.lon_input,
            current_utc_offset: after.current_utc_offset,
            view_mode: after.view_mode,
            start_days_ago: after.start_days_ago,
            end_days_ago: after.end_days_ago,
            unlock_history: after.unlock_history,
            ..self
        }
    }

    /// Opens the window on the location that was saved last. Its data are
    /// requested if it has a label and its coordinates are numbers: `lat` and
    /// `lon` are what the saved texts stand for.
    pub fn new(
        state: SavedLocation,
        saved_locations_list: Vec<SavedLocation>,
        range: Option<(i64, i64)>,
        now: i64,
        lat: Option<Binary64>,
        lon: Option<Binary64>,
    ) -> (opened: (WeatherApp, Option<FetchRequest>))
        requires
            can_count_days(range, now),
        ensures
            opened.0.is_valid(),
            opened.0.current() == state@,
            opened.0.saved() == state@,
            opened.0.location_error is None,
            opened.0.saved_locations_list == saved_locations_list,
            opened.0.view_mode == GraphViewMode::Hourly,
            opened.0.start_days_ago == 7,
            opened.0.end_days_ago == 0,
            !opened.0.unlock_history,
            opened.0.cached_days_available == days_available(range, now),
            opened.0.is_fetching <==> opened.1 is Some,
            opened.1 is Some <==> state@.location.len() > 0 && lat is Some && lon is Some,
            opened.1 is Some ==> opened.1->0.location@ == state@.location && opened.1->0.lat
                == lat->0 && opened.1->0.lon == lon->0,
    {
        let cached_days_available = cached_days(range, now);
        let mut app = WeatherApp {
            current_location: state.location.clone(),
            lat_input: state.lat.clone(),
            lon_input: state.lon.clone(),
            current_utc_offset: state.utc_offset,
            location_error: None,
            saved_location: state.location,
            saved_lat: state.lat,
            saved_lon: state.lon,
            saved_utc_offset: state.utc_offset,
            saved_locations_list,
            view_mode: GraphViewMode::Hourly,
            start_days_ago: 7,
            end_days_ago: 0,
            unlock_history: false,
            cached_days_available,
            is_fetching: false,
        };
        if !app.current_location.as_str().is_empty() {
            if let (Some(lat), Some(lon)) = (lat, lon) {
                let location = app.current_location.clone();
                let request = app.start_fetch(location, lat, lon);
                return (app, Some(request));
            }
        }
        (app, None)
    }

    /// Begins a request for the data of a location.
    pub fn start_fetch(&mut self, location: String, lat: Binary64, lon: Binary64) -> (request:
        FetchRequest)
        ensures
            request == (FetchRequest { location, lat, lon }),
            old(self).is_started(*final(self)),
    {
        self.is_fetching = true;
        self.location_error = None;
        FetchRequest { location, lat, lon }
    }

    /// Takes the message of the background request, if there is one. The offset
    /// from UTC is taken from a success, and a failure is shown.
    pub fn poll_fetch(&mut self, message: Option<FetchMsg>) -> (outcome: PollOutcome)
        ensures
            old(self).is_polled(message, outcome, *final(self)),
    {
        if !self.is_fetching {
            return PollOutcome::Idle;
        }
        match message {
            None => PollOutcome::Waiting,
            Some(FetchMsg::Done(Ok(offset))) => {
                self.is_fetching = false;
                self.current_utc_offset = offset;
                PollOutcome::Succeeded
            },
            Some(FetchMsg::Done(Err(reason))) => {
                self.is_fetching = false;
                let mut error = "Network/API Fault: ".to_owned();
                error.append(reason.as_str());
                self.location_error = Some(error);
                PollOutcome::Failed
            },
        }
    }

    /// Takes what was read from the cache after a request succeeded.
    pub fn refresh(
        &mut self,
        range: Option<(i64, i64)>,
        now: i64,
        saved_locations_list: Vec<SavedLocation>,
    )
        requires
            can_count_days(range, now),
        ensures
            final(self).is_valid(),
            *final(self) == (WeatherApp {
                saved_locations_list,
                ..old(self).with_cached_days(range, now)
            }),
    {
        self.cached_days_available = cached_days(range, now);
        self.saved_locations_list = saved_locations_list;
    }

    /// The location to be saved, if it is not the one that was saved last. It
    /// counts as saved from then on.
    pub fn take_unsaved_state(&mut self) -> (state: Option<SavedLocation>)
        ensures
            old(self).is_unsaved_taken(state, *final(self)),
    {
        if self.current_location == self.saved_location && self.lat_input == self.saved_lat
            && self.lon_input == self.saved_lon && self.current_utc_offset == self.saved_utc_offset {
            return None;
        }
        proof {
            if self.current() == self.saved() {
                assert(self.current().location == self.saved().location);
            }
        }
        self.saved_location = self.current_location.clone();
        self.saved_lat = self.lat_input.clone();
        self.saved_lon = self.lon_input.clone();
        self.saved_utc_offset = self.current_utc_offset;
        Some(
            SavedLocation {
                location: self.current_location.clone(),
                lat: self.lat_input.clone(),
                lon: self.lon_input.clone(),
                utc_offset: self.current_utc_offset,
            },
        )
    }

    /// Adapts the days that can be chosen after another location was saved.
    pub fn adapt_to_location(&mut self, range: Option<(i64, i64)>, now: i64)
        requires
            can_count_days(range, now),
        ensures
            final(self).is_valid(),
            *final(self) == old(self).adapted(range, now),
    {
        self.cached_days_available = cached_days(range, now);
        if !self.unlock_history {
            if self.start_days_ago > OPEN_DAYS {
                self.start_days_ago = OPEN_DAYS;
            }
            if self.end_days_ago > OPEN_DAYS {
                self.end_days_ago = OPEN_DAYS;
            }
        }
    }

    /// Shows one of the saved locations.
    pub fn select_saved_location(&mut self, index: usize)
        requires
            index < old(self).saved_locations_list.len(),
        ensures
            final(self).current() == old(self).saved_locations_list[index as int]@,
            old(self).is_edited(*final(self)),
            *final(self) == (WeatherApp {
                current_location: final(self).current_location,
                lat_input: final(self).lat_input,
                lon_input: final(self).lon_input,
                current_utc_offset: final(self).current_utc_offset,
                ..*old(self)
            }),
    {
        let chosen = self.saved_locations_list[index].copy();
        self.current_location = chosen.location;
        self.lat_input = chosen.lat;
        self.lon_input = chosen.lon;
        self.current_utc_offset = chosen.utc_offset;
    }

    /// The button that requests the data of the current location. `lat` and
    /// `lon` are what the typed coordinates stand for, if they are numbers. The
    /// button does nothing while a request is under way.
    pub fn press_fetch(&mut self, lat: Option<Binary64>, lon: Option<Binary64>) -> (request: Option<
        FetchRequest,
    >)
        ensures
            old(self).is_pressed(lat, lon, request, *final(self)),
    {
        if self.is_fetching {
            return None;
        }
        proof {
            law_blank_texts_trim_to_nothing(self.current_location@);
        }
        if let (Some(lat), Some(lon)) = (lat, lon) {
            if self.current_location.as_str().trim().is_empty() {
                self.location_error = Some("Please define a location label name.".to_owned());
                None
            } else {
                let location = self.current_location.clone();
                Some(self.start_fetch(location, lat, lon))
            }
        } else {
            self.location_error =
            Some("Invalid float coordinates configuration format.".to_owned());
            None
        }
    }

    /// The greatest number of days that can be chosen.
    pub fn slider_max(&self) -> (days: i32)
        ensures
            days == (if self.unlock_history {
                self.cached_days_available
            } else {
                OPEN_DAYS
            }),
            self.is_valid() ==> days >= OPEN_DAYS,
    {
        if self.unlock_history {
            self.cached_days_available
        } else {
            OPEN_DAYS
        }
    }

    /// The caption of the box that unlocks the history.
    pub fn unlock_caption(&self) -> (caption: String)
        requires
            self.is_valid(),
        ensures
            caption@ == "Unlock Start/End Frame Sliders ("@ + decimal(
                self.cached_days_available as nat,
            ) + " days available locally)"@,
    {
        let mut caption = "Unlock Start/End Frame Sliders (".to_owned();
        let days = decimal_text(self.cached_days_available as u64);
        caption.append(days.as_str());
        caption.append(" days available locally)");
        caption
    }

    /// What the overview shows at the instant `now`: the past 72 hours of the
    /// current location.
    pub fn overview(&self, now: i64) -> (overview: Overview)
        requires
            i64::MIN <= now - OVERVIEW,
        ensures
            overview is LocationNotSet <==> self.current_location@.len() == 0,
            overview is Records ==> overview->caption@ == "Showing past 72 hours for: "@
                + self.current_location@,
            overview is Records ==> overview->start == now - OVERVIEW && overview->end == now,
    {
        if self.current_location.as_str().is_empty() {
            Overview::LocationNotSet
        } else {
            let mut caption = "Showing past 72 hours for: ".to_owned();
            caption.append(self.current_location.as_str());
            Overview::Records { caption, start: now - OVERVIEW, end: now }
        }
    }

    /// The lines that the overview shows of some records: one, of the records
    /// themselves, in red, whichever lines were chosen for the other plot.
    pub fn overview_datasets(&self, records: Vec<TemperatureRecord>) -> (datasets: Vec<Dataset>)
        ensures
            datasets@.len() == 1,
            shows_records(datasets@[0], records@),
    {
        let mut datasets: Vec<Dataset> = Vec::new();
        datasets.push(Dataset { records, color: LineColor::Red });
        datasets
    }

    /// The instants between which the chosen plot shows records, if there is a
    /// location to show.
    pub fn chosen_window(&self, now: i64) -> (window: Option<(i64, i64)>)
        requires
            i64::MIN <= now - self.start_days_ago * DAY <= i64::MAX,
            i64::MIN <= now - self.end_days_ago * DAY <= i64::MAX,
        ensures
            window is Some <==> self.current_location@.len() > 0,
            window is Some ==> window == Some(
                (
                    (now - self.start_days_ago * DAY) as i64,
                    (now - self.end_days_ago * DAY) as i64,
                ),
            ),
    {
        if self.current_location.as_str().is_empty() {
            None
        } else {
            let start_ts: i64 = now - self.start_days_ago as i64 * DAY;
            let end_ts: i64 = now - self.end_days_ago as i64 * DAY;
            Some((start_ts, end_ts))
        }
    }

    /// The lines that the chosen plot shows of some records: the records
    /// themselves in red, daily highs in red, or daily lows in light blue.
    pub fn display_datasets(&self, records: Vec<TemperatureRecord>) -> (datasets: Vec<Dataset>)
        requires
            self.view_mode != GraphViewMode::Hourly ==> can_summarise(
                records@,
                self.current_utc_offset as int,
            ),
        ensures
            self.view_mode is Hourly ==> datasets@.len() == 1 && shows_records(
                datasets@[0],
                records@,
            ),
            self.view_mode is DailyHigh ==> datasets@.len() == 1 && shows_daily(
                datasets@[0],
                records@,
                self.current_utc_offset as int,
                true,
            ),
            self.view_mode is DailyLow ==> datasets@.len() == 1 && shows_daily(
                datasets@[0],
                records@,
                self.current_utc_offset as int,
                false,
            ),
            self.view_mode is DailyMinMax ==> datasets@.len() == 2 && shows_daily(
                datasets@[0],
                records@,
                self.current_utc_offset as int,
                true,
            ) && shows_daily(datasets@[1], records@, self.current_utc_offset as int, false),
    {
        let offset: i64 = self.current_utc_offset as i64;
        let mut datasets: Vec<Dataset> = Vec::new();
        match self.view_mode {
            GraphViewMode::Hourly => {
                datasets.push(Dataset { records, color: LineColor::Red });
            },
            GraphViewMode::DailyHigh => {
                let highs = process_daily_metrics(&records, true, offset);
                datasets.push(Dataset { records: highs, color: LineColor::Red });
            },
            GraphViewMode::DailyLow => {
                let lows = process_daily_metrics(&records, false, offset);
                datasets.push(Dataset { records: lows, color: LineColor::LightBlue });
            },
            GraphViewMode::DailyMinMax => {
                let highs = process_daily_metrics(&records, true, offset);
                let lows = process_daily_metrics(&records, false, offset);
                datasets.push(Dataset { records: highs, color: LineColor::Red });
                datasets.push(Dataset { records: lows, color: LineColor::LightBlue });
            },
        }
        datasets
    }
}

/// Whether a dataset shows the records themselves.
pub open spec fn shows_records(dataset: Dataset, records: Seq<TemperatureRecord>) -> bool {
    dataset.records@ == records && dataset.color == LineColor::Red
}

/// Whether a dataset shows the daily highs or lows of some records.
pub open spec fn shows_daily(
    dataset: Dataset,
    records: Seq<TemperatureRecord>,
    offset: int,
    high: bool,
) -> bool {
    &&& is_daily_summary(dataset.records@, records, offset, high)
    &&& dataset.color == (if high {
        LineColor::Red
    } else {
        LineColor::LightBlue
    })
}

/// Law: at least 7 days can always be chosen, and all that are cached can be
/// as long as their number fits in 32 bits.
pub proof fn law_cached_days_can_be_chosen(range: Option<(i64, i64)>, now: i64)
    ensures
        days_available(range, now) >= OPEN_DAYS,
        ({
            let days = truncated_quotient(now - oldest(range, now), DAY as int);
            OPEN_DAYS <= days <= i32::MAX ==> days_available(range, now) == days
        }),
        range is None ==> days_available(range, now) == OPEN_DAYS,
{
}

/// Law: as many days can be chosen as full days of 86400 seconds lie between the
/// oldest cached instant and now, but never less than 7, nor more than 7 where
/// nothing is cached or the oldest instant lies ahead.
pub proof fn law_days_reach_back_to_the_oldest_instant(min: i64, max: i64, now: i64)
    ensures
        days_available(None, now) == 7,
        days_available(Some((min, max)), now) >= 7,
        7 * 86_400 <= now - min < 0x8000_0000 * 86_400 ==> days_available(Some((min, max)), now)
            * 86_400 <= now - min < days_available(Some((min, max)), now) * 86_400 + 86_400,
        -0x8000_0000 * 86_400 <= now - min < 7 * 86_400 ==> days_available(Some((min, max)), now)
            == 7,
{
}

/// Law: a number of days beyond 32 bits is reduced to the 32 bits that are left
/// of it. `kept` is what they hold, `lost` counts what is left out, and `rest`
/// are the seconds of the day that is not full.
pub proof fn law_days_beyond_32_bits(
    min: i64,
    max: i64,
    now: i64,
    kept: int,
    lost: int,
    rest: int,
)
    requires
        0 <= rest < 86_400,
        -0x8000_0000 <= kept < 0x8000_0000,
        now - min == (kept + lost * 0x1_0000_0000) * 86_400 + rest && now >= min || min - now == -(
        kept + lost * 0x1_0000_0000) * 86_400 + rest && now <= min,
    ensures
        kept <= 7 ==> days_available(Some((min, max)), now) == 7,
        kept > 7 ==> days_available(Some((min, max)), now) == kept,
{
    let days = kept + lost * 0x1_0000_0000;
    assert(truncated_quotient(now - min, DAY as int) == days);
    assert(wrapped(days) == kept);
}

/// Law: the days since the oldest cached instant can be counted exactly if the
/// seconds since then can. Where nothing is cached they always can.
pub proof fn law_which_days_can_be_counted(min: i64, max: i64, now: i64)
    ensures
        can_count_days(None, now),
        can_count_days(Some((min, max)), now) <==> -0x8000_0000_0000_0000 <= now - min
            <= 0x7FFF_FFFF_FFFF_FFFF,
{
}

/// Law: adapting to a location leaves every chosen day as it is that lies no
/// more than 7 days back, and all of them while the history is unlocked. While it
/// is locked, a day farther back becomes 7 days back. Nothing else changes but
/// the number of days that can be chosen.
pub proof fn law_adapting_keeps_what_can_be_chosen(
    before: WeatherApp,
    range: Option<(i64, i64)>,
    now: i64,
)
    ensures
        ({
            let after = before.adapted(range, now);
            &&& before.unlock_history ==> after.start_days_ago == before.start_days_ago
                && after.end_days_ago == before.end_days_ago
            &&& before.start_days_ago <= 7 ==> after.start_days_ago == before.start_days_ago
            &&& before.end_days_ago <= 7 ==> after.end_days_ago == before.end_days_ago
            &&& !before.unlock_history ==> after.start_days_ago <= 7 && after.end_days_ago <= 7
            &&& !before.unlock_history && before.start_days_ago > 7 ==> after.start_days_ago == 7
            &&& !before.unlock_history && before.end_days_ago > 7 ==> after.end_days_ago == 7
            &&& after.cached_days_available == days_available(range, now)
            &&& after == (WeatherApp {
                start_days_ago: after.start_days_ago,
                end_days_ago: after.end_days_ago,
                cached_days_available: after.cached_days_available,
                ..before
            })
        }),
{
}

/// Law: adapting twice to the same cache changes nothing more, and what was
/// chosen in order stays in order.
pub proof fn law_adapting_twice_is_adapting_once(
    before: WeatherApp,
    range: Option<(i64, i64)>,
    now: i64,
)
    ensures
        ({
            let after = before.adapted(range, now);
            &&& after.adapted(range, now) == after
            &&& before.end_days_ago <= before.start_days_ago ==> after.end_days_ago
                <= after.start_days_ago
            &&& before.start_days_ago <= before.end_days_ago ==> after.start_days_ago
                <= after.end_days_ago
        }),
{
}

/// Law: another cache changes the number of days that can be chosen, and nothing
/// else.
pub proof fn law_another_cache_changes_the_days(
    before: WeatherApp,
    range: Option<(i64, i64)>,
    now: i64,
)
    ensures
        ({
            let after = before.with_cached_days(range, now);
            &&& after.cached_days_available == days_available(range, now)
            &&& after == (WeatherApp {
                cached_days_available: after.cached_days_available,
                ..before
            })
        }),
{
}

/// Law: the current location is what is typed in the window, the saved one is
/// what was last saved of it, and the state is valid if 7 days can be chosen.
pub proof fn law_locations_of_the_window(app: WeatherApp)
    ensures
        app.current().location == app.current_location@,
        app.current().lat == app.lat_input@,
        app.current().lon == app.lon_input@,
        app.current().utc_offset == app.current_utc_offset,
        app.saved().location == app.saved_location@,
        app.saved().lat == app.saved_lat@,
        app.saved().lon == app.saved_lon@,
        app.saved().utc_offset == app.saved_utc_offset,
        app.is_valid() <==> app.cached_days_available >= 7,
{
}

/// Law: only a message that comes while a request is under way changes the window.
/// A success ends the request and leaves its offset, a failure ends it and leaves
/// its reason, and nothing else changes.
pub proof fn law_messages_end_requests(
    before: WeatherApp,
    message: Option<FetchMsg>,
    outcome: PollOutcome,
    after: WeatherApp,
)
    requires
        before.is_polled(message, outcome, after),
    ensures
        !before.is_fetching || message is None ==> after == before,
        outcome is Idle <==> !before.is_fetching,
        outcome is Waiting <==> before.is_fetching && message is None,
        before.is_fetching ==> after.is_fetching == (message is None),
        before.is_fetching ==> (message matches Some(FetchMsg::Done(Ok(offset))) ==> {
            &&& outcome is Succeeded
            &&& after == (WeatherApp {
                is_fetching: false,
                current_utc_offset: offset,
                ..before
            })
        }),
        before.is_fetching ==> (message matches Some(FetchMsg::Done(Err(reason))) ==> {
            &&& outcome is Failed
            &&& after.location_error is Some
            &&& after.location_error->0@ == "Network/API Fault: "@ + reason@
            &&& after == (WeatherApp {
                is_fetching: false,
                location_error: after.location_error,
                ..before
            })
        }),
{
}

/// Law: the location in the window is handed out to be saved exactly if its
/// label, a coordinate or its offset is not the saved one. It is handed out as it
/// stands there, is the saved one from then on, and nothing else changes.
pub proof fn law_changed_locations_are_saved(
    before: WeatherApp,
    state: Option<SavedLocation>,
    after: WeatherApp,
)
    requires
        before.is_unsaved_taken(state, after),
    ensures
        state is Some <==> before.current_location@ != before.saved_location@ || before.lat_input@
            != before.saved_lat@ || before.lon_input@ != before.saved_lon@
            || before.current_utc_offset != before.saved_utc_offset,
        state is Some ==> {
            &&& state->0.location@ == before.current_location@
            &&& state->0.lat@ == before.lat_input@
            &&& state->0.lon@ == before.lon_input@
            &&& state->0.utc_offset == before.current_utc_offset
        },
        after.saved_location@ == before.current_location@,
        after.saved_lat@ == before.lat_input@,
        after.saved_lon@ == before.lon_input@,
        after.saved_utc_offset == before.current_utc_offset,
        after == (WeatherApp {
            saved_location: after.saved_location,
            saved_lat: after.saved_lat,
            saved_lon: after.saved_lon,
            saved_utc_offset: after.saved_utc_offset,
            ..before
        }),
{
}

/// Law: beginning a request shows it as under way and takes back what was shown
/// as missing or failed, and nothing else changes.
pub proof fn law_beginning_a_request(before: WeatherApp, after: WeatherApp)
    requires
        before.is_started(after),
    ensures
        after.is_fetching,
        after.location_error is None,
        after == (WeatherApp {
            is_fetching: after.is_fetching,
            location_error: after.location_error,
            ..before
        }),
{
}

/// Law: the button does nothing while a request is under way. Otherwise it begins
/// one, for the label in the window and the coordinates, exactly if both
/// coordinates are numbers and some character of the label is not white space.
/// If it begins none, it tells what is missing, the coordinates first, and
/// nothing else changes.
pub proof fn law_pressing_the_button(
    before: WeatherApp,
    lat: Option<Binary64>,
    lon: Option<Binary64>,
    request: Option<FetchRequest>,
    after: WeatherApp,
)
    requires
        before.is_pressed(lat, lon, request, after),
    ensures
        before.is_fetching ==> request is None && after == before,
        request is Some <==> !before.is_fetching && lat is Some && lon is Some && exists|i: int|
            0 <= i < before.current_location@.len() && !is_white(
                #[trigger] before.current_location@[i],
            ),
        request is Some ==> {
            &&& request->0.location@ == before.current_location@
            &&& Some(request->0.lat) == lat
            &&& Some(request->0.lon) == lon
            &&& after == (WeatherApp { is_fetching: true, location_error: None, ..before })
        },
        !before.is_fetching && request is None ==> {
            &&& after.location_error is Some
            &&& lat is None || lon is None ==> after.location_error->0@
                == "Invalid float coordinates configuration format."@
            &&& lat is Some && lon is Some ==> after.location_error->0@
                == "Please define a location label name."@
            &&& after == (WeatherApp { location_error: after.location_error, ..before })
        },
{
}

/// Law: what is typed or chosen changes nothing of what is saved, cached, shown
/// as an error or under way.
pub proof fn law_inputs_leave_the_rest(before: WeatherApp, after: WeatherApp)
    requires
        before.is_edited(after),
    ensures
        after.saved_location == before.saved_location,
        after.saved_lat == before.saved_lat,
        after.saved_lon == before.saved_lon,
        after.saved_utc_offset == before.saved_utc_offset,
        after.saved_locations_list == before.saved_locations_list,
        after.location_error == before.location_error,
        after.cached_days_available == before.cached_days_available,
        after.is_fetching == before.is_fetching,
{
}

/// Law: hourly records and daily highs are drawn in red, daily lows in light
/// blue.
pub proof fn law_colors_of_lines(
    dataset: Dataset,
    records: Seq<TemperatureRecord>,
    offset: int,
    high: bool,
)
    ensures
        shows_records(dataset, records) <==> dataset.records@ == records && dataset.color
            == LineColor::Red,
        shows_daily(dataset, records, offset, high) ==> is_daily_summary(
            dataset.records@,
            records,
            offset,
            high,
        ) && (high ==> dataset.color == LineColor::Red) && (!high ==> dataset.color
            == LineColor::LightBlue),
{
}

/// Law: the overview spans 72 hours, and the days are counted by 86400 seconds,
/// of which 7 are always open.
pub proof fn law_spans_of_the_window()
    ensures
        OVERVIEW == 72 * 60 * 60,
        DAY == 24 * 60 * 60,
        OPEN_DAYS == 7,
{
}

} // verus!
