//! Requests to the weather service, and its replies.

use vstd::prelude::*;
#[allow(unused_imports)]
use vstd::string::StringExecFns;

use crate::binary64::Binary64;
use crate::cache::{LocationView, SavedLocation};
use crate::calendar::{day_of, in_utc_range};
use crate::calendar::{check_utc_range, DAY};
use crate::date_text::day_text;
use crate::records::TemperatureRecord;
use crate::text::{decimal, decimal_text};
use crate::utc::utc_date;

verus! {

/// The hourly part of a reply: instants, and the temperatures at them. A
/// temperature may be missing.
pub struct HourlyData {
    pub time: Vec<i64>,
    pub temperature_2m: Vec<Option<Binary64>>,
}

/// A reply of the weather service.
pub struct OpenMeteoResponse {
    pub utc_offset_seconds: i32,
    pub hourly: HourlyData,
}

/// What is kept of a reply.
pub struct Fetched {
    pub records: Vec<TemperatureRecord>,
    pub utc_offset: i32,
}

/// The shorter of two lengths.
pub open spec fn shorter(a: nat, b: nat) -> nat {
    if a < b {
        a
    } else {
        b
    }
}

/// The records of the first `n` instants: one for each that has a temperature.
pub open spec fn readings(time: Seq<i64>, temperature: Seq<Option<Binary64>>, n: nat) -> Seq<
    TemperatureRecord,
>
    decreases n,
{
    if n == 0 {
        Seq::empty()
    } else {
        let rest = readings(time, temperature, (n - 1) as nat);
        match temperature[n - 1] {
            Some(value) => rest.push(
                TemperatureRecord { timestamp: time[n - 1], temperature: value },
            ),
            None => rest,
        }
    }
}

/// The records of a reply: instants and temperatures are matched by position,
/// as far as both go.
pub open spec fn readings_of(hourly: HourlyData) -> Seq<TemperatureRecord> {
    readings(
        hourly.time@,
        hourly.temperature_2m@,
        shorter(hourly.time@.len(), hourly.temperature_2m@.len()),
    )
}

/// Takes the records and the offset from UTC out of a reply. A request that
/// failed is passed on with its message.
pub fn fetch_open_meteo_url(reply: Result<OpenMeteoResponse, String>) -> (fetched: Result<
    Fetched,
    String,
>)
    ensures
        fetched is Ok <==> reply is Ok,
        reply is Ok ==> fetched->Ok_0.records@ == readings_of(reply->Ok_0.hourly),
        reply is Ok ==> fetched->Ok_0.utc_offset == reply->Ok_0.utc_offset_seconds,
        reply is Err ==> fetched->Err_0 == reply->Err_0,
{
    match reply {
        Ok(response) => {
            let hourly = &response.hourly;
            let mut records: Vec<TemperatureRecord> = Vec::new();
            let mut i: usize = 0;
            while i < hourly.time.len() && i < hourly.temperature_2m.len()
                invariant
                    i <= hourly.time.len(),
                    i <= hourly.temperature_2m.len(),
                    records@ == readings(hourly.time@, hourly.temperature_2m@, i as nat),
                decreases hourly.time.len() - i,
            {
                if let Some(temperature) = hourly.temperature_2m[i] {
                    records.push(TemperatureRecord { timestamp: hourly.time[i], temperature });
                }
                i = i + 1;
            }
            Ok(Fetched { records, utc_offset: response.utc_offset_seconds })
        },
        Err(message) => Err(message),
    }
}

/// A quotient without its fraction.
pub open spec fn truncated_quotient(a: int, b: int) -> int {
    if a >= 0 {
        a / b
    } else {
        -((-a) / b)
    }
}

/// Whole days in a number of seconds.
pub fn whole_days(seconds: i64) -> (days: i64)
    ensures
        days == truncated_quotient(seconds as int, DAY as int),
{
    seconds / DAY
}

/// The days after which an archive has to be asked.
pub const FORECAST_REACH: i64 = 90;

/// The days that are asked of the archive where nothing is cached.
pub const ARCHIVE_DAYS: i64 = 365;

/// The days by which the archive lags behind.
pub const ARCHIVE_LAG: i64 = 5;

/// The newest cached instant, 0 where there is none.
pub open spec fn newest(range: Option<(i64, i64)>) -> i64 {
    match range {
        Some((_, max)) => max,
        None => 0,
    }
}

/// The whole days since the newest cached instant. An empty cache counts as
/// 999 days old.
pub open spec fn gap_days(now: int, newest: int) -> int {
    if newest == 0 {
        999
    } else {
        truncated_quotient(now - newest, DAY as int)
    }
}

/// The days that are asked of the forecast: at least 1, at most 92.
pub open spec fn recent_days(gap: int) -> int {
    if gap < 1 {
        1
    } else if gap > 92 {
        92
    } else {
        gap
    }
}

/// The instant from which the archive is asked.
pub open spec fn archive_start(now: int, newest: int) -> int {
    if newest == 0 {
        now - ARCHIVE_DAYS * DAY
    } else {
        newest
    }
}

/// The instant up to which the archive is asked.
pub open spec fn archive_end(now: int) -> int {
    now - ARCHIVE_LAG * DAY
}

/// Whether the days since the newest cached instant can be counted, and the
/// dates of a request to the archive, where there is one, can be written.
pub open spec fn can_plan(now: int, newest: int) -> bool {
    &&& newest != 0 ==> i64::MIN <= now - newest <= i64::MAX
    &&& gap_days(now, newest) > FORECAST_REACH ==> in_utc_range(archive_start(now, newest))
        && in_utc_range(archive_end(now))
}

/// Tells whether the requests for a location can be planned.
pub fn check_plan(now: i64, range: Option<(i64, i64)>) -> (answer: bool)
    ensures
        answer == can_plan(now as int, newest(range) as int),
{
    let max_ts: i64 = match range {
        Some((_, max)) => max,
        None => 0,
    };
    let gap: i64 = if max_ts == 0 {
        999
    } else {
        match now.checked_sub(max_ts) {
            Some(age) => whole_days(age),
            None => {
                return false;
            },
        }
    };
    if gap <= FORECAST_REACH {
        return true;
    }
    let start: Option<i64> = if max_ts == 0 {
        now.checked_sub(ARCHIVE_DAYS * DAY)
    } else {
        Some(max_ts)
    };
    match (start, now.checked_sub(ARCHIVE_LAG * DAY)) {
        (Some(start), Some(end)) => check_utc_range(start) && check_utc_range(end),
        _ => false,
    }
}

/// The address of a request to the archive.
pub open spec fn archive_url(
    lat: Seq<char>,
    lon: Seq<char>,
    start_date: Seq<char>,
    end_date: Seq<char>,
) -> Seq<char> {
    "https://archive-api.open-meteo.com/v1/archive?latitude="@ + lat + "&longitude="@ + lon
        + "&start_date="@ + start_date + "&end_date="@ + end_date
        + "&hourly=temperature_2m&timeformat=unixtime&timezone=auto"@
}

/// The address of a request for the forecast.
pub open spec fn forecast_url(lat: Seq<char>, lon: Seq<char>, past_days: nat) -> Seq<char> {
    "https://api.open-meteo.com/v1/forecast?latitude="@ + lat + "&longitude="@ + lon
        + "&hourly=temperature_2m&past_days="@ + decimal(past_days)
        + "&forecast_days=1&timeformat=unixtime&timezone=auto"@
}

/// The requests that bring the cache up to date.
pub struct FetchPlan {
    pub archive: Option<String>,
    pub forecast: String,
}

fn build_archive_url(lat: &str, lon: &str, start_date: &str, end_date: &str) -> (url: String)
    ensures
        url@ == archive_url(lat@, lon@, start_date@, end_date@),
{
    let mut url = "https://archive-api.open-meteo.com/v1/archive?latitude=".to_owned();
    url.append(lat);
    url.append("&longitude=");
    url.append(lon);
    url.append("&start_date=");
    url.append(start_date);
    url.append("&end_date=");
    url.append(end_date);
    url.append("&hourly=temperature_2m&timeformat=unixtime&timezone=auto");
    url
}

fn build_forecast_url(lat: &str, lon: &str, past_days: u64) -> (url: String)
    ensures
        url@ == forecast_url(lat@, lon@, past_days as nat),
{
    let mut url = "https://api.open-meteo.com/v1/forecast?latitude=".to_owned();
    url.append(lat);
    url.append("&longitude=");
    url.append(lon);
    url.append("&hourly=temperature_2m&past_days=");
    let days = decimal_text(past_days);
    url.append(days.as_str());
    url.append("&forecast_days=1&timeformat=unixtime&timezone=auto");
    url
}

/// Plans the requests for a location, from the instants between which it is
/// cached.
pub fn plan_fetch(now: i64, range: Option<(i64, i64)>, lat: &str, lon: &str) -> (plan: FetchPlan)
    requires
        can_plan(now as int, newest(range) as int),
    ensures
        ({
            let newest = newest(range) as int;
            let gap = gap_days(now as int, newest);
            &&& plan.archive is Some <==> gap > FORECAST_REACH
            &&& plan.archive is Some ==> plan.archive->0@ == archive_url(
                lat@,
                lon@,
                day_text(day_of(archive_start(now as int, newest))),
                day_text(day_of(archive_end(now as int))),
            )
            &&& plan.forecast@ == forecast_url(lat@, lon@, recent_days(gap) as nat)
        }),
{
    let max_ts: i64 = match range {
        Some((_, max)) => max,
        None => 0,
    };
    let gap: i64 = if max_ts == 0 {
        999
    } else {
        whole_days(now - max_ts)
    };
    let archive = if gap > FORECAST_REACH {
        let start: i64 = if max_ts == 0 {
            now - ARCHIVE_DAYS * DAY
        } else {
            max_ts
        };
        let start_date = utc_date(start);
        let end_date = utc_date(now - ARCHIVE_LAG * DAY);
        Some(build_archive_url(lat, lon, start_date.as_str(), end_date.as_str()))
    } else {
        None
    };
    let past_days: u64 = if gap < 1 {
        1
    } else if gap > 92 {
        92
    } else {
        gap as u64
    };
    FetchPlan { archive, forecast: build_forecast_url(lat, lon, past_days) }
}

/// How far the requests of a plan have come.
#[derive(Clone, Copy, Debug, PartialEq, Eq, Structural)]
pub enum FetchStage {
    Archive,
    Forecast,
    Finished,
}

/// A plan that is being carried out.
pub struct FetchRun {
    pub plan: FetchPlan,
    pub stage: FetchStage,
}

/// The stage after the current request.
pub open spec fn next_stage(stage: FetchStage) -> FetchStage {
    match stage {
        FetchStage::Archive => FetchStage::Forecast,
        _ => FetchStage::Finished,
    }
}

impl FetchRun {
    /// Whether the archive is only asked where the plan says so.
    pub open spec fn is_valid(self) -> bool {
        self.stage is Archive ==> self.plan.archive is Some
    }

    /// The address to be requested now.
    pub open spec fn current_url(self) -> Option<Seq<char>> {
        match self.stage {
            FetchStage::Archive => Some(self.plan.archive->0@),
            FetchStage::Forecast => Some(self.plan.forecast@),
            FetchStage::Finished => None,
        }
    }

    /// Begins with the archive where the plan has one.
    pub fn start(plan: FetchPlan) -> (run: FetchRun)
        ensures
            run.is_valid(),
            run.plan == plan,
            run.stage == (if plan.archive is Some {
                FetchStage::Archive
            } else {
                FetchStage::Forecast
            }),
    {
        let stage = match &plan.archive {
            Some(_) => FetchStage::Archive,
            None => FetchStage::Forecast,
        };
        FetchRun { plan, stage }
    }

    /// The address to be requested now, if there is one left.
    pub fn next_url(&self) -> (url: Option<String>)
        requires
            self.is_valid(),
        ensures
            url is Some <==> self.current_url() is Some,
            url is Some ==> url->0@ == self.current_url()->0,
    {
        match self.stage {
            FetchStage::Archive => self.plan.archive.clone(),
            FetchStage::Forecast => Some(self.plan.forecast.clone()),
            FetchStage::Finished => None,
        }
    }

    /// Takes the outcome of the current request: what comes of the archive is
    /// disregarded, what comes of the forecast is the outcome of the whole.
    pub fn receive(&mut self, reply: Result<i32, String>) -> (outcome: Option<Result<i32, String>>)
        requires
            old(self).is_valid(),
        ensures
            final(self).is_valid(),
            final(self).plan == old(self).plan,
            final(self).stage == next_stage(old(self).stage),
            outcome == (match old(self).stage {
                FetchStage::Forecast => Some(reply),
                _ => None,
            }),
    {
        match self.stage {
            FetchStage::Archive => {
                self.stage = FetchStage::Forecast;
                None
            },
            FetchStage::Forecast => {
                self.stage = FetchStage::Finished;
                Some(reply)
            },
            FetchStage::Finished => None,
        }
    }
}

/// What is saved of a location when its requests are done: its coordinates and
/// offset from UTC if they succeeded, and nothing otherwise.
pub fn profile_to_save(
    location: &str,
    lat: &str,
    lon: &str,
    outcome: &Result<i32, String>,
) -> (profile: Option<SavedLocation>)
    ensures
        profile is Some <==> outcome is Ok,
        outcome is Ok ==> profile->0@ == (LocationView {
            location: location@,
            lat: lat@,
            lon: lon@,
            utc_offset: outcome->Ok_0,
        }),
{
    match outcome {
        Ok(offset) => Some(
            SavedLocation {
                location: location.to_owned(),
                lat: lat.to_owned(),
                lon: lon.to_owned(),
                utc_offset: *offset,
            },
        ),
        Err(_) => None,
    }
}

/// Law: a reply whose temperatures are all there gives one record for each
/// instant, in the same order.
pub proof fn law_complete_reply_loses_nothing(
    time: Seq<i64>,
    temperature: Seq<Option<Binary64>>,
    n: nat,
)
    requires
        n <= time.len(),
        n <= temperature.len(),
        forall|i: int| 0 <= i < n ==> (#[trigger] temperature[i]) is Some,
    ensures
        readings(time, temperature, n) == Seq::new(
            n,
            |i: int| TemperatureRecord { timestamp: time[i], temperature: temperature[i]->0 },
        ),
    decreases n,
{
    let expected = Seq::new(
        n,
        |i: int| TemperatureRecord { timestamp: time[i], temperature: temperature[i]->0 },
    );
    if n > 0 {
        law_complete_reply_loses_nothing(time, temperature, (n - 1) as nat);
        assert(temperature[n - 1] is Some);
    }
    assert(readings(time, temperature, n) =~= expected);
}

/// Law: the forecast is asked for 1 to 92 past days.
pub proof fn law_recent_days_are_in_range(gap: int)
    ensures
        1 <= recent_days(gap) <= 92,
{
}

/// Law: no more than a day is left out between what is cached and what is
/// requested. Where the archive is not asked, the forecast begins less than a
/// day after the newest cached instant. Where it is asked, it begins with that
/// instant, and the forecast begins before the archive ends.
pub proof fn law_requests_leave_no_gap(now: int, newest: int)
    requires
        newest != 0,
    ensures
        gap_days(now, newest) <= FORECAST_REACH ==> now - recent_days(gap_days(now, newest)) * DAY
            < newest + DAY,
        gap_days(now, newest) > FORECAST_REACH ==> archive_start(now, newest) == newest && now
            - recent_days(gap_days(now, newest)) * DAY <= archive_end(now),
{
}

/// Law: a plan is carried out with at most two requests.
pub proof fn law_two_requests_are_enough(stage: FetchStage)
    ensures
        next_stage(next_stage(stage)) == FetchStage::Finished,
{
}

/// Law: without anything cached, the archive is asked for the year before now.
pub proof fn law_empty_cache_asks_for_a_year(now: int)
    ensures
        gap_days(now, newest(None) as int) > FORECAST_REACH,
        archive_start(now, newest(None) as int) == now - 365 * DAY,
        recent_days(gap_days(now, newest(None) as int)) == 92,
{
}

/// Law: every record of a reply was measured, and every temperature that is there
/// gives a record. `at` holds the positions of the temperatures that are there,
/// below both lengths and each once, and the records are those of these
/// positions, in the same order.
pub proof fn law_records_are_the_measured_hours(hourly: HourlyData) -> (at: Seq<int>)
    ensures
        at.len() == readings_of(hourly).len(),
        forall|k: int|
            0 <= k < at.len() ==> {
                &&& 0 <= #[trigger] at[k] < hourly.time@.len()
                &&& at[k] < hourly.temperature_2m@.len()
                &&& hourly.time@[at[k]] == readings_of(hourly)[k].timestamp
                &&& hourly.temperature_2m@[at[k]] == Some(readings_of(hourly)[k].temperature)
            },
        forall|j: int, k: int| 0 <= j < k < at.len() ==> #[trigger] at[j] < #[trigger] at[k],
        forall|i: int|
            0 <= i < hourly.time@.len() && i < hourly.temperature_2m@.len() && (
            #[trigger] hourly.temperature_2m@[i]) is Some ==> at.contains(i),
{
    let n = shorter(hourly.time@.len(), hourly.temperature_2m@.len());
    lemma_positions_of_readings(hourly.time@, hourly.temperature_2m@, n)
}

/// The positions of the temperatures that are there among the first `n`.
proof fn lemma_positions_of_readings(
    time: Seq<i64>,
    temperature: Seq<Option<Binary64>>,
    n: nat,
) -> (at: Seq<int>)
    requires
        n <= time.len(),
        n <= temperature.len(),
    ensures
        at.len() == readings(time, temperature, n).len(),
        forall|k: int|
            0 <= k < at.len() ==> {
                &&& 0 <= #[trigger] at[k] < n
                &&& time[at[k]] == readings(time, temperature, n)[k].timestamp
                &&& temperature[at[k]] == Some(readings(time, temperature, n)[k].temperature)
            },
        forall|j: int, k: int| 0 <= j < k < at.len() ==> #[trigger] at[j] < #[trigger] at[k],
        forall|i: int| 0 <= i < n && (#[trigger] temperature[i]) is Some ==> at.contains(i),
    decreases n,
{
    if n == 0 {
        Seq::empty()
    } else {
        let before = lemma_positions_of_readings(time, temperature, (n - 1) as nat);
        let rest = readings(time, temperature, (n - 1) as nat);
        let all = readings(time, temperature, n);
        if temperature[n - 1] is Some {
            let at = before.push(n - 1);
            assert forall|k: int| 0 <= k < at.len() implies {
                &&& 0 <= #[trigger] at[k] < n
                &&& time[at[k]] == all[k].timestamp
                &&& temperature[at[k]] == Some(all[k].temperature)
            } by {
                if k < before.len() {
                    assert(at[k] == before[k]);
                    assert(all[k] == rest[k]);
                }
            }
            assert forall|i: int| 0 <= i < n && (
            #[trigger] temperature[i]) is Some implies at.contains(i) by {
                if i < n - 1 {
                    let k = choose|k: int| 0 <= k < before.len() && before[k] == i;
                    assert(at[k] == i);
                } else {
                    assert(at[before.len() as int] == i);
                }
            }
            at
        } else {
            before
        }
    }
}

/// Law: a reply gives as many records as it has temperatures, below both lengths.
pub proof fn law_missing_hours_give_no_record(
    time: Seq<i64>,
    temperature: Seq<Option<Binary64>>,
    n: nat,
)
    requires
        n <= time.len(),
        n <= temperature.len(),
    ensures
        readings(time, temperature, n).len() == temperature.take(n as int).filter(
            |value: Option<Binary64>| value is Some,
        ).len(),
    decreases n,
{
    reveal(Seq::filter);
    if n > 0 {
        law_missing_hours_give_no_record(time, temperature, (n - 1) as nat);
        assert(temperature.take(n as int).drop_last() =~= temperature.take(n - 1));
        assert(temperature.take(n as int).last() == temperature[n - 1]);
    }
}

/// Law: whole days are counted towards zero: as many full days of 86400 seconds
/// as there are, and as many for as long a time back.
pub proof fn law_whole_days_are_full(seconds: int)
    ensures
        seconds >= 0 ==> truncated_quotient(seconds, 86_400) * 86_400 <= seconds
            < truncated_quotient(seconds, 86_400) * 86_400 + 86_400,
        truncated_quotient(-seconds, 86_400) == -truncated_quotient(seconds, 86_400),
{
}

/// Law: the newest cached instant is the second of the two between which a
/// location is cached. Without any, and where it is 0, the cache counts as 999
/// days old, and otherwise as old as full days lie between that instant and now.
pub proof fn law_age_of_the_cache(now: int, oldest: i64, max: i64)
    ensures
        newest(Some((oldest, max))) == max,
        newest(None) == 0,
        gap_days(now, 0) == 999,
        max != 0 && now >= max ==> gap_days(now, max as int) * 86_400 <= now - max < gap_days(
            now,
            max as int,
        ) * 86_400 + 86_400,
        max != 0 && now < max ==> gap_days(now, max as int) * 86_400 - 86_400 < now - max
            <= gap_days(now, max as int) * 86_400,
{
}

/// Law: the archive is asked exactly if nothing is cached or the newest cached
/// instant lies 91 full days back. It is asked from that instant on, or for 365
/// days where nothing is cached, and up to five days before now.
pub proof fn law_when_the_archive_is_asked(now: int, newest: int)
    ensures
        gap_days(now, newest) > FORECAST_REACH <==> newest == 0 || now - newest >= 91 * 86_400,
        newest == 0 ==> archive_start(now, newest) == now - 31_536_000,
        newest != 0 ==> archive_start(now, newest) == newest,
        archive_end(now) == now - 432_000,
{
}

/// Law: the forecast is asked for as many past days as the cache is old, but for
/// no less than 1 and no more than 92.
pub proof fn law_recent_days_cover_the_gap(gap: int)
    ensures
        1 <= gap <= 92 ==> recent_days(gap) == gap,
        gap < 1 ==> recent_days(gap) == 1,
        gap > 92 ==> recent_days(gap) == 92,
{
}

/// Law: requests can be planned exactly if the time since the newest cached
/// instant can be counted, and, where the archive is asked, both ends of what it
/// is asked for lie in the years from -262143 to 262142.
pub proof fn law_which_requests_can_be_planned(now: int, newest: int)
    ensures
        newest == 0 ==> (can_plan(now, newest) <==> -8_334_601_228_800 <= now - 31_536_000 && now
            - 432_000 <= 8_210_266_876_799),
        newest != 0 && now - newest < 91 * 86_400 ==> (can_plan(now, newest) <==> i64::MIN <= now
            - newest),
        newest != 0 && now - newest >= 91 * 86_400 ==> (can_plan(now, newest) <==> now - newest
            <= i64::MAX && -8_334_601_228_800 <= newest && now - 432_000 <= 8_210_266_876_799),
{
}

/// Law: an address names the service, then the coordinates, then the days that
/// are asked for, and ends with what is asked for: hourly temperatures at Unix
/// instants in the time zone of the location.
pub proof fn law_addresses_name_what_is_asked(
    lat: Seq<char>,
    lon: Seq<char>,
    start_date: Seq<char>,
    end_date: Seq<char>,
    past_days: nat,
)
    ensures
        archive_url(lat, lon, start_date, end_date)
            == "https://archive-api.open-meteo.com/v1/archive?latitude="@ + lat + "&longitude="@
            + lon + "&start_date="@ + start_date + "&end_date="@ + end_date
            + "&hourly=temperature_2m&timeformat=unixtime&timezone=auto"@,
        forecast_url(lat, lon, past_days) == "https://api.open-meteo.com/v1/forecast?latitude="@
            + lat + "&longitude="@ + lon + "&hourly=temperature_2m&past_days="@ + decimal(past_days)
            + "&forecast_days=1&timeformat=unixtime&timezone=auto"@,
{
}

/// Law: the archive is asked before the forecast, and nothing after it, each at
/// its own address in the plan.
pub proof fn law_archive_is_asked_before_forecast(run: FetchRun)
    ensures
        next_stage(FetchStage::Archive) == FetchStage::Forecast,
        next_stage(FetchStage::Forecast) == FetchStage::Finished,
        next_stage(FetchStage::Finished) == FetchStage::Finished,
        run.stage is Archive ==> run.current_url() == Some(run.plan.archive->0@),
        run.stage is Forecast ==> run.current_url() == Some(run.plan.forecast@),
        run.stage is Finished ==> run.current_url() is None,
        run.is_valid() <==> !(run.stage is Archive && run.plan.archive is None),
{
}

} // verus!
