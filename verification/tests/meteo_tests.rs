use temperature_tracker::binary64::Binary64;
use temperature_tracker::meteo::{
    check_plan, fetch_open_meteo_url, plan_fetch, profile_to_save, whole_days, FetchRun, FetchStage,
    HourlyData, OpenMeteoResponse,
};
use temperature_tracker::records::TemperatureRecord;
use temperature_tracker::utc::utc_date;

// 2024-02-29 17:05:00 UTC
const NOW: i64 = 1_709_226_300;

fn value(x: f64) -> Binary64 {
    Binary64 { bits: x.to_bits() }
}

fn forecast(days: i64) -> String {
    format!(
        "https://api.open-meteo.com/v1/forecast?latitude=53.5&longitude=-113.5&hourly=temperature_2m&past_days={}&forecast_days=1&timeformat=unixtime&timezone=auto",
        days
    )
}

fn archive(start: &str, end: &str) -> String {
    format!(
        "https://archive-api.open-meteo.com/v1/archive?latitude=53.5&longitude=-113.5&start_date={}&end_date={}&hourly=temperature_2m&timeformat=unixtime&timezone=auto",
        start, end
    )
}

#[test]
fn an_empty_cache_asks_for_a_year() {
    let plan = plan_fetch(NOW, None, "53.5", "-113.5");
    assert_eq!(plan.archive, Some(archive("2023-03-01", "2024-02-24")));
    assert_eq!(plan.forecast, forecast(92));
}

#[test]
fn an_instant_of_zero_counts_as_an_empty_cache() {
    let plan = plan_fetch(NOW, Some((-5, 0)), "53.5", "-113.5");
    assert_eq!(plan.archive, Some(archive("2023-03-01", "2024-02-24")));
}

#[test]
fn a_short_gap_asks_only_for_the_forecast() {
    for (age, days) in [(0, 1), (86_399, 1), (86_400, 1), (172_800, 2), (90 * 86_400 + 86_399, 90)] {
        let plan = plan_fetch(NOW, Some((0, NOW - age)), "53.5", "-113.5");
        assert_eq!(plan.archive, None);
        assert_eq!(plan.forecast, forecast(days));
    }
}

#[test]
fn a_long_gap_asks_the_archive_from_the_newest_record() {
    let plan = plan_fetch(NOW, Some((0, NOW - 91 * 86_400)), "53.5", "-113.5");
    assert_eq!(plan.archive, Some(archive("2023-11-30", "2024-02-24")));
    assert_eq!(plan.forecast, forecast(91));
    let plan = plan_fetch(NOW, Some((0, NOW - 400 * 86_400)), "53.5", "-113.5");
    assert_eq!(plan.archive, Some(archive("2023-01-25", "2024-02-24")));
    assert_eq!(plan.forecast, forecast(92));
}

#[test]
fn records_from_the_future_ask_for_one_day() {
    let plan = plan_fetch(NOW, Some((0, NOW + 10 * 86_400)), "53.5", "-113.5");
    assert_eq!(plan.archive, None);
    assert_eq!(plan.forecast, forecast(1));
}

#[test]
fn plans_need_instants_that_can_be_shown() {
    assert!(check_plan(NOW, None));
    assert!(check_plan(NOW, Some((0, NOW))));
    assert!(!check_plan(i64::MAX, None));
    assert!(!check_plan(NOW, Some((0, i64::MIN))));
    assert!(!check_plan(NOW, Some((0, -8_334_601_228_801))));
    assert!(check_plan(NOW, Some((0, -8_334_601_228_800))));
    assert!(check_plan(NOW, Some((0, i64::MAX))));
    assert!(!check_plan(-8_334_601_228_800, None));
    assert!(!check_plan(i64::MIN, None));
    assert!(check_plan(i64::MAX, Some((0, i64::MAX))));
}

#[test]
fn requests_leave_no_gap() {
    for age in [1, 86_400, 5 * 86_400 + 17, 90 * 86_400, 91 * 86_400, 500 * 86_400] {
        let newest = NOW - age;
        let plan = plan_fetch(NOW, Some((0, newest)), "53.5", "-113.5");
        let days: i64 = (1..=92).find(|d| plan.forecast == forecast(*d)).unwrap();
        match plan.archive {
            None => assert!(NOW - days * 86_400 < newest + 86_400),
            Some(url) => {
                assert!(url.contains(&format!("start_date={}", utc_date(newest))));
                assert!(url.contains(&format!("end_date={}", utc_date(NOW - 5 * 86_400))));
                assert!(days >= 5);
            }
        }
    }
}

#[test]
fn a_complete_reply_loses_nothing() {
    let time: Vec<i64> = (0..24).map(|h| h * 3_600).collect();
    let temperature_2m: Vec<Option<Binary64>> = (0..24).map(|h| Some(value(h as f64 / 7.0))).collect();
    let reply = OpenMeteoResponse {
        utc_offset_seconds: 0,
        hourly: HourlyData { time: time.clone(), temperature_2m: temperature_2m.clone() },
    };
    let records = fetch_open_meteo_url(Ok(reply)).ok().unwrap().records;
    assert_eq!(records.len(), 24);
    for (i, record) in records.iter().enumerate() {
        assert_eq!(record.timestamp, time[i]);
        assert_eq!(Some(record.temperature), temperature_2m[i]);
    }
}

#[test]
fn whole_days_drop_the_fraction() {
    assert_eq!(whole_days(86_399), 0);
    assert_eq!(whole_days(86_400), 1);
    assert_eq!(whole_days(-86_399), 0);
    assert_eq!(whole_days(-86_401), -1);
    assert_eq!(whole_days(i64::MIN), i64::MIN / 86_400);
}

#[test]
fn readings_skip_missing_temperatures() {
    let reply = OpenMeteoResponse {
        utc_offset_seconds: -25_200,
        hourly: HourlyData {
            time: vec![10, 20, 30, 40],
            temperature_2m: vec![Some(value(1.5)), None, Some(value(-2.0))],
        },
    };
    let fetched = fetch_open_meteo_url(Ok(reply)).ok().unwrap();
    assert_eq!(fetched.utc_offset, -25_200);
    assert_eq!(
        fetched.records,
        vec![
            TemperatureRecord { timestamp: 10, temperature: value(1.5) },
            TemperatureRecord { timestamp: 30, temperature: value(-2.0) },
        ]
    );
}

#[test]
fn a_failed_request_keeps_its_message() {
    let failed = fetch_open_meteo_url(Err("timed out".to_string()));
    assert_eq!(failed.err(), Some("timed out".to_string()));
}

#[test]
fn the_outcome_is_that_of_the_forecast() {
    let mut run = FetchRun::start(plan_fetch(NOW, None, "53.5", "-113.5"));
    assert_eq!(run.next_url(), Some(archive("2023-03-01", "2024-02-24")));
    assert_eq!(run.receive(Err("no archive".to_string())), None);
    assert_eq!(run.next_url(), Some(forecast(92)));
    assert_eq!(run.receive(Ok(3_600)), Some(Ok(3_600)));
    assert_eq!(run.next_url(), None);
    assert_eq!(run.stage, FetchStage::Finished);
    assert_eq!(run.receive(Ok(1)), None);
}

#[test]
fn without_archive_the_forecast_comes_first() {
    let mut run = FetchRun::start(plan_fetch(NOW, Some((0, NOW)), "53.5", "-113.5"));
    assert_eq!(run.stage, FetchStage::Forecast);
    assert_eq!(run.next_url(), Some(forecast(1)));
    assert_eq!(run.receive(Err("down".to_string())), Some(Err("down".to_string())));
}

#[test]
fn only_a_success_is_saved_as_a_profile() {
    let profile = profile_to_save("Edmonton", "53.5", "-113.5", &Ok(-25_200)).unwrap();
    assert_eq!(profile.location, "Edmonton");
    assert_eq!(profile.lat, "53.5");
    assert_eq!(profile.lon, "-113.5");
    assert_eq!(profile.utc_offset, -25_200);
    assert!(profile_to_save("Edmonton", "53.5", "-113.5", &Err("down".to_string())).is_none());
}
