use temperature_tracker::binary64::Binary64;
use temperature_tracker::daily::{check_summarise, process_daily_metrics};
use temperature_tracker::plot::tooltip_time;
use temperature_tracker::records::TemperatureRecord;

fn record(timestamp: i64, temperature: f64) -> TemperatureRecord {
    TemperatureRecord { timestamp, temperature: Binary64 { bits: temperature.to_bits() } }
}

// 2024-02-28 00:00:00 UTC
const START: i64 = 1_709_078_400;

fn three_days() -> Vec<TemperatureRecord> {
    (0..72).map(|h| record(START + h * 3600, ((h * 7) % 24) as f64 - 10.0)).collect()
}

#[test]
fn highs_and_lows_of_utc_days() {
    let highs = process_daily_metrics(&three_days(), true, 0);
    let lows = process_daily_metrics(&three_days(), false, 0);
    let noon = START + 43_200;
    assert_eq!(highs, vec![record(noon, 13.0), record(noon + 86_400, 13.0), record(noon + 172_800, 13.0)]);
    assert_eq!(lows, vec![record(noon, -10.0), record(noon + 86_400, -10.0), record(noon + 172_800, -10.0)]);
}

#[test]
fn the_offset_decides_the_local_day() {
    let records = vec![record(START + 3_600, 1.0), record(START + 7 * 3_600, 2.0)];
    assert_eq!(
        process_daily_metrics(&records, true, -7 * 3_600),
        vec![
            record(START - 86_400 + 43_200 + 7 * 3_600, 1.0),
            record(START + 43_200 + 7 * 3_600, 2.0),
        ]
    );
    assert_eq!(
        process_daily_metrics(&records, true, 0),
        vec![record(START + 43_200, 2.0)]
    );
}

#[test]
fn points_lie_at_local_noon() {
    for offset in [-43_200i64, -12_600, 0, 19_800, 50_400] {
        for point in process_daily_metrics(&three_days(), false, offset) {
            assert_eq!((point.timestamp + offset).rem_euclid(86_400), 43_200);
        }
    }
}

#[test]
fn records_need_not_be_in_order() {
    let mut records = three_days();
    records.reverse();
    assert_eq!(
        process_daily_metrics(&records, true, 3_600),
        process_daily_metrics(&three_days(), true, 3_600)
    );
}

#[test]
fn no_records_give_no_points() {
    assert_eq!(process_daily_metrics(&vec![], true, 0), vec![]);
}

#[test]
fn dates_beyond_four_digits_sort_as_texts() {
    let far = record(253_402_300_800, 3.0);
    let before_zero = record(-62_167_219_201, 2.0);
    let today = record(START, 1.0);
    let points = process_daily_metrics(&vec![today, before_zero, far], true, 0);
    let temperatures: Vec<f64> = points.iter().map(|p| f64::from_bits(p.temperature.bits)).collect();
    assert_eq!(temperatures, vec![3.0, 2.0, 1.0]);
}

#[test]
fn within_four_digit_years_points_go_forward() {
    let points = process_daily_metrics(&three_days(), true, 7_200);
    for pair in points.windows(2) {
        assert!(pair[0].timestamp < pair[1].timestamp);
    }
}

#[test]
fn highs_and_lows_share_their_instants_and_enclose_the_records() {
    let highs = process_daily_metrics(&three_days(), true, -18_000);
    let lows = process_daily_metrics(&three_days(), false, -18_000);
    assert_eq!(highs.len(), lows.len());
    for (high, low) in highs.iter().zip(lows.iter()) {
        assert_eq!(high.timestamp, low.timestamp);
        assert!(!high.temperature.is_less(low.temperature));
    }
}

#[test]
fn highs_and_lows_are_measured_on_their_day() {
    let offset = -18_000;
    for get_high in [true, false] {
        for point in process_daily_metrics(&three_days(), get_high, offset) {
            let day = (point.timestamp + offset).div_euclid(86_400);
            assert!(three_days().iter().any(|r| {
                (r.timestamp + offset).div_euclid(86_400) == day && r.temperature == point.temperature
            }));
        }
    }
}

#[test]
fn the_tooltip_of_a_daily_point_shows_noon() {
    let points = process_daily_metrics(&three_days(), true, 0);
    assert_eq!(tooltip_time(points[1].timestamp, 0), "Time: 2024-02-29 12:00");
    let points = process_daily_metrics(&three_days(), true, -25_200);
    assert_eq!(tooltip_time(points[0].timestamp, -25_200), "Time: 2024-02-27 12:00");
}

#[test]
fn a_summary_of_a_summary_is_the_same() {
    let highs = process_daily_metrics(&three_days(), true, 3_600);
    assert_eq!(process_daily_metrics(&highs, true, 3_600), highs);
}

#[test]
fn finite_highs_are_their_own_lows() {
    let highs = process_daily_metrics(&three_days(), true, 3_600);
    assert_eq!(process_daily_metrics(&highs, false, 3_600), highs);
    let lows = process_daily_metrics(&three_days(), false, 3_600);
    assert_eq!(process_daily_metrics(&lows, true, 3_600), lows);
    let endless = process_daily_metrics(&vec![record(START, f64::INFINITY)], true, 0);
    assert_eq!(endless, vec![record(START + 43_200, f64::INFINITY)]);
    assert_eq!(process_daily_metrics(&endless, false, 0), vec![record(START + 43_200, f64::MAX)]);
}

#[test]
fn repeated_records_do_not_matter() {
    let mut records = three_days();
    records.extend(three_days());
    assert_eq!(process_daily_metrics(&records, false, 0), process_daily_metrics(&three_days(), false, 0));
}

#[test]
fn records_out_of_range_cannot_be_summarised() {
    assert!(check_summarise(&three_days(), 3_600));
    assert!(!check_summarise(&vec![record(i64::MAX, 0.0)], 1));
    assert!(!check_summarise(&vec![record(0, 0.0)], i64::MAX));
    assert!(check_summarise(&vec![record(8_210_266_876_799, 0.0)], 0));
    assert!(!check_summarise(&vec![record(8_210_266_876_799, 0.0)], 1));
    assert!(!check_summarise(&vec![record(i64::MIN, 0.0)], i64::MAX));
    assert!(check_summarise(&vec![record(i64::MIN + 43_200 + 86_400, 0.0)], i64::MAX));
}
