use temperature_tracker::binary64::Binary64;
use temperature_tracker::hover::{find_closest, find_under_pointer, Axis, HoverPoint};
use temperature_tracker::plot::{
    axis_label, check_frame, render_plot, tooltip_time, Dataset, LineColor, PlotBounds, REACH,
};
use temperature_tracker::records::TemperatureRecord;

fn value(x: f64) -> Binary64 {
    Binary64 { bits: x.to_bits() }
}

fn record(timestamp: i64, temperature: f64) -> TemperatureRecord {
    TemperatureRecord { timestamp, temperature: value(temperature) }
}

fn red(records: Vec<TemperatureRecord>) -> Dataset {
    Dataset { records, color: LineColor::Red }
}

fn hover(points: &[(i64, f64)], x: f64, y: f64) -> Vec<HoverPoint> {
    points
        .iter()
        .map(|(t, temperature)| HoverPoint {
            record: record(*t, *temperature),
            time_distance: value((*t as f64 - x).abs()),
            temperature_distance: value((*temperature - y).abs()),
        })
        .collect()
}

#[test]
fn without_records_there_is_no_plot() {
    assert!(render_plot(&vec![]).is_none());
    assert!(render_plot(&vec![red(vec![]), red(vec![])]).is_none());
}

#[test]
fn the_frame_holds_all_lines() {
    let blue = Dataset { records: vec![record(50, -4.5), record(900, 3.0)], color: LineColor::LightBlue };
    let scene = render_plot(&vec![red(vec![record(100, 1.0)]), red(vec![]), blue]).unwrap();
    assert_eq!(
        scene.bounds,
        PlotBounds { min_temp: value(-4.5), max_temp: value(3.0), min_time: 50, max_time: 900 }
    );
    assert_eq!(scene.lines.len(), 2);
    assert_eq!(scene.lines[0].records, vec![record(100, 1.0)]);
    assert_eq!(scene.lines[0].color, LineColor::Red);
    assert_eq!(scene.lines[1].records, vec![record(50, -4.5), record(900, 3.0)]);
    assert_eq!(scene.lines[1].color, LineColor::LightBlue);
}

#[test]
fn a_single_instant_gets_an_hour_on_either_side() {
    let scene = render_plot(&vec![red(vec![record(7_200, 8.0), record(7_200, 9.0)])]).unwrap();
    assert_eq!(
        scene.bounds,
        PlotBounds { min_temp: value(8.0), max_temp: value(9.0), min_time: 3_600, max_time: 10_800 }
    );
}

#[test]
fn single_instants_at_the_ends_have_no_frame() {
    assert!(!check_frame(&vec![red(vec![record(i64::MAX, 0.0)])]));
    assert!(!check_frame(&vec![red(vec![record(i64::MIN + 3_599, 0.0)])]));
    assert!(check_frame(&vec![red(vec![record(i64::MIN + 3_600, 0.0)])]));
    assert!(check_frame(&vec![red(vec![record(i64::MAX, 0.0), record(0, 0.0)])]));
    assert!(check_frame(&vec![]));
}

#[test]
fn labels_apply_the_offset_of_the_location() {
    assert_eq!(axis_label(1_709_226_300, 0), "02/29 17:05");
    assert_eq!(axis_label(1_709_226_300, -25_200), "02/29 10:05");
    assert_eq!(axis_label(1_709_226_300, 28_800), "03/01 01:05");
    assert_eq!(tooltip_time(1_709_226_300, -25_200), "Time: 2024-02-29 10:05");
}

#[test]
fn reach_is_three_hours() {
    assert_eq!(REACH, (3.0f64 * 3600.0).to_bits());
}

#[test]
fn the_pointer_finds_the_closest_record() {
    let points = [(0, 10.0), (3_600, 12.0), (7_200, 8.0), (3_600, 2.0)];
    assert_eq!(find_under_pointer(&hover(&points, 3_500.0, 11.0)), Some(1));
    assert_eq!(find_under_pointer(&hover(&points, 3_500.0, 3.0)), Some(3));
    assert_eq!(find_under_pointer(&hover(&points, 100.0, 3.0)), Some(0));
    assert_eq!(find_under_pointer(&hover(&points, 7_200.0, 100.0)), Some(2));
}

#[test]
fn of_equally_close_records_the_first_is_found() {
    let points = [(0, 10.0), (200, 10.0), (0, 12.0)];
    assert_eq!(find_under_pointer(&hover(&points, 100.0, 11.0)), Some(0));
    assert_eq!(find_closest(&hover(&points, 100.0, 0.0), Axis::Time, None), Some(0));
}

#[test]
fn beyond_three_hours_nothing_is_found() {
    let points = [(0, 10.0)];
    assert_eq!(find_under_pointer(&hover(&points, 10_800.0, 10.0)), None);
    assert_eq!(find_under_pointer(&hover(&points, 10_799.0, 10.0)), Some(0));
    assert_eq!(find_under_pointer(&hover(&points, -10_800.0, 10.0)), None);
}

#[test]
fn distances_that_are_no_numbers_are_passed_over() {
    assert_eq!(find_under_pointer(&hover(&[(0, 10.0)], f64::NAN, 10.0)), None);
    assert_eq!(find_under_pointer(&hover(&[(0, f64::NAN)], 0.0, 10.0)), None);
    assert_eq!(find_under_pointer(&hover(&[(0, f64::NAN), (0, 3.0)], 0.0, 10.0)), Some(1));
    assert_eq!(find_under_pointer(&vec![]), None);
}
