use temperature_tracker::binary64::Binary64;
use temperature_tracker::cache::SavedLocation;
use temperature_tracker::daily::process_daily_metrics;
use temperature_tracker::frame::{FrameAction, FrameEvent};
use temperature_tracker::plot::LineColor;
use temperature_tracker::records::TemperatureRecord;
use temperature_tracker::weather_app::{
    cached_days, check_count_days, FetchMsg, GraphViewMode, Overview, PollOutcome, WeatherApp,
};

const NOW: i64 = 1_709_226_300;

fn value(x: f64) -> Binary64 {
    Binary64 { bits: x.to_bits() }
}

fn place(location: &str, offset: i32) -> SavedLocation {
    SavedLocation {
        location: location.to_string(),
        lat: "53.5".to_string(),
        lon: "-113.5".to_string(),
        utc_offset: offset,
    }
}

fn idle(location: &str) -> WeatherApp {
    WeatherApp::new(place(location, 0), vec![], None, NOW, None, None).0
}

#[test]
fn the_window_opens_with_a_request() {
    let range = Some((NOW - 30 * 86_400 - 5, NOW));
    let (app, request) =
        WeatherApp::new(place("Edmonton", -25_200), vec![], range, NOW, Some(value(53.5)), Some(value(-113.5)));
    let request = request.unwrap();
    assert_eq!(request.location, "Edmonton");
    assert_eq!(request.lat, value(53.5));
    assert_eq!(request.lon, value(-113.5));
    assert!(app.is_fetching);
    assert_eq!(app.current_location, "Edmonton");
    assert_eq!(app.saved_location, "Edmonton");
    assert_eq!(app.current_utc_offset, -25_200);
    assert_eq!(app.cached_days_available, 30);
    assert_eq!((app.start_days_ago, app.end_days_ago), (7, 0));
    assert!(app.view_mode == GraphViewMode::Hourly);
    assert!(!app.unlock_history);
}

#[test]
fn the_window_opens_without_a_request() {
    let (app, request) = WeatherApp::new(place("", 0), vec![], None, NOW, Some(value(1.0)), Some(value(2.0)));
    assert!(request.is_none());
    assert!(!app.is_fetching);
    let (_, request) = WeatherApp::new(place("A", 0), vec![], None, NOW, None, Some(value(2.0)));
    assert!(request.is_none());
    let (_, request) = WeatherApp::new(place("A", 0), vec![], None, NOW, Some(value(2.0)), None);
    assert!(request.is_none());
}

#[test]
fn at_least_seven_days_are_available() {
    assert_eq!(cached_days(None, NOW), 7);
    assert_eq!(cached_days(Some((NOW, NOW)), NOW), 7);
    assert_eq!(cached_days(Some((NOW - 8 * 86_400, NOW)), NOW), 8);
    assert_eq!(cached_days(Some((NOW - 8 * 86_400 + 1, NOW)), NOW), 7);
    assert_eq!(cached_days(Some((NOW + 100 * 86_400, NOW)), NOW), 7);
    assert_eq!(cached_days(Some((0, 0)), 86_400 * 0x7FFF_FFFF), i32::MAX);
    assert_eq!(cached_days(Some((0, 0)), 86_400 * 0x8000_0000), 7);
    assert_eq!(cached_days(Some((0, 0)), 86_400 * 0x1_0000_000A), 10);
    assert!(check_count_days(Some((NOW, 0)), NOW));
    assert!(!check_count_days(Some((i64::MIN, 0)), NOW));
}

#[test]
fn a_success_brings_the_offset() {
    let mut app = idle("A");
    app.start_fetch("A".to_string(), value(1.0), value(2.0));
    assert!(app.poll_fetch(None) == PollOutcome::Waiting);
    assert!(app.is_fetching);
    assert!(app.poll_fetch(Some(FetchMsg::Done(Ok(7_200)))) == PollOutcome::Succeeded);
    assert!(!app.is_fetching);
    assert_eq!(app.current_utc_offset, 7_200);
    assert!(app.poll_fetch(None) == PollOutcome::Idle);
}

#[test]
fn a_failure_is_shown() {
    let mut app = idle("A");
    app.start_fetch("A".to_string(), value(1.0), value(2.0));
    assert!(app.poll_fetch(Some(FetchMsg::Done(Err("timed out".to_string())))) == PollOutcome::Failed);
    assert_eq!(app.location_error, Some("Network/API Fault: timed out".to_string()));
    assert_eq!(app.current_utc_offset, 0);
    app.start_fetch("A".to_string(), value(1.0), value(2.0));
    assert_eq!(app.location_error, None);
}

#[test]
fn a_location_is_saved_once() {
    let mut app = idle("A");
    assert!(app.take_unsaved_state().is_none());
    app.lat_input = "54".to_string();
    let state = app.take_unsaved_state().unwrap();
    assert_eq!((state.location.as_str(), state.lat.as_str(), state.lon.as_str()), ("A", "54", "-113.5"));
    assert!(app.take_unsaved_state().is_none());
    app.current_utc_offset = 60;
    assert_eq!(app.take_unsaved_state().unwrap().utc_offset, 60);
    app.current_location = "B".to_string();
    assert!(app.take_unsaved_state().is_some());
    app.lon_input = "B".to_string();
    assert!(app.take_unsaved_state().is_some());
    assert!(app.take_unsaved_state().is_none());
}

#[test]
fn a_frame_reads_saves_and_draws() {
    let mut app = idle("A");
    app.start_fetch("A".to_string(), value(1.0), value(2.0));
    let step = app.update(FrameEvent::Begun { message: None });
    assert!(step.repaint);
    assert!(matches!(step.action, FrameAction::Draw));
    let step = app.update(FrameEvent::Begun { message: Some(FetchMsg::Done(Ok(3_600))) });
    assert!(!step.repaint);
    assert!(matches!(step.action, FrameAction::ReadCache));
    let range = Some((NOW - 40 * 86_400, NOW));
    let step = app.update(FrameEvent::CacheRead { range, now: NOW, saved_locations_list: vec![place("A", 3_600)] });
    assert_eq!(app.cached_days_available, 40);
    assert_eq!(app.saved_locations_list.len(), 1);
    match step.action {
        FrameAction::SaveState { state } => assert_eq!(state.utc_offset, 3_600),
        _ => panic!("the new offset has to be saved"),
    }
    app.start_days_ago = 30;
    app.end_days_ago = 9;
    let step = app.update(FrameEvent::StateSaved { range, now: NOW });
    assert!(matches!(step.action, FrameAction::Draw));
    assert_eq!((app.start_days_ago, app.end_days_ago), (7, 7));
    let step = app.update(FrameEvent::Begun { message: None });
    assert!(!step.repaint);
    assert!(matches!(step.action, FrameAction::Draw));
}

#[test]
fn fetching_is_shown_exactly_while_a_request_is_outstanding() {
    let (mut app, request) =
        WeatherApp::new(place("A", 0), vec![place("B", 60)], None, NOW, Some(value(1.0)), Some(value(2.0)));
    let mut outstanding = request.is_some();
    assert!(outstanding);
    assert_eq!(app.is_fetching, outstanding);

    assert!(app.press_fetch(Some(value(1.0)), Some(value(2.0))).is_none());
    app.select_saved_location(0);
    app.update(FrameEvent::Begun { message: None });
    app.update(FrameEvent::StateSaved { range: None, now: NOW });
    assert_eq!(app.is_fetching, outstanding);

    app.update(FrameEvent::Begun { message: Some(FetchMsg::Done(Err("down".to_string()))) });
    outstanding = false;
    assert_eq!(app.is_fetching, outstanding);
    app.update(FrameEvent::Begun { message: None });
    assert!(app.press_fetch(None, None).is_none());
    assert_eq!(app.is_fetching, outstanding);

    outstanding = app.press_fetch(Some(value(1.0)), Some(value(2.0))).is_some();
    assert!(outstanding);
    assert_eq!(app.is_fetching, outstanding);
    app.update(FrameEvent::Begun { message: Some(FetchMsg::Done(Ok(0))) });
    assert!(!app.is_fetching);
    app.update(FrameEvent::CacheRead { range: Some((NOW + 1, NOW + 1)), now: NOW, saved_locations_list: vec![] });
    assert!(!app.is_fetching);
    assert!(app.cached_days_available >= 7);
}

#[test]
fn an_unlocked_history_keeps_its_choices() {
    let mut app = idle("A");
    app.unlock_history = true;
    app.start_days_ago = 30;
    app.adapt_to_location(Some((NOW - 50 * 86_400, NOW)), NOW);
    assert_eq!(app.start_days_ago, 30);
    assert_eq!(app.slider_max(), 50);
    app.unlock_history = false;
    assert_eq!(app.slider_max(), 7);
}

#[test]
fn a_saved_location_is_selected() {
    let mut app = idle("A");
    app.refresh(None, NOW, vec![place("B", 5), place("C", 6)]);
    app.select_saved_location(1);
    assert_eq!(app.current_location, "C");
    assert_eq!(app.lat_input, "53.5");
    assert_eq!(app.lon_input, "-113.5");
    assert_eq!(app.current_utc_offset, 6);
    assert_eq!(app.saved_location, "A");
}

#[test]
fn the_button_requests_the_current_location() {
    let mut app = idle("A");
    let request = app.press_fetch(Some(value(1.0)), Some(value(2.0))).unwrap();
    assert_eq!(request.location, "A");
    assert_eq!((request.lat, request.lon), (value(1.0), value(2.0)));
    assert!(app.is_fetching);
    assert!(app.press_fetch(Some(value(1.0)), Some(value(2.0))).is_none());
    assert_eq!(app.location_error, None);
}

#[test]
fn the_button_wants_coordinates_and_a_label() {
    let mut app = idle("A");
    assert!(app.press_fetch(None, Some(value(2.0))).is_none());
    assert_eq!(app.location_error, Some("Invalid float coordinates configuration format.".to_string()));
    for label in ["", "   ", "\t\n", "\u{00A0}\u{2003}\u{3000}\u{0085}"] {
        let mut app = idle(label);
        assert!(app.press_fetch(Some(value(1.0)), Some(value(2.0))).is_none());
        assert_eq!(app.location_error, Some("Please define a location label name.".to_string()));
        assert!(!app.is_fetching);
    }
    for label in [" x ", "\u{200B}", "\u{180E}", "\u{FEFF}"] {
        let mut app = idle(label);
        assert!(app.press_fetch(Some(value(1.0)), Some(value(2.0))).is_some());
    }
}

#[test]
fn a_label_of_white_space_is_blank() {
    for code in 0..0x3100u32 {
        if let Some(c) = char::from_u32(code) {
            let white = matches!(code, 0x09..=0x0D | 0x20 | 0x85 | 0xA0 | 0x1680 | 0x2000..=0x200A | 0x2028 | 0x2029 | 0x202F | 0x205F | 0x3000);
            assert_eq!(c.is_whitespace(), white);
            let mut app = idle(&format!(" {} ", c));
            assert_eq!(app.press_fetch(Some(value(1.0)), Some(value(2.0))).is_none(), white);
        }
    }
    for code in 0x3100..=0x10FFFFu32 {
        assert!(!char::from_u32(code).is_some_and(|c| c.is_whitespace()));
    }
}

#[test]
fn captions_and_windows() {
    let mut app = idle("Edmonton");
    assert_eq!(app.unlock_caption(), "Unlock Start/End Frame Sliders (7 days available locally)");
    match app.overview(NOW) {
        Overview::Records { caption, start, end } => {
            assert_eq!(caption, "Showing past 72 hours for: Edmonton");
            assert_eq!((start, end), (NOW - 72 * 3_600, NOW));
        }
        Overview::LocationNotSet => panic!("there is a location"),
    }
    app.start_days_ago = 5;
    app.end_days_ago = 2;
    assert_eq!(app.chosen_window(NOW), Some((NOW - 5 * 86_400, NOW - 2 * 86_400)));
    let empty = idle("");
    assert!(matches!(empty.overview(NOW), Overview::LocationNotSet));
    assert_eq!(empty.chosen_window(NOW), None);
}

#[test]
fn the_overview_shows_one_red_line_in_every_view_mode() {
    let records: Vec<TemperatureRecord> =
        (0..72).map(|h| TemperatureRecord { timestamp: NOW - h * 3_600, temperature: value(h as f64) }).collect();
    let mut app = idle("A");
    for mode in [GraphViewMode::Hourly, GraphViewMode::DailyHigh, GraphViewMode::DailyLow, GraphViewMode::DailyMinMax] {
        app.view_mode = mode;
        let shown = app.overview_datasets(records.clone());
        assert_eq!(shown.len(), 1);
        assert_eq!(shown[0].records, records);
        assert_eq!(shown[0].color, LineColor::Red);
    }
}

#[test]
fn the_view_mode_decides_the_lines() {
    let records: Vec<TemperatureRecord> = (0..48)
        .map(|h| TemperatureRecord { timestamp: NOW + h * 3_600, temperature: value((h % 13) as f64) })
        .collect();
    let mut app = idle("A");
    app.current_utc_offset = -3_600;
    let highs = process_daily_metrics(&records, true, -3_600);
    let lows = process_daily_metrics(&records, false, -3_600);

    let shown = app.display_datasets(records.clone());
    assert_eq!(shown.len(), 1);
    assert_eq!(shown[0].records, records);
    assert_eq!(shown[0].color, LineColor::Red);

    app.view_mode = GraphViewMode::DailyHigh;
    let shown = app.display_datasets(records.clone());
    assert_eq!(shown.len(), 1);
    assert_eq!(shown[0].records, highs);
    assert_eq!(shown[0].color, LineColor::Red);

    app.view_mode = GraphViewMode::DailyLow;
    let shown = app.display_datasets(records.clone());
    assert_eq!(shown.len(), 1);
    assert_eq!(shown[0].records, lows);
    assert_eq!(shown[0].color, LineColor::LightBlue);

    app.view_mode = GraphViewMode::DailyMinMax;
    let shown = app.display_datasets(records.clone());
    assert_eq!(shown.len(), 2);
    assert_eq!(shown[0].records, highs);
    assert_eq!(shown[0].color, LineColor::Red);
    assert_eq!(shown[1].records, lows);
    assert_eq!(shown[1].color, LineColor::LightBlue);
}
