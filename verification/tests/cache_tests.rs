use temperature_tracker::binary64::Binary64;
use temperature_tracker::cache::{
    get_date_range, get_records, get_saved_locations, load_state, save_records, save_state,
    LocationRow, RangeRow, RecordRow, SavedLocation,
};
use temperature_tracker::records::TemperatureRecord;

fn place(location: &str, offset: i32) -> SavedLocation {
    SavedLocation {
        location: location.to_string(),
        lat: "53.5".to_string(),
        lon: "-113.5".to_string(),
        utc_offset: offset,
    }
}

fn fields(l: &SavedLocation) -> (String, String, String, i32) {
    (l.location.clone(), l.lat.clone(), l.lon.clone(), l.utc_offset)
}

#[test]
fn without_a_row_the_defaults_are_offered() {
    let state = load_state(None);
    assert_eq!(fields(&state), (String::new(), "53.5461".to_string(), "-113.4938".to_string(), 0));
}

#[test]
fn unreadable_columns_are_empty() {
    let row = LocationRow { location: None, lat: Some("1".to_string()), lon: None, utc_offset: None };
    assert_eq!(fields(&load_state(Some(row))), (String::new(), "1".to_string(), String::new(), 0));
}

#[test]
fn a_saved_state_is_loaded_again() {
    let state = place("Edmonton", -25_200);
    assert_eq!(fields(&load_state(Some(save_state(&state)))), fields(&state));
}

#[test]
fn saved_locations_drop_unreadable_rows() {
    let broken = LocationRow {
        location: Some("Nowhere".to_string()),
        lat: Some("1".to_string()),
        lon: Some("2".to_string()),
        utc_offset: None,
    };
    let rows = vec![save_state(&place("A", 1)), broken, save_state(&place("B", 2))];
    let locations = get_saved_locations(&rows);
    assert_eq!(locations.len(), 2);
    assert_eq!(fields(&locations[0]), fields(&place("A", 1)));
    assert_eq!(fields(&locations[1]), fields(&place("B", 2)));
    assert_eq!(fields(&locations[0].copy()), fields(&place("A", 1)));
}

#[test]
fn records_are_read_as_they_were_saved() {
    let records: Vec<TemperatureRecord> = (0..5)
        .map(|i| TemperatureRecord {
            timestamp: i * 3_600,
            temperature: Binary64 { bits: (i as f64 / 3.0).to_bits() },
        })
        .collect();
    let rows = save_records(&records);
    assert_eq!(get_records(&rows, i64::MIN, i64::MAX), records);
    assert_eq!(get_records(&rows, 3_600, 10_800), records[1..4].to_vec());
    assert_eq!(get_records(&rows, 3_601, 7_199), vec![]);
    assert_eq!(get_records(&rows, 10_800, 3_600), vec![]);
}

#[test]
fn locations_and_records_keep_the_order_of_their_rows() {
    let rows: Vec<LocationRow> = ["Aa", "B", "a", "é"].iter().map(|n| save_state(&place(n, 0))).collect();
    let names: Vec<String> = get_saved_locations(&rows).iter().map(|l| l.location.clone()).collect();
    assert_eq!(names, vec!["Aa", "B", "a", "é"]);
    for pair in names.windows(2) {
        assert!(pair[0] < pair[1]);
    }
    let zero = Binary64 { bits: 0 };
    let rows: Vec<RecordRow> =
        [1, 3, 3, 8].iter().map(|t| RecordRow { timestamp: Some(*t), temperature: Some(zero) }).collect();
    let times: Vec<i64> = get_records(&rows, 2, 9).iter().map(|r| r.timestamp).collect();
    assert_eq!(times, vec![3, 3, 8]);
}

#[test]
fn a_window_can_be_split() {
    let records: Vec<TemperatureRecord> = [5, 5, 9, 14, 14, 20]
        .iter()
        .map(|t| TemperatureRecord { timestamp: *t, temperature: Binary64 { bits: *t as u64 } })
        .collect();
    let rows = save_records(&records);
    for middle in 5..20 {
        let mut parts = get_records(&rows, 5, middle);
        parts.extend(get_records(&rows, middle + 1, 20));
        assert_eq!(parts, get_records(&rows, 5, 20));
        assert_eq!(parts, records);
    }
}

#[test]
fn rows_are_read_in_parts() {
    let zero = Binary64 { bits: 0 };
    let a = vec![RecordRow { timestamp: Some(1), temperature: Some(zero) }];
    let b = vec![RecordRow { timestamp: None, temperature: None }, RecordRow { timestamp: Some(2), temperature: Some(zero) }];
    let both: Vec<RecordRow> = a.iter().chain(b.iter()).copied().collect();
    let mut parts = get_records(&a, 0, 9);
    parts.extend(get_records(&b, 0, 9));
    assert_eq!(get_records(&both, 0, 9), parts);
}

#[test]
fn unreadable_records_are_dropped() {
    let zero = Binary64 { bits: 0 };
    let rows = vec![
        RecordRow { timestamp: None, temperature: Some(zero) },
        RecordRow { timestamp: Some(7), temperature: Some(zero) },
        RecordRow { timestamp: Some(8), temperature: None },
    ];
    assert_eq!(get_records(&rows, 7, 8), vec![TemperatureRecord { timestamp: 7, temperature: zero }]);
}

#[test]
fn a_range_needs_both_ends() {
    assert_eq!(get_date_range(None), None);
    assert_eq!(get_date_range(Some(RangeRow { min: None, max: None })), None);
    assert_eq!(get_date_range(Some(RangeRow { min: Some(3), max: None })), None);
    assert_eq!(get_date_range(Some(RangeRow { min: None, max: Some(9) })), None);
    assert_eq!(get_date_range(Some(RangeRow { min: Some(3), max: Some(9) })), Some((3, 9)));
}
