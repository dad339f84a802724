//! Tests of the Serato tag names and the text helpers.
use track_rename::serato::{format_as_byte_string, format_position_timestamp, hexdump, SeratoTag};

#[test]
fn parses_analysis() {
    let tag = SeratoTag::from_str("Serato Analysis").expect("Should parse 'Serato Analysis'");
    assert_eq!(tag, SeratoTag::Analysis);
}

#[test]
fn parses_autotags() {
    let tag = SeratoTag::from_str("Serato Autotags").expect("Should parse 'Serato Autotags'");
    assert_eq!(tag, SeratoTag::Autotags);
}

#[test]
fn parses_beatgrid() {
    let tag = SeratoTag::from_str("Serato BeatGrid").expect("Should parse 'Serato BeatGrid'");
    assert_eq!(tag, SeratoTag::BeatGrid);
}

#[test]
fn parses_markers() {
    let tag = SeratoTag::from_str("Serato Markers2").expect("Should parse 'Serato Markers2'");
    assert_eq!(tag, SeratoTag::Markers);
}

#[test]
fn parses_overview() {
    let tag = SeratoTag::from_str("Serato Overview").expect("Should parse 'Serato Overview'");
    assert_eq!(tag, SeratoTag::Overview);
}

#[test]
fn rejects_unknown_tag() {
    let result = SeratoTag::from_str("Unknown Tag");
    assert!(result.is_err(), "Should reject unknown tag description");
}

#[test]
fn rejects_empty_string() {
    let result = SeratoTag::from_str("");
    assert!(result.is_err(), "Should reject empty string");
}

#[test]
fn displays_analysis() {
    assert_eq!(SeratoTag::Analysis.to_string(), "SeratoAnalysis");
}

#[test]
fn displays_autotags() {
    assert_eq!(SeratoTag::Autotags.to_string(), "SeratoAutotags");
}

#[test]
fn displays_beatgrid() {
    assert_eq!(SeratoTag::BeatGrid.to_string(), "SeratoBeatGrid");
}

#[test]
fn displays_markers() {
    assert_eq!(SeratoTag::Markers.to_string(), "SeratoMarkers");
}

#[test]
fn displays_overview() {
    assert_eq!(SeratoTag::Overview.to_string(), "SeratoOverview");
}

#[test]
fn formats_zero_milliseconds() {
    assert_eq!(format_position_timestamp(0), "00:00.0");
}

#[test]
fn formats_one_second() {
    assert_eq!(format_position_timestamp(1000), "00:01.0");
}

#[test]
fn formats_one_minute() {
    assert_eq!(format_position_timestamp(60000), "01:00.0");
}

#[test]
fn formats_one_minute_one_second_five_tenths() {
    assert_eq!(format_position_timestamp(61500), "01:01.5");
}

#[test]
fn formats_two_minutes_five_seconds_three_tenths() {
    assert_eq!(format_position_timestamp(125_300), "02:05.3");
}

#[test]
fn formats_large_value() {
    // 10 minutes exactly
    assert_eq!(format_position_timestamp(600_000), "10:00.0");
}

#[test]
fn formats_three_bytes() {
    let result = format_as_byte_string(&[0x00, 0xff, 0xab]);
    assert_eq!(result, "00 ff ab");
}

#[test]
fn formats_empty_slice() {
    let result = format_as_byte_string(&[]);
    assert_eq!(result, "");
}

#[test]
fn contains_hex_values_without_ascii() {
    let data = [0x48, 0x65, 0x6c, 0x6c, 0x6f];
    let result = hexdump(&data, false);
    assert!(
        result.contains("48"),
        "Hexdump should contain hex value '48', got: {result}"
    );
    assert!(
        result.contains("65"),
        "Hexdump should contain hex value '65', got: {result}"
    );
    assert!(
        result.contains("6c"),
        "Hexdump should contain hex value '6c', got: {result}"
    );
    assert!(
        result.contains("6f"),
        "Hexdump should contain hex value '6f', got: {result}"
    );
}

#[test]
fn contains_ascii_delimiters_when_enabled() {
    let data = [0x48, 0x65, 0x6c, 0x6c, 0x6f];
    let result = hexdump(&data, true);
    assert!(
        result.contains('|'),
        "Hexdump with ASCII should contain '|' delimiters, got: {result}"
    );
}

#[test]
fn returns_empty_for_empty_slice() {
    let result = hexdump(&[], false);
    assert_eq!(result, "");

    let result_ascii = hexdump(&[], true);
    assert_eq!(result_ascii, "");
}

#[test]
fn timestamp_tenths_stay_one_digit() {
    assert_eq!(format_position_timestamp(999), "00:00.9");
    assert_eq!(format_position_timestamp(949), "00:00.9");
    assert_eq!(format_position_timestamp(940), "00:00.9");
    assert_eq!(format_position_timestamp(949 - 10), "00:00.9");
    assert_eq!(format_position_timestamp(849), "00:00.8");
    assert_eq!(format_position_timestamp(59_999), "00:59.9");
    assert_eq!(format_position_timestamp(61_549), "01:01.5");
    assert_eq!(format_position_timestamp(61_550), "01:01.6");
}
