//! Tests of the autotags and beatgrid tags. The library keeps the number texts and the
//! raw `f32` bits; the tests turn them into numbers.
use track_rename::serato::autotags::AutoTags;
use track_rename::serato::beatgrid::{BeatGrid, BeatGridMarker};

fn number(text: &str) -> f32 {
    text.parse().expect("number text")
}

fn gain_or_default(tags: &AutoTags) -> f32 {
    tags.gain.as_deref().map(number).unwrap_or(0.0)
}

#[test]
fn parses_full_autotags_data() {
    // Header (2 bytes) + BPM "128.00\0" (7 bytes) + Auto gain "-3.257\0" (7 bytes) + Gain "0.000\0" (6 bytes)
    let data: Vec<u8> = vec![
        0x01, 0x01, // header
        0x31, 0x32, 0x38, 0x2e, 0x30, 0x30, 0x00, // "128.00\0"
        0x2d, 0x33, 0x2e, 0x32, 0x35, 0x37, 0x00, // "-3.257\0"
        0x30, 0x2e, 0x30, 0x30, 0x30, 0x00, // "0.000\0"
    ];
    let autotags = AutoTags::parse(&data).expect("Should parse valid autotags data");
    let epsilon = 0.001;
    assert!((number(&autotags.bpm) - 128.0).abs() < epsilon, "BPM should be 128.0");
    assert!(
        (number(&autotags.auto_gain) - (-3.257)).abs() < epsilon,
        "Auto gain should be -3.257"
    );
    assert!((gain_or_default(&autotags) - 0.0).abs() < epsilon, "Gain should be 0.0");
}

#[test]
fn parses_without_gain_field() {
    // Only 16 bytes: header + BPM + auto gain, no gain field
    let data: Vec<u8> = vec![
        0x01, 0x01, // header
        0x31, 0x32, 0x38, 0x2e, 0x30, 0x30, 0x00, // "128.00\0"
        0x2d, 0x33, 0x2e, 0x32, 0x35, 0x37, 0x00, // "-3.257\0"
    ];
    let autotags = AutoTags::parse(&data).expect("Should parse autotags without gain");
    let epsilon = 0.001;
    assert!((number(&autotags.bpm) - 128.0).abs() < epsilon, "BPM should be 128.0");
    assert!(
        (number(&autotags.auto_gain) - (-3.257)).abs() < epsilon,
        "Auto gain should be -3.257"
    );
    assert!(
        (gain_or_default(&autotags) - 0.0).abs() < epsilon,
        "Gain should default to 0.0 when missing"
    );
}

#[test]
fn fails_on_data_too_short() {
    let short_data: Vec<u8> = vec![0x01, 0x01, 0x31, 0x32, 0x38];
    let result = AutoTags::parse(&short_data);
    assert!(result.is_err(), "Should fail when data is too short");
}

#[test]
fn autotags_fails_on_empty_data() {
    let empty_data: Vec<u8> = vec![];
    let result = AutoTags::parse(&empty_data);
    assert!(result.is_err(), "Should fail on empty data");
}

#[test]
fn parses_positive_auto_gain() {
    // Header + BPM "115.00\0" + Auto gain "2.500\0\0" (padded) + Gain "1.200\0"
    let data: Vec<u8> = vec![
        0x01, 0x01, // header
        0x31, 0x31, 0x35, 0x2e, 0x30, 0x30, 0x00, // "115.00\0"
        0x32, 0x2e, 0x35, 0x30, 0x30, 0x00, 0x00, // "2.500\0\0"
        0x31, 0x2e, 0x32, 0x30, 0x30, 0x00, // "1.200\0"
    ];
    let autotags = AutoTags::parse(&data).expect("Should parse positive auto gain");
    let epsilon = 0.001;
    assert!((number(&autotags.bpm) - 115.0).abs() < epsilon, "BPM should be 115.0");
    assert!((number(&autotags.auto_gain) - 2.5).abs() < epsilon, "Auto gain should be 2.5");
    assert!((gain_or_default(&autotags) - 1.2).abs() < epsilon, "Gain should be 1.2");
}

#[test]
fn autotags_keep_number_characters_only() {
    let data: Vec<u8> = vec![
        0x01, 0x01, // header
        b' ', b'9', b'8', b'.', b'5', b'x', 0x00, // " 98.5x\0"
        b'-', b'1', b'.', 0x00, 0x00, 0x00, 0x00, // "-1.\0\0\0\0"
    ];
    let autotags = AutoTags::parse(&data).expect("Should parse");
    assert_eq!(autotags.bpm, "98.5");
    assert_eq!(autotags.auto_gain, "-1");
    assert_eq!(autotags.gain, None);
}

#[test]
fn data_too_short_returns_error() {
    let short_data: Vec<u8> = vec![0x01, 0x00, 0x00, 0x00, 0x00];
    assert!(BeatGrid::parse(&short_data).is_err());
}

#[test]
fn empty_data_returns_error() {
    let empty_data: Vec<u8> = vec![];
    assert!(BeatGrid::parse(&empty_data).is_err());
}

#[test]
fn zero_markers_returns_empty_beatgrid() {
    // Header (2 bytes) + num_markers = 0 (4 bytes)
    let data: Vec<u8> = vec![0x01, 0x00, 0x00, 0x00, 0x00, 0x00];
    let beatgrid = BeatGrid::parse(&data).expect("should parse zero-marker beatgrid");
    assert_eq!(beatgrid.num_markers, 0);
    assert!(beatgrid.markers.is_empty());
}

#[test]
fn single_terminal_marker() {
    let position: f32 = 0.0;
    let bpm: f32 = 128.0;
    let position_bytes = position.to_be_bytes();
    let bpm_bytes = bpm.to_be_bytes();

    let mut data: Vec<u8> = vec![
        0x01, 0x00, // header
        0x00, 0x00, 0x00, 0x01, // num_markers = 1
    ];
    data.extend_from_slice(&position_bytes);
    data.extend_from_slice(&bpm_bytes);
    data.push(0x00); // footer byte

    let beatgrid = BeatGrid::parse(&data).expect("should parse single terminal marker");
    assert_eq!(beatgrid.num_markers, 1);
    assert_eq!(beatgrid.markers.len(), 1);

    match &beatgrid.markers[0] {
        BeatGridMarker::Terminal { position_bits, bpm_bits } => {
            let parsed_position = f32::from_bits(*position_bits);
            let parsed_bpm = f32::from_bits(*bpm_bits);
            assert!(
                (parsed_position - position).abs() < f32::EPSILON,
                "expected position {position}, got {parsed_position}"
            );
            assert!((parsed_bpm - bpm).abs() < f32::EPSILON, "expected bpm {bpm}, got {parsed_bpm}");
        }
        BeatGridMarker::NonTerminal { .. } => {
            panic!("expected terminal marker, got non-terminal");
        }
    }
}

#[test]
fn two_markers_non_terminal_then_terminal() {
    let first_position: f32 = 0.5;
    let beats_till_next: u32 = 4;
    let second_position: f32 = 10.0;
    let terminal_bpm: f32 = 120.0;

    let mut data: Vec<u8> = vec![
        0x01, 0x00, // header
        0x00, 0x00, 0x00, 0x02, // num_markers = 2
    ];
    data.extend_from_slice(&first_position.to_be_bytes());
    data.extend_from_slice(&beats_till_next.to_be_bytes());
    data.extend_from_slice(&second_position.to_be_bytes());
    data.extend_from_slice(&terminal_bpm.to_be_bytes());
    data.push(0x00); // footer byte

    let beatgrid = BeatGrid::parse(&data).expect("should parse two markers");
    assert_eq!(beatgrid.num_markers, 2);
    assert_eq!(beatgrid.markers.len(), 2);

    match &beatgrid.markers[0] {
        BeatGridMarker::NonTerminal { position_bits, beats_till_next: parsed_beats } => {
            let position = f32::from_bits(*position_bits);
            assert!(
                (position - first_position).abs() < f32::EPSILON,
                "expected position {first_position}, got {position}"
            );
            assert_eq!(*parsed_beats, beats_till_next);
        }
        BeatGridMarker::Terminal { .. } => {
            panic!("expected non-terminal marker for first entry");
        }
    }

    match &beatgrid.markers[1] {
        BeatGridMarker::Terminal { position_bits, bpm_bits } => {
            let position = f32::from_bits(*position_bits);
            let bpm = f32::from_bits(*bpm_bits);
            assert!(
                (position - second_position).abs() < f32::EPSILON,
                "expected position {second_position}, got {position}"
            );
            assert!((bpm - terminal_bpm).abs() < f32::EPSILON, "expected bpm {terminal_bpm}, got {bpm}");
        }
        BeatGridMarker::NonTerminal { .. } => {
            panic!("expected terminal marker for last entry");
        }
    }
}

#[test]
fn marker_data_truncated_returns_error() {
    // Header says 1 marker but data is too short to contain it
    let data: Vec<u8> = vec![
        0x01, 0x00, // header
        0x00, 0x00, 0x00, 0x01, // num_markers = 1
        0x00, 0x00, // only 2 bytes of marker data (need 8 + footer)
    ];
    assert!(BeatGrid::parse(&data).is_err());
}
