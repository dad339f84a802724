//! Tests of the `Serato Markers2` entries.
use track_rename::serato::markers::{read_bytes, BpmLock, Color, Cue, Loop, Markers};

/// A loop entry with the given lock state.
fn build_loop_data(locked: bool) -> Vec<u8> {
    vec![
        0x00, // padding
        0x00, // index = 0
        0x00, 0x00, 0x01, 0xF4, // start_position = 500 ms
        0x00, 0x00, 0x07, 0xD0, // end_position = 2000 ms
        0xFF, 0xFF, 0xFF, 0xFF, // padding
        0x00, 0x27, 0xAA, 0xE1, // ARGB color
        0x00, // padding
        u8::from(locked),
        0x00, // null-terminated empty name
    ]
}

#[test]
fn creates_color_from_rgb_array() {
    let color = Color::new([255, 128, 0]);
    assert_eq!(color.r, 255);
    assert_eq!(color.g, 128);
    assert_eq!(color.b, 0);
}

#[test]
fn creates_color_from_all_zeros() {
    let color = Color::new([0, 0, 0]);
    assert_eq!(color.r, 0);
    assert_eq!(color.g, 0);
    assert_eq!(color.b, 0);
}

#[test]
fn creates_color_from_all_max() {
    let color = Color::new([255, 255, 255]);
    assert_eq!(color.r, 255);
    assert_eq!(color.g, 255);
    assert_eq!(color.b, 255);
}

#[test]
fn creates_color_ignoring_alpha_channel() {
    let color = Color::new_argb([0, 255, 128, 0]);
    assert_eq!(color.r, 255);
    assert_eq!(color.g, 128);
    assert_eq!(color.b, 0);
}

#[test]
fn ignores_nonzero_alpha() {
    let color = Color::new_argb([200, 10, 20, 30]);
    assert_eq!(color.r, 10);
    assert_eq!(color.g, 20);
    assert_eq!(color.b, 30);
}

#[test]
fn creates_color_with_max_alpha() {
    let color = Color::new_argb([255, 100, 150, 200]);
    assert_eq!(color.r, 100);
    assert_eq!(color.g, 150);
    assert_eq!(color.b, 200);
}

#[test]
fn displays_rgb_values() {
    let color = Color::new([255, 128, 0]);
    let display_output = color.to_string();
    assert!(
        display_output.contains("[255,128,0]"),
        "Expected display to contain '[255,128,0]', got: {display_output}"
    );
}

#[test]
fn displays_color_prefix() {
    let color = Color::new([0, 0, 0]);
    let display_output = color.to_string();
    assert!(
        display_output.contains("Color:"),
        "Expected display to contain 'Color:', got: {display_output}"
    );
}

#[test]
fn displays_all_zeros() {
    let color = Color::new([0, 0, 0]);
    let display_output = color.to_string();
    assert!(
        display_output.contains("[0,0,0]"),
        "Expected display to contain '[0,0,0]', got: {display_output}"
    );
}

#[test]
fn displays_argb_constructed_color() {
    let color = Color::new_argb([128, 10, 20, 30]);
    let display_output = color.to_string();
    assert!(
        display_output.contains("[10,20,30]"),
        "Expected display to contain '[10,20,30]', got: {display_output}"
    );
}

#[test]
fn loads_color_from_four_bytes() {
    let color = Color::load(&[0x00, 0xFF, 0x80, 0x40]).expect("Should parse color");
    assert_eq!(color.r, 0xFF);
    assert_eq!(color.g, 0x80);
    assert_eq!(color.b, 0x40);
}

#[test]
fn rejects_too_short_data() {
    let result = Color::load(&[0x00, 0xFF, 0x80]);
    assert!(result.is_err());
}

#[test]
fn rejects_too_long_data() {
    let result = Color::load(&[0x00, 0xFF, 0x80, 0x40, 0x00]);
    assert!(result.is_err());
}

#[test]
fn loads_cue_with_name() {
    let mut cue_data: Vec<u8> = vec![
        0x00, // padding
        0x02, // index = 2
        0x00, 0x00, 0x07, 0xD0, // position = 2000 ms
        0x00, // padding
        0x00, 0xFF, 0x00, // RGB color (green)
        0x00, 0x00, // padding
    ];
    // Add name "Drop" + null terminator
    cue_data.extend_from_slice(b"Drop\x00");

    let cue = Cue::load(&cue_data).expect("Should parse cue with named cue point");
    assert_eq!(cue.index, 2);
    assert_eq!(cue.position, 2000);
    assert_eq!(cue.color.r, 0x00);
    assert_eq!(cue.color.g, 0xFF);
    assert_eq!(cue.color.b, 0x00);
    assert_eq!(cue.name, "Drop");
}

#[test]
fn markers_rejects_too_short_data() {
    let short_data: Vec<u8> = vec![0x00, 0x00, 0x00, 0x00];
    let result = Cue::load(&short_data);
    assert!(result.is_err(), "Should reject data shorter than 13 bytes");
}

#[test]
fn loads_loop_with_empty_name() {
    let loop_data: Vec<u8> = vec![
        0x00, // padding
        0x00, // index = 0
        0x00, 0x00, 0x01, 0xF4, // start_position = 500 ms
        0x00, 0x00, 0x07, 0xD0, // end_position = 2000 ms
        0xFF, 0xFF, 0xFF, 0xFF, // padding
        0x00, 0x27, 0xAA, 0xE1, // ARGB color
        0x00, // padding
        0x01, // locked = true
        0x00, // null-terminated empty name
    ];
    let loop_entry = Loop::load(&loop_data).expect("Should parse valid loop data");
    assert_eq!(loop_entry.index, 0);
    assert_eq!(loop_entry.start_position, 500);
    assert_eq!(loop_entry.end_position, 2000);
    assert_eq!(loop_entry.color.r, 0x27);
    assert_eq!(loop_entry.color.g, 0xAA);
    assert_eq!(loop_entry.color.b, 0xE1);
    assert!(loop_entry.locked, "Loop should be locked");
}

#[test]
fn rejects_too_short_loop_data() {
    let short_data: Vec<u8> = vec![0x00; 10];
    let result = Loop::load(&short_data);
    assert!(result.is_err(), "Should reject data shorter than 15 bytes");
}

#[test]
fn displays_cue_marker() {
    let cue_data: Vec<u8> = vec![
        0x00, // padding
        0x00, // index = 0
        0x00, 0x00, 0x03, 0xe8, // position = 1000 ms
        0x00, // padding
        0xCC, 0x00, 0x00, // RGB color
        0x00, 0x00, // padding
        0x00, // null-terminated empty name
    ];
    let cue = Cue::load(&cue_data).expect("Should parse valid cue data");
    let marker = Markers::Cue(cue);
    let display_output = marker.to_string();
    assert!(
        display_output.contains("Cue 1"),
        "Display should contain 'Cue 1', got: {display_output}"
    );
}

#[test]
fn displays_locked_loop() {
    let loop_data = build_loop_data(true);
    let loop_entry = Loop::load(&loop_data).expect("Should parse valid locked loop data");
    let marker = Markers::Loop(loop_entry);
    let display_output = marker.to_string();
    assert!(
        display_output.contains("Loop 1"),
        "Display should contain 'Loop 1', got: {display_output}"
    );
    assert!(
        display_output.contains("locked"),
        "Display should contain 'locked', got: {display_output}"
    );
}

#[test]
fn displays_unlocked_loop() {
    let loop_data = build_loop_data(false);
    let loop_entry = Loop::load(&loop_data).expect("Should parse valid unlocked loop data");
    let marker = Markers::Loop(loop_entry);
    let display_output = marker.to_string();
    assert!(
        display_output.contains("Loop 1"),
        "Display should contain 'Loop 1', got: {display_output}"
    );
    assert!(
        display_output.contains("unlocked"),
        "Display should contain 'unlocked', got: {display_output}"
    );
}

#[test]
fn displays_enabled_bpmlock() {
    let bpmlock = BpmLock { enabled: true };
    let marker = Markers::BpmLock(bpmlock);
    assert_eq!(marker.to_string(), "BPM Lock: true");
}

#[test]
fn displays_disabled_bpmlock() {
    let bpmlock = BpmLock { enabled: false };
    let marker = Markers::BpmLock(bpmlock);
    assert_eq!(marker.to_string(), "BPM Lock: false");
}

#[test]
fn loads_enabled_bpmlock() {
    let result = BpmLock::load(&[1]).expect("Should parse enabled BpmLock");
    assert!(result.enabled);
}

#[test]
fn loads_disabled_bpmlock() {
    let result = BpmLock::load(&[0]).expect("Should parse disabled BpmLock");
    assert!(!result.enabled);
}

#[test]
fn rejects_empty_data() {
    let result = BpmLock::load(&[]);
    assert!(result.is_err());
}

#[test]
fn markers_rejects_too_long_data() {
    let result = BpmLock::load(&[1, 0]);
    assert!(result.is_err());
}

#[test]
fn reads_bytes_until_null() {
    let data = vec![0x48, 0x65, 0x6c, 0x6c, 0x6f, 0x00, 0xFF];
    let result = read_bytes(&data);
    assert_eq!(result, vec![0x48, 0x65, 0x6c, 0x6c, 0x6f]);
}

#[test]
fn reads_all_bytes_without_null() {
    let data = vec![0x48, 0x65, 0x6c, 0x6c, 0x6f];
    let result = read_bytes(&data);
    assert_eq!(result, vec![0x48, 0x65, 0x6c, 0x6c, 0x6f]);
}

#[test]
fn loads_cue_with_empty_name() {
    let cue_data: Vec<u8> = vec![
        0x00, // padding
        0x00, // index = 0
        0x00, 0x00, 0x03, 0xe8, // position = 1000 ms
        0x00, // padding
        0xCC, 0x00, 0x00, // RGB color
        0x00, 0x00, // padding
        0x00, // null-terminated empty name
    ];
    let cue = Cue::load(&cue_data).expect("Should parse valid cue data with empty name");
    assert_eq!(cue.index, 0);
    assert_eq!(cue.position, 1000);
    assert_eq!(cue.color.r, 0xCC);
    assert_eq!(cue.color.g, 0x00);
    assert_eq!(cue.color.b, 0x00);
    assert!(
        !cue.name.is_empty(),
        "Name should not be empty (should be a position timestamp)"
    );
    assert_eq!(cue.name, "00:01.0");
}

#[test]
fn reads_empty_data() {
    let data: Vec<u8> = vec![];
    let result = read_bytes(&data);
    assert!(result.is_empty(), "Should return empty vec for empty data");
}

#[test]
fn displays_cue_line() {
    let mut cue_data: Vec<u8> = vec![0x00, 0x02, 0x00, 0x00, 0x07, 0xD0, 0x00, 0x00, 0xFF, 0x00, 0x00, 0x00];
    cue_data.extend_from_slice(b"Drop\x00");
    let cue = Cue::load(&cue_data).expect("Should parse cue");
    assert_eq!(cue.to_string(), "Cue 3: Drop           2.000s");
}

#[test]
fn displays_loop_line() {
    let loop_entry = Loop::load(&build_loop_data(true)).expect("Should parse loop");
    assert_eq!(loop_entry.to_string(), "Loop 1: 00:00.5 [0.50s - 2.00s] locked");
}
