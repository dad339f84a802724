//! Tests of Serato crate files.
use track_rename::serato::serato_crate::{
    crate_name_from_path, decode_utf16be, parse_column_definition, parse_track_entry, read_tag,
    SeratoCrate,
};

fn encode_utf16be(s: &str) -> Vec<u8> {
    let mut buf = Vec::new();
    for code_unit in s.encode_utf16() {
        buf.extend_from_slice(&code_unit.to_be_bytes());
    }
    buf
}

#[test]
fn test_decode_utf16be_ascii() {
    let encoded = encode_utf16be("hello");
    let decoded = decode_utf16be(&encoded).unwrap();
    assert_eq!(decoded, "hello");
}

#[test]
fn test_decode_utf16be_unicode() {
    let encoded = encode_utf16be("café ☕");
    let decoded = decode_utf16be(&encoded).unwrap();
    assert_eq!(decoded, "café ☕");
}

#[test]
fn test_decode_utf16be_empty() {
    let decoded = decode_utf16be(&[]).unwrap();
    assert_eq!(decoded, "");
}

#[test]
fn test_decode_utf16be_odd_length() {
    let result = decode_utf16be(&[0x00, 0x41, 0x00]);
    assert!(result.is_err());
}

#[test]
fn test_read_tag_not_enough_data() {
    let data = [0x76, 0x72, 0x73]; // only 3 bytes
    let mut offset = 0;
    assert!(read_tag(&data, &mut offset).is_err());
}

#[test]
fn test_read_tag_length_exceeds_data() {
    // Tag claims 100 bytes but only 2 follow.
    let mut data = Vec::new();
    data.extend_from_slice(b"test");
    data.extend_from_slice(&100u32.to_be_bytes());
    data.extend_from_slice(&[0x00, 0x01]);
    let mut offset = 0;
    assert!(read_tag(&data, &mut offset).is_err());
}

#[test]
fn test_crate_name_from_path_simple() {
    assert_eq!(crate_name_from_path("/some/dir/TEST.crate"), "TEST");
}

#[test]
fn test_crate_name_from_path_hierarchy() {
    assert_eq!(crate_name_from_path("/some/dir/X-BATTLE%%ALLSTYLES.crate"), "X-BATTLE > ALLSTYLES");
}

#[test]
fn test_crate_name_from_path_deep_hierarchy() {
    assert_eq!(crate_name_from_path("/dir/A%%B%%C.crate"), "A > B > C");
}

#[test]
fn serato_crate_test_display() {
    let c = SeratoCrate {
        name: "TEST".to_string(),
        version: "1.0/Serato ScratchLive Crate".to_string(),
        columns: vec![],
        tracks: vec!["/a.mp3".to_string(), "/b.mp3".to_string()],
    };
    let display = c.to_string();
    assert!(display.contains("TEST"));
    assert!(display.contains("2 tracks"));
}

#[test]
fn test_display_single_track() {
    let c = SeratoCrate {
        name: "SOLO".to_string(),
        version: String::new(),
        columns: vec![],
        tracks: vec!["/a.mp3".to_string()],
    };
    let display = c.to_string();
    assert!(display.contains("1 track"));
    // Should NOT say "tracks" (plural).
    assert!(!display.contains("tracks"));
}

fn make_tag(name: [u8; 4], value: &[u8]) -> Vec<u8> {
    let mut buf = Vec::new();
    buf.extend_from_slice(&name);
    buf.extend_from_slice(&(value.len() as u32).to_be_bytes());
    buf.extend_from_slice(value);
    buf
}

#[test]
fn test_read_tag() {
    let data = make_tag(*b"vrsn", &[0x00, 0x41, 0x00, 0x42]);
    let mut offset = 0;
    let (tag, value) = read_tag(&data, &mut offset).unwrap();
    assert_eq!(tag, "vrsn");
    assert_eq!(value, &[0x00, 0x41, 0x00, 0x42]);
    assert_eq!(offset, data.len());
}

#[test]
fn test_parse_column_definition() {
    let col_name = encode_utf16be("song");
    let col_width = encode_utf16be("250");
    let mut block = make_tag(*b"tvcn", &col_name);
    block.extend(make_tag(*b"tvcw", &col_width));

    let result = parse_column_definition(&block);
    assert_eq!(result, ("song".to_string(), "250".to_string()));
}

#[test]
fn test_parse_track_entry() {
    let path_str = "Users/esgrove/Music/test.mp3";
    let encoded_path = encode_utf16be(path_str);
    let ptrk_block = make_tag(*b"ptrk", &encoded_path);

    let result = parse_track_entry(&ptrk_block, false).unwrap();
    assert!(result.is_some());
    assert_eq!(result.unwrap(), "Users/esgrove/Music/test.mp3");

    let result = parse_track_entry(&ptrk_block, true).unwrap();
    assert_eq!(result.unwrap(), "/Users/esgrove/Music/test.mp3");
}

#[test]
fn test_parse_minimal_crate_data() {
    let version_str = encode_utf16be("1.0/Serato ScratchLive Crate");
    let mut data = make_tag(*b"vrsn", &version_str);

    let path_str = "Users/esgrove/Music/track.mp3";
    let encoded_path = encode_utf16be(path_str);
    let ptrk = make_tag(*b"ptrk", &encoded_path);
    let otrk = make_tag(*b"otrk", &ptrk);
    data.extend(otrk);

    let mut offset = 0;
    let (tag, value) = read_tag(&data, &mut offset).unwrap();
    assert_eq!(tag, "vrsn");
    let version = decode_utf16be(&value).unwrap();
    assert_eq!(version, "1.0/Serato ScratchLive Crate");

    let (tag, value) = read_tag(&data, &mut offset).unwrap();
    assert_eq!(tag, "otrk");
    let track = parse_track_entry(&value, false).unwrap();
    assert!(track.is_some());

    let parsed = SeratoCrate::from_bytes("TEST".to_string(), &data, false).unwrap();
    assert_eq!(parsed.version, "1.0/Serato ScratchLive Crate");
    assert_eq!(parsed.track_count(), 1);
    assert_eq!(parsed.tracks[0], "Users/esgrove/Music/track.mp3");
}

#[test]
fn test_parse_crate_with_columns() {
    let version_str = encode_utf16be("1.0/Serato ScratchLive Crate");
    let mut data = make_tag(*b"vrsn", &version_str);

    // Add an ovct block.
    let col_name = encode_utf16be("song");
    let col_width = encode_utf16be("250");
    let mut ovct_content = make_tag(*b"tvcn", &col_name);
    ovct_content.extend(make_tag(*b"tvcw", &col_width));
    data.extend(make_tag(*b"ovct", &ovct_content));

    // Add one track.
    let path_str = "Users/test/Music/file.mp3";
    let encoded_path = encode_utf16be(path_str);
    let ptrk = make_tag(*b"ptrk", &encoded_path);
    data.extend(make_tag(*b"otrk", &ptrk));

    // The crate file's name gives the crate's name.
    let name = crate_name_from_path("/tmp/TEST%%SUB.crate");
    let parsed = SeratoCrate::from_bytes(name, &data, false).unwrap();
    assert_eq!(parsed.name, "TEST > SUB");
    assert_eq!(parsed.version, "1.0/Serato ScratchLive Crate");
    assert_eq!(parsed.columns.len(), 1);
    assert_eq!(parsed.columns[0], ("song".to_string(), "250".to_string()));
    assert_eq!(parsed.track_count(), 1);
    assert_eq!(parsed.tracks[0], "Users/test/Music/file.mp3");
    let on_macos = SeratoCrate::from_bytes("x".to_string(), &data, true).unwrap();
    assert_eq!(on_macos.tracks[0], "/Users/test/Music/file.mp3");
}

#[test]
fn decoding_the_encoding_gives_the_text_back() {
    for text in ["", "song", "café ☕", "a😀b", "Ä > Ö"] {
        assert_eq!(decode_utf16be(&encode_utf16be(text)).unwrap(), text);
    }
    assert!(decode_utf16be(&[0x00, 0x41, 0x00]).is_err());
}
