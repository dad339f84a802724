//! Tests of the analysis version and overview entries.
use track_rename::serato::analysis::AnalysisVersion;
use track_rename::serato::overview::{shade_symbol, Overview, Shade};

#[test]
fn parses_valid_two_byte_data() {
    let data = [1u8, 5u8];
    let version = AnalysisVersion::parse(&data).expect("Should parse valid 2-byte data");
    assert_eq!(version.major_version, 1);
    assert_eq!(version.minor_version, 5);
}

#[test]
fn parses_version_two_one() {
    let data = [2u8, 1u8];
    let version = AnalysisVersion::parse(&data).expect("Should parse version 2.1");
    assert_eq!(version.major_version, 2);
    assert_eq!(version.minor_version, 1);
}

#[test]
fn parses_data_longer_than_two_bytes() {
    let data = [3u8, 7u8, 0xFFu8, 0xABu8];
    let version = AnalysisVersion::parse(&data).expect("Should parse when data has extra bytes");
    assert_eq!(version.major_version, 3);
    assert_eq!(version.minor_version, 7);
}

#[test]
fn fails_on_single_byte_data() {
    let data = [1u8];
    let result = AnalysisVersion::parse(&data);
    assert!(result.is_err(), "Should fail when data is only 1 byte");
}

#[test]
fn analysis_fails_on_empty_data() {
    let data: [u8; 0] = [];
    let result = AnalysisVersion::parse(&data);
    assert!(result.is_err(), "Should fail when data is empty");
}

#[test]
fn displays_version_one_five() {
    let data = [1u8, 5u8];
    let version = AnalysisVersion::parse(&data).expect("Should parse valid data");
    assert_eq!(version.to_string(), "Version 1.5");
}

#[test]
fn displays_version_two_one() {
    let data = [2u8, 1u8];
    let version = AnalysisVersion::parse(&data).expect("Should parse valid data");
    assert_eq!(version.to_string(), "Version 2.1");
}

#[test]
fn displays_version_zero_zero() {
    let data = [0u8, 0u8];
    let version = AnalysisVersion::parse(&data).expect("Should parse valid data");
    assert_eq!(version.to_string(), "Version 0.0");
}

#[test]
fn rejects_data_too_short() {
    let empty_data: &[u8] = &[];
    assert!(Overview::parse(empty_data).is_err());

    let single_byte: &[u8] = &[0x01];
    assert!(Overview::parse(single_byte).is_err());
}

#[test]
fn parses_header_only_with_no_blocks() {
    let header_only: &[u8] = &[0x01, 0x05];
    let overview = Overview::parse(header_only).expect("Should parse header-only data");
    assert_eq!(overview.blocks.len(), 0);
}

#[test]
fn parses_single_block() {
    let mut data = vec![0x01, 0x05];
    let block: [u8; 16] = [1, 2, 3, 4, 5, 6, 7, 8, 9, 10, 11, 12, 13, 14, 15, 16];
    data.extend_from_slice(&block);
    let overview = Overview::parse(&data).expect("Should parse single block");
    assert_eq!(overview.blocks.len(), 1);
    assert_eq!(overview.blocks[0], block);
}

#[test]
fn parses_multiple_blocks() {
    let mut data = vec![0x01, 0x05];
    let block_a: [u8; 16] = [10; 16];
    let block_b: [u8; 16] = [20; 16];
    let block_c: [u8; 16] = [30; 16];
    data.extend_from_slice(&block_a);
    data.extend_from_slice(&block_b);
    data.extend_from_slice(&block_c);
    let overview = Overview::parse(&data).expect("Should parse multiple blocks");
    assert_eq!(overview.blocks.len(), 3);
    assert_eq!(overview.blocks[0], block_a);
    assert_eq!(overview.blocks[1], block_b);
    assert_eq!(overview.blocks[2], block_c);
}

#[test]
fn ignores_trailing_bytes_less_than_block_size() {
    let mut data = vec![0x01, 0x05];
    let block: [u8; 16] = [5; 16];
    data.extend_from_slice(&block);
    data.extend_from_slice(&[0xFF; 10]);
    let overview = Overview::parse(&data).expect("Should parse ignoring partial trailing block");
    assert_eq!(overview.blocks.len(), 1);
    assert_eq!(overview.blocks[0], block);
}

#[test]
fn verifies_block_count_for_known_length() {
    let num_blocks = 240;
    let mut data = vec![0x01, 0x05];
    for index in 0..num_blocks {
        let value = (index % 256) as u8;
        let block = [value; 16];
        data.extend_from_slice(&block);
    }
    let overview = Overview::parse(&data).expect("Should parse 240 blocks");
    assert_eq!(overview.blocks.len(), num_blocks);
}

fn build_overview_with_blocks(num_blocks: usize) -> Overview {
    let blocks: Vec<[u8; 16]> = (0..num_blocks)
        .map(|index| {
            let value = ((index * 3) % 256) as u8;
            [value; 16]
        })
        .collect();
    Overview { blocks }
}

fn waveform_text(overview: &Overview, terminal_width: u16) -> String {
    let mut text = String::new();
    for row in overview.waveform(terminal_width) {
        for shade in row {
            text.push(shade_symbol(shade));
        }
        text.push('\n');
    }
    text
}

#[test]
fn display_produces_non_empty_output() {
    let overview = build_overview_with_blocks(240);
    let display_output = waveform_text(&overview, 240);
    assert!(!display_output.is_empty(), "Display output should not be empty");
}

#[test]
fn display_with_few_blocks_produces_output() {
    let overview = build_overview_with_blocks(10);
    let display_output = waveform_text(&overview, 80);
    assert!(
        !display_output.is_empty(),
        "Display output for small overview should not be empty"
    );
}

#[test]
fn display_empty_overview_produces_output() {
    let overview = Overview::default();
    let display_output = waveform_text(&overview, 80);
    assert!(
        !display_output.is_empty(),
        "Display output for empty overview should not be empty"
    );
}

#[test]
fn waveform_fits_terminal_width() {
    let overview = build_overview_with_blocks(240);
    for (width, columns) in [(240, 240), (200, 120), (120, 120), (100, 80)] {
        let rows = overview.waveform(width);
        assert_eq!(rows.len(), 8);
        for row in rows {
            assert_eq!(row.len(), columns);
        }
    }
}

#[test]
fn waveform_shades_relative_to_loudest() {
    // Bands of 80 average to (80 + 80) / 8 = 20; a silent block stays 0.
    let overview = Overview { blocks: vec![[80; 16], [0; 16], [16; 16]] };
    let rows = overview.waveform(240);
    // Levels: 20, 0, 4 against a loudest of 20: 100%, 0%, 20%.
    for row in &rows {
        assert_eq!(row, &vec![Shade::Peak, Shade::Faint, Shade::Low]);
    }
    let silent = Overview { blocks: vec![[0; 16]] };
    assert_eq!(silent.waveform(240)[0], vec![Shade::Peak]);
}
