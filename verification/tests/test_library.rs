//! Tests of tag repair, tag data, tracks, diffs and the renamer's decisions.
use track_rename::formatting::format_tags_for_artist_and_title;
use track_rename::output::{color_diff, Style};
use track_rename::renamer::{
    contains_subpath, genre_mapping_warning, is_confirmation, is_excluded, rename_decision,
    tags_to_write, temp_rename_path, unchanged_since_last_run, GenreMappingWarning,
    RenameDecision,
};
use track_rename::file_format::FileFormat;
use track_rename::serato::autotags::AutoTags;
use track_rename::serato::beatgrid::{BeatGrid, BeatGridMarker};
use track_rename::serato::markers::{Color, Markers};
use track_rename::tags::{
    decode_synchsafe, find_id3_header_offset, fix_malformed_frames, fix_summary_text, FileTags,
    FrameFixError, TrackTags,
};
use track_rename::config::Config;
use track_rename::renamer::{formatted_path, track_step, SkipReason, TrackAction, TrackEvent};
use track_rename::statistics::Statistics;
use track_rename::track::{Track, TrackMetadata};
use track_rename::utils::normalize_str;

/// An ID3v2.3 tag with a `PRIV` frame whose content has no null byte, then a `TIT2` frame.
fn tag_with_unterminated_priv() -> Vec<u8> {
    let mut frames = Vec::new();
    frames.extend_from_slice(b"PRIV");
    frames.extend_from_slice(&4u32.to_be_bytes());
    frames.extend_from_slice(&[0, 0]);
    frames.extend_from_slice(b"abcd");
    frames.extend_from_slice(b"TIT2");
    frames.extend_from_slice(&3u32.to_be_bytes());
    frames.extend_from_slice(&[0, 0]);
    frames.extend_from_slice(&[0, b'h', b'i']);
    frames.extend_from_slice(&[0; 6]);
    let size = frames.len() as u32;
    let mut data = b"ID3".to_vec();
    data.extend_from_slice(&[3, 0, 0]);
    data.extend_from_slice(&[(size >> 21) as u8 & 0x7f, (size >> 14) as u8 & 0x7f, (size >> 7) as u8 & 0x7f, size as u8 & 0x7f]);
    data.extend_from_slice(&frames);
    data.extend_from_slice(b"audio");
    data
}

#[test]
fn repairs_unterminated_frame_once() {
    let mut data = tag_with_unterminated_priv();
    let original = data.clone();
    let fixed = fix_malformed_frames(&mut data).expect("the PRIV frame needs repair");
    assert_eq!(fixed, vec![("PRIV".to_string(), 1)]);
    assert_eq!(data.len(), original.len());
    // Only the first content byte of the PRIV frame changed.
    let content_start = 10 + 10;
    for (i, (a, b)) in data.iter().zip(original.iter()).enumerate() {
        if i == content_start {
            assert_eq!(*a, 0);
        } else {
            assert_eq!(a, b);
        }
    }
    // Repairing again finds nothing.
    assert_eq!(fix_malformed_frames(&mut data), Err(FrameFixError::NothingToFix));
    assert_eq!(fix_summary_text(&fixed), "1 PRIV frame");
    assert_eq!(
        fix_summary_text(&vec![("PRIV".to_string(), 2), ("UFID".to_string(), 1)]),
        "2 PRIV frames, 1 UFID frame"
    );
}

#[test]
fn refuses_data_without_a_tag() {
    let mut short = vec![0u8; 4];
    assert_eq!(fix_malformed_frames(&mut short), Err(FrameFixError::TooSmall));
    let mut plain = b"not an id3 file at all".to_vec();
    assert_eq!(fix_malformed_frames(&mut plain), Err(FrameFixError::NoHeader));
}

#[test]
fn finds_id3_header_in_containers() {
    let tag = tag_with_unterminated_priv();
    assert_eq!(find_id3_header_offset(&tag), Some(0));
    // An AIFF file: FORM header, a COMM chunk of odd length (padded), then the ID3 chunk.
    let mut aiff = b"FORM".to_vec();
    aiff.extend_from_slice(&0u32.to_be_bytes());
    aiff.extend_from_slice(b"AIFF");
    aiff.extend_from_slice(b"COMM");
    aiff.extend_from_slice(&3u32.to_be_bytes());
    aiff.extend_from_slice(&[1, 2, 3, 0]);
    aiff.extend_from_slice(b"ID3 ");
    aiff.extend_from_slice(&(tag.len() as u32).to_be_bytes());
    aiff.extend_from_slice(&tag);
    assert_eq!(find_id3_header_offset(&aiff), Some(12 + 8 + 4 + 8));
    assert_eq!(decode_synchsafe(&[0, 0, 1, 0x7f]), 255);
}

#[test]
fn parses_tag_data_and_fills_missing_fields_from_name() {
    let track = Track::new("/music/House/Artist - Song (Remix).mp3").unwrap();
    let tags = FileTags { artist: None, title: Some("Song (Remix)".to_string()), album: None, genre: None };
    let parsed = TrackTags::parse_tag_data(&track, &tags);
    assert_eq!(parsed.current_name, " - Song (Remix)");
    assert_eq!(parsed.current_artist, "Artist");
    assert_eq!(parsed.current_title, "Song (Remix)");
    assert_eq!(parsed.current_album, "");
    assert!(parsed.changed());
    let mut same = TrackTags::new("a - b".into(), "a".into(), "b".into(), "c".into(), "d".into());
    same.formatted_name = "a - b".into();
    same.formatted_artist = "a".into();
    same.formatted_title = "b".into();
    same.formatted_album = "c".into();
    same.formatted_genre = "d".into();
    assert!(!same.changed());
}

#[test]
fn formats_track_tags() {
    let mut track = Track::new("/music/DJCity Pool/file.mp3").unwrap();
    let tags = FileTags {
        artist: Some("artist ft. Someone".to_string()),
        title: Some("Song  - Club Edit".to_string()),
        album: Some("".to_string()),
        genre: Some("rnb".to_string()),
    };
    track.format_tags(&tags);
    assert_eq!(track.tags.formatted_artist, "artist feat. Someone");
    assert_eq!(track.tags.formatted_title, "Song (Club Edit)");
    assert_eq!(track.tags.formatted_name, "artist feat. Someone - Song (Club Edit)");
    assert_eq!(track.tags.formatted_album, "DJCity.com");
    assert_eq!(track.tags.formatted_genre, "R&B");
    assert!(track.tags.changed());
}

#[test]
fn uses_folder_genre_when_missing() {
    let mut track = Track::new("/Users/me/Dropbox/DJ MUSIC/DISCO 1/a - b.mp3").unwrap();
    let tags = FileTags { artist: Some("a".into()), title: Some("b".into()), album: None, genre: None };
    track.format_tags(&tags);
    assert_eq!(track.tags.formatted_genre, "Disco");
}

#[test]
fn new_rules_handle_various_artists_and_case() {
    let (artist, title) = format_tags_for_artist_and_title("Various Artists", "Someone - Song");
    assert_eq!(artist, "Someone");
    assert_eq!(title, "Song");
    let (artist, title) = format_tags_for_artist_and_title("THE LOUD BAND", "A VERY LOUD SONG TITLE");
    assert_eq!(artist, "The Loud Band");
    assert_eq!(title, "A Very Loud Song Title");
    let (_, title) = format_tags_for_artist_and_title("Artist", "a.b.c");
    assert_eq!(title, "A.B.C");
    let (artist, _) = format_tags_for_artist_and_title("A / B", "Title.mp3");
    assert_eq!(artist, "A, B");
}

#[test]
fn normalizes_to_composed_form() {
    assert_eq!(normalize_str("a\u{30a}"), "\u{e5}");
    assert_eq!(normalize_str("plain"), "plain");
}

#[test]
fn diffs_mark_changes() {
    let (old, new) = color_diff("abc", "abd", false);
    let old_text: String = old.iter().map(|p| p.0.as_str()).collect();
    let new_text: String = new.iter().map(|p| p.0.as_str()).collect();
    assert_eq!(old_text, "abc");
    assert_eq!(new_text, "abd");
    assert!(old.iter().any(|p| p.1 == Style::Red && p.0 == "c"));
    assert!(new.iter().any(|p| p.1 == Style::Green && p.0 == "d"));
    let (old, new) = color_diff("a b", "a  b", false);
    assert!(new.iter().any(|p| p.1 == Style::OnGreen));
    assert!(old.iter().all(|p| p.1 == Style::Plain));
}

#[test]
fn stacked_diff_aligns_first_common_part() {
    let (old, new) = color_diff("Constantine - Song", "Darude - Song", true);
    let old_text: String = old.iter().map(|p| p.0.as_str()).collect();
    let new_text: String = new.iter().map(|p| p.0.as_str()).collect();
    assert_eq!(old_text.find(" - Song"), new_text.find(" - Song"));
    assert_eq!(old_text.trim_start_matches(' '), "Constantine - Song");
    assert_eq!(new_text.trim_start_matches(' '), "Darude - Song");
    assert!(!old_text.starts_with(' ') || !new_text.starts_with(' '));
}

#[test]
fn decides_renames() {
    assert_eq!(rename_decision("a.mp3", "a.mp3", false, false, false), RenameDecision::Keep);
    assert_eq!(rename_decision("b.mp3", "a.mp3", false, false, false), RenameDecision::Rename { via_temp: false });
    assert_eq!(rename_decision("A.mp3", "a.mp3", true, false, false), RenameDecision::Rename { via_temp: true });
    assert_eq!(rename_decision("Ä.mp3", "ä.mp3", true, false, false), RenameDecision::Rename { via_temp: true });
    assert_eq!(rename_decision("b.mp3", "a.mp3", false, false, true), RenameDecision::Skip);
    assert_eq!(rename_decision("b.mp3", "a.mp3", false, true, true), RenameDecision::Rename { via_temp: false });
    assert_eq!(rename_decision("b.mp3", "a.mp3", true, true, false), RenameDecision::Duplicate);
    assert_eq!(temp_rename_path("dir/Song.mp3", FileFormat::Mp3), "dir/Song.mp3.tmp");
    assert_eq!(temp_rename_path("dir/Song", FileFormat::Aif), "dir/Song.aif.tmp");
    assert!(tags_to_write(true, false, false));
    assert!(tags_to_write(false, true, false));
    assert!(!tags_to_write(true, true, true));
    assert!(!tags_to_write(false, false, false));
}

#[test]
fn checks_exclusions_and_subpaths() {
    let track = Track::new("/music/x/Artist - Song.mp3").unwrap();
    assert!(is_excluded(&track, &vec!["Artist - Song".to_string()]));
    assert!(is_excluded(&track, &vec!["other".to_string(), "Artist - Song.mp3".to_string()]));
    assert!(!is_excluded(&track, &vec!["Artist - Song.aif".to_string()]));
    assert!(contains_subpath("/Users/me/Dropbox/DJ MUSIC/DISCO", "Dropbox/DJ MUSIC"));
    assert!(!contains_subpath("/Users/me/Music/DISCO", "Dropbox/DJ MUSIC"));
    // The whole subpath has to fit inside the path.
    assert!(!contains_subpath("/Users/me/Dropbox", "Dropbox/DJ MUSIC"));
    assert!(!contains_subpath("/a", "/a/b/c"));
    assert!(contains_subpath("/a/b/c/d", "b/c"));
    assert!(contains_subpath("/a/b/c/d", "c/d"));
    assert!(!contains_subpath("/a/b/c/d", "x/y"));
    assert!(!contains_subpath("/a/b/c/d", "b/c/x"));
    assert!(!contains_subpath("/a/b/c/d", "c/d/e"));
    assert!(!contains_subpath("/a/b/c/d", "/a/b/c/d/e"));
    // `.` components are left out, as `Path::components` does.
    assert!(contains_subpath("/a/./b/c", "b/c"));
    assert!(contains_subpath("/a/b/c", "./b/c") == false);
    assert!(contains_subpath("./x/y", "./x"));
    assert_eq!(genre_mapping_warning("/Users/me/Dropbox/DJ MUSIC/NEW", "NEW"), Some(GenreMappingWarning::Missing));
    assert_eq!(genre_mapping_warning("/Users/me/Dropbox/DJ MUSIC/DISCO", "DISCO"), None);
    assert_eq!(genre_mapping_warning("/Users/me/Music/NEW", "NEW"), None);
}

#[test]
fn parses_markers_payload() {
    let mut data = vec![0x01, 0x01];
    data.extend_from_slice(b"AQFCUE1MT0NLAAAAAAEBQ09MT1IAAAAABAD/mQA");
    data.push(0);
    let markers = Markers::parse(&data).expect("valid markers data");
    assert_eq!(markers.len(), 2);
    assert_eq!(markers[0].to_string(), "BPM Lock: true");
    match &markers[1] {
        Markers::Color(c) => assert_eq!(*c, Color::new([0xff, 0x99, 0x00])),
        other => panic!("expected a colour, got {other:?}"),
    }
}

#[test]
fn parses_autotags_number_texts() {
    let mut data = vec![0x01, 0x01];
    data.extend_from_slice(b"120.00\0");
    data.extend_from_slice(b"-3.257\0");
    data.extend_from_slice(b"0.000\0");
    let tags = AutoTags::parse(&data).expect("valid autotags");
    assert_eq!(tags.bpm, "120.00");
    assert_eq!(tags.auto_gain, "-3.257");
    assert!(AutoTags::parse(&[1, 1, b'1']).is_err());
}

#[test]
fn parses_beatgrid_markers() {
    let mut data = vec![0x01, 0x00];
    data.extend_from_slice(&1u32.to_be_bytes());
    data.extend_from_slice(&1.5f32.to_be_bytes());
    data.extend_from_slice(&120.0f32.to_be_bytes());
    data.push(0);
    let grid = BeatGrid::parse(&data).expect("valid beatgrid");
    assert_eq!(grid.num_markers, 1);
    assert_eq!(grid.markers.len(), 1);
    match grid.markers[0] {
        BeatGridMarker::Terminal { position_bits, bpm_bits } => {
            assert_eq!(f32::from_bits(position_bits), 1.5);
            assert_eq!(f32::from_bits(bpm_bits), 120.0);
        }
        _ => panic!("expected a terminal marker"),
    }
}

#[test]
fn confirmation_is_anything_but_no() {
    assert!(is_confirmation("y\n"));
    assert!(is_confirmation(""));
    assert!(is_confirmation("no"));
    assert!(!is_confirmation("n\n"));
    assert!(!is_confirmation("  N "));
}

#[test]
fn skips_tracks_unchanged_since_last_run() {
    let current = TrackMetadata { modified: 100, version: "1.2.0".to_string() };
    assert!(unchanged_since_last_run(&Some(current.clone()), &current));
    assert!(!unchanged_since_last_run(&None, &current));
    let older = TrackMetadata { modified: 99, version: "1.2.0".to_string() };
    assert!(!unchanged_since_last_run(&Some(older), &current));
    let other_version = TrackMetadata { modified: 100, version: "1.1.0".to_string() };
    assert!(!unchanged_since_last_run(&Some(other_version), &current));
}

#[test]
fn converted_track_keeps_name_and_number() {
    let mut track = Track::new("/music/House/Artist - Song.mp3").unwrap();
    track.number = 7;
    track.printed = true;
    track.tags.formatted_artist = "Artist".to_string();
    let path = track_rename::renamer::aif_conversion_path(&track);
    assert_eq!(path, "/music/House/Artist - Song.aif");
    let metadata = TrackMetadata { modified: 5, version: "1.0.0".to_string() };
    let converted = track.converted_to_aif(path.clone(), metadata.clone());
    assert_eq!(converted.name, "Artist - Song");
    assert_eq!(converted.extension, "aif");
    assert_eq!(converted.format, FileFormat::Aif);
    assert_eq!(converted.path, path);
    assert_eq!(converted.metadata, metadata);
    assert_eq!(converted.number, 7);
    assert!(converted.printed);
    assert_eq!(converted.tags.formatted_artist, "");
    assert_eq!(track_rename::renamer::path_with_extension("a/b.c.mp3", "aif"), "a/b.c.aif");
    assert_eq!(track_rename::renamer::path_with_extension("a/.hidden", "aif"), "a/.hidden.aif");
    assert_eq!(track_rename::renamer::path_with_extension("a/noext/", "x"), "a/noext.x");
}

#[test]
fn missing_tags_come_from_the_file_name() {
    let track = Track::new("/music/House/Some Artist - A Song (Extended Mix).mp3").unwrap();
    let tags = FileTags { artist: None, title: None, album: None, genre: None };
    let parsed = TrackTags::parse_tag_data(&track, &tags);
    assert_eq!(parsed.current_name, " - ");
    assert_eq!(parsed.current_artist, "Some Artist");
    assert_eq!(parsed.current_title, "A Song (Extended Mix)");
    // A name starting with "Various Artists - " is read without that prefix.
    let track = Track::new("/music/Various Artists - Someone - Song.mp3").unwrap();
    let parsed = TrackTags::parse_tag_data(&track, &tags);
    assert_eq!(parsed.current_artist, "Someone");
    assert_eq!(parsed.current_title, "Song");
}

fn tags_needing_change() -> FileTags {
    FileTags {
        artist: Some("artist ft. Someone".to_string()),
        title: Some("Song  - Club Edit".to_string()),
        album: None,
        genre: None,
    }
}

#[test]
fn excluded_tracks_are_skipped_whatever_happens() {
    let mut config = Config::new_for_tests();
    config.excluded_tracks = vec!["Artist - Song".to_string()];
    let mut track = Track::new("/music/x/Artist - Song.mp3").unwrap();
    let stats = Statistics::default();
    let (s, a) = track_step(&config, &stats, &mut track, TrackEvent::Started { exists: true, stored: None });
    assert_eq!(a, TrackAction::Skip(SkipReason::Excluded));
    assert!(s.no_changes());
    let (s, a) = track_step(&config, &stats, &mut track, TrackEvent::TagsRead { tags: Some(tags_needing_change()) });
    assert_eq!(a, TrackAction::Skip(SkipReason::Excluded));
    assert_eq!(s.tags, 0);
    assert_eq!(track.tags.formatted_artist, "");
}

#[test]
fn print_only_changes_nothing() {
    let mut config = Config::new_for_tests();
    config.print_only = true;
    config.convert_failed = true;
    let mut track = Track::new("/music/x/file.mp3").unwrap();
    let stats = Statistics::default();
    let (stats, a) = track_step(&config, &stats, &mut track, TrackEvent::Started { exists: true, stored: None });
    assert_eq!(a, TrackAction::ReadTags);
    // A file whose tags cannot be read is not converted in print-only mode.
    let mut other = track.clone();
    let (s, a) = track_step(&config, &stats, &mut other, TrackEvent::TagsRead { tags: None });
    assert_eq!(a, TrackAction::Fail);
    assert_eq!(s.failed, 1);
    let (stats, a) = track_step(&config, &stats, &mut track, TrackEvent::TagsRead { tags: Some(tags_needing_change()) });
    assert_eq!(a, TrackAction::CheckRenameTarget);
    assert_eq!(stats.tags, 1);
    assert_eq!(track.tags.formatted_artist, "artist feat. Someone");
    let (stats, a) = track_step(
        &config,
        &stats,
        &mut track,
        TrackEvent::RenameTargetChecked {
            formatted_relative: "x/artist feat. Someone - Song (Club Edit).mp3".to_string(),
            original_relative: "x/file.mp3".to_string(),
            formatted_is_file: false,
        },
    );
    assert_eq!(a, TrackAction::ShowRename);
    assert_eq!(stats.to_rename, 1);
    assert_eq!(stats.renamed, 0);
    let (_, a) = track_step(&config, &stats, &mut track, TrackEvent::RenameAnswered { yes: true, via_temp: false });
    assert_eq!(a, TrackAction::Finish);
}

#[test]
fn forced_run_writes_and_renames() {
    let config = Config::new_for_tests();
    let mut track = Track::new("/music/x/file.mp3").unwrap();
    let stats = Statistics::default();
    // Unchanged since the last run.
    track.metadata = TrackMetadata { modified: 3, version: "1.0.0".to_string() };
    let stored = Some(track.metadata.clone());
    let (_, a) = track_step(&config, &stats, &mut track, TrackEvent::Started { exists: true, stored });
    assert_eq!(a, TrackAction::Skip(SkipReason::Unchanged));
    let (_, a) = track_step(&config, &stats, &mut track, TrackEvent::Started { exists: false, stored: None });
    assert_eq!(a, TrackAction::Skip(SkipReason::Missing));
    let (stats, a) = track_step(&config, &stats, &mut track, TrackEvent::TagsRead { tags: Some(tags_needing_change()) });
    assert_eq!(a, TrackAction::WriteTags);
    let (stats, a) = track_step(&config, &stats, &mut track, TrackEvent::TagsWritten { ok: true });
    assert_eq!(a, TrackAction::CheckRenameTarget);
    assert!(track.tags_updated);
    assert_eq!(stats.tags_fixed, 1);
    let new_path = formatted_path(&track);
    assert_eq!(new_path, "/music/x/artist feat. Someone - Song (Club Edit).mp3");
    let old_path = track.path.clone();
    let (stats, a) = track_step(
        &config,
        &stats,
        &mut track,
        TrackEvent::RenameTargetChecked {
            formatted_relative: new_path.clone(),
            original_relative: old_path,
            formatted_is_file: false,
        },
    );
    assert_eq!(a, TrackAction::Rename { via_temp: false });
    let metadata = TrackMetadata { modified: 9, version: "1.0.0".to_string() };
    let (stats, a) = track_step(&config, &stats, &mut track, TrackEvent::Renamed { metadata: Some(metadata) });
    assert_eq!(a, TrackAction::Finish);
    assert_eq!(stats.renamed, 1);
    assert_eq!(track.path, new_path);
    assert_eq!(track.name, "artist feat. Someone - Song (Club Edit)");
    assert_eq!(track.metadata.modified, 9);
}
