//! Tests of tracks: construction from a path, names and ordering.
use std::cmp::Ordering;

use track_rename::file_format::FileFormat;
use track_rename::track::Track;

#[test]
fn test_track_new_valid_path() {
    let path = "/users/test/test_song.mp3";
    let track = Track::new(path).expect("Failed to create track");
    assert_eq!(track.name, "test_song");
    assert_eq!(track.extension, "mp3");
    assert_eq!(track.format, FileFormat::Mp3);
    assert_eq!(track.root, "/users/test");
    assert_eq!(track.filename(), "test_song.mp3");
}

#[test]
fn test_track_with_special_characters() {
    let path = "/Users/esgrove/Räntä & Benjamin Mùll - Sippa På En Tequila (Ö Remix).mp3";
    let track = Track::new(path).expect("Failed to create track");
    assert_eq!(track.name, "Räntä & Benjamin Mùll - Sippa På En Tequila (Ö Remix)");
    assert_eq!(track.extension, "mp3");
    assert_eq!(track.format, FileFormat::Mp3);
    assert_eq!(track.root, "/Users/esgrove");
    assert_eq!(
        track.filename(),
        "Räntä & Benjamin Mùll - Sippa På En Tequila (Ö Remix).mp3"
    );
    assert_eq!(
        track.path.as_str(),
        "/Users/esgrove/Räntä & Benjamin Mùll - Sippa På En Tequila (Ö Remix).mp3"
    );
}

#[test]
fn test_track_equality() {
    let track1 = Track::new("/users/test/Test - song1.mp3").expect("Failed to create track");
    let track2 = Track::new("/users/other/Test - song1.aif").expect("Failed to create track");
    assert_eq!(track1.extension, "mp3");
    assert_eq!(track1.format, FileFormat::Mp3);
    assert_eq!(track2.extension, "aif");
    assert_eq!(track2.format, FileFormat::Aif);
    assert_eq!(track1, track2);
}

#[test]
fn test_full_match() {
    let track =
        Track::new("/users/test/Test - song1.mp3").expect("Failed to create track");
    assert_eq!(track, "Test - song1.mp3".to_string());
}

#[test]
fn test_name_match() {
    let track =
        Track::new("/users/test/Ääkköset - song2.mp3").expect("Failed to create track");
    assert_eq!(track, "Ääkköset - song2".to_string());
    assert_eq!(track, "Ääkköset - song2.mp3".to_string());
}

#[test]
fn test_mismatch() {
    let track =
        Track::new("/users/test/Test - song3.mp3").expect("Failed to create track");
    assert_ne!(track, "Test - song3.wav"); // Different extension
    assert_ne!(track, "Test - song4.mp3"); // Different name
}

#[test]
fn test_extension_ignored() {
    let track = Track::new("/users/test/song5.mp3").expect("Failed to create track");
    assert_eq!(track, "song5".to_string());
    assert_eq!(track, "song5.mp3".to_string());
    assert_ne!(track, "song");
}

#[test]
fn tracks_ordered_by_name() {
    let track_alpha = Track::new("/users/test/Alpha - Song.mp3").expect("Failed to create track Alpha");
    let track_beta = Track::new("/users/test/Beta - Song.mp3").expect("Failed to create track Beta");
    assert_eq!(
        track_alpha.cmp(&track_beta),
        Ordering::Less,
        "Expected Alpha to sort before Beta"
    );
    assert_eq!(
        track_beta.cmp(&track_alpha),
        Ordering::Greater,
        "Expected Beta to sort after Alpha"
    );
    assert_eq!(
        track_alpha.cmp(&track_alpha),
        Ordering::Equal,
        "Expected track to be equal to itself"
    );
}

#[test]
fn partial_ord_consistent_with_ord() {
    let track_alpha = Track::new("/users/test/Alpha - Song.mp3").expect("Failed to create track Alpha");
    let track_beta = Track::new("/users/test/Beta - Song.mp3").expect("Failed to create track Beta");
    assert_eq!(
        track_alpha.partial_cmp(&track_beta),
        Some(Ordering::Less),
        "Expected partial_cmp to return Some(Less) for Alpha vs Beta"
    );
    assert_eq!(
        track_beta.partial_cmp(&track_alpha),
        Some(Ordering::Greater),
        "Expected partial_cmp to return Some(Greater) for Beta vs Alpha"
    );
}

#[test]
fn test_track_new_with_extension() {
    let track = Track::new_with_extension("/users/test/song.AIFF", "AIFF".to_string(), FileFormat::Aif)
        .expect("Failed to create track");
    assert_eq!(track.name, "song");
    assert_eq!(track.extension, "AIFF");
    assert_eq!(track.format, FileFormat::Aif);
    assert_eq!(track.directory, "test");
    assert_eq!(track.path, "/users/test/song.AIFF");
}

#[test]
fn unsupported_extension_is_refused() {
    assert!(Track::new("/users/test/song.wav").is_err());
    assert!(Track::new("/users/test/song").is_err());
    // The root directory has no name.
    assert!(Track::new("/song.mp3").is_err());
}

#[test]
fn formatted_filename_from_formatted_tags() {
    let mut track = Track::new("/users/test/artist - title.mp3").expect("Failed to create track");
    track.tags.formatted_artist = "Art/ist".to_string();
    track.tags.formatted_title = "Ti:tle \"x\"".to_string();
    assert_eq!(track.formatted_filename(), "Art-ist - Ti-tle ''x''");
    assert_eq!(track.formatted_filename_with_extension(), "Art-ist - Ti-tle ''x''.mp3");
    track.tags.formatted_artist = String::new();
    assert_eq!(track.formatted_filename(), "Ti-tle ''x''");
    assert_eq!(track.path_with_new_name("new.mp3"), "/users/test/new.mp3");
}

#[test]
fn unsupported_extension_returns_none() {
    let result = Track::try_from_path("/users/test/document.txt");
    assert!(result.is_none(), "Expected None for unsupported .txt extension");
}

#[test]
fn no_extension_returns_none() {
    let result = Track::try_from_path("/users/test/noextension");
    assert!(result.is_none(), "Expected None for path with no extension");
}

#[test]
fn try_from_path_accepts_supported_formats() {
    let track = Track::try_from_path("/music/House/Artist - Song.AIFF").expect("AIFF is supported");
    assert_eq!(track.format, FileFormat::Aif);
    assert_eq!(track.extension, "AIFF");
    assert_eq!(track.name, "Artist - Song");
    assert_eq!(track.directory, "House");
    assert!(Track::try_from_path("/music/House/Artist - Song. ").is_none());
    assert!(Track::should_convert("/music/a.WAV"));
    assert!(Track::should_convert("/music/a.m4a"));
    assert!(!Track::should_convert("/music/a.mp3"));
    assert!(!Track::should_convert("/music/a.txt"));
}

#[test]
fn current_directory_components_are_left_out() {
    let track = Track::new("/music/House/./Artist - Song.mp3").expect("valid path");
    assert_eq!(track.root, "/music/House");
    assert_eq!(track.directory, "House");
    assert_eq!(track.path, "/music/House/Artist - Song.mp3");
    assert_eq!(Track::get_nfc_filename_from_path("/music/Song.mp3/.").unwrap(), "Song");
    assert!(Track::get_nfc_filename_from_path("/music/.").is_ok());
    assert!(Track::get_nfc_filename_from_path(".").is_err());
}
