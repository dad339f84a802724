//! Tests of genre formatting.
use track_rename::genre::{format_genre, genre_for_directory, reorder_house_genres};

#[test]
fn test_rnb() {
    assert_eq!(format_genre(" Rnb   "), "R&B");
    assert_eq!(format_genre("R'n'B"), "R&B");
    assert_eq!(format_genre("R&B"), "R&B");
}

#[test]
fn genre_test_formatting() {
    assert_eq!(format_genre("Hip\\Hop"), "Hip-Hop");
    assert_eq!(format_genre("Hip/Hop"), "Hip-Hop");
    assert_eq!(format_genre("Hip  Hop"), "Hip-Hop");
    assert_eq!(format_genre("Jazz\u{FFFD}Blues"), "Jazz Blues");
    assert_eq!(format_genre("Hi"), "");
}

#[test]
fn test_genre_mappings() {
    assert_eq!(format_genre(" other "), "");
    assert_eq!(format_genre("Other"), "");
    assert_eq!(format_genre("Funk 80's"), "Funk 80s");
    assert_eq!(format_genre("Hip-Hop 80's"), "Hip-Hop 80s");
    assert_eq!(format_genre("Hip-Hop 90's"), "Hip-Hop 90s");
    assert_eq!(format_genre("90's"), "90s");
    assert_eq!(format_genre("70's"), "70s");
}

#[test]
fn test_house_genre_reordering() {
    assert_eq!(format_genre("Deep    House"), "House Deep");
    assert_eq!(format_genre("Progressive House"), "House Progressive");
}

#[test]
fn reorders_only_house_genres() {
    let mut genre = "Tech House".to_string();
    reorder_house_genres(&mut genre);
    assert_eq!(genre, "House Tech");
    let mut genre = "House".to_string();
    reorder_house_genres(&mut genre);
    assert_eq!(genre, "House");
    let mut genre = "Disco, Tech House".to_string();
    reorder_house_genres(&mut genre);
    assert_eq!(genre, "Disco, Tech House");
}

#[test]
fn looks_up_folder_genres() {
    assert_eq!(genre_for_directory("DISCO 1"), Some("Disco".to_string()));
    assert_eq!(genre_for_directory("ROCK"), Some("Rock".to_string()));
    assert_eq!(genre_for_directory("rock"), None);
    assert_eq!(genre_for_directory("Unknown"), None);
}
