//! Tests of artist and title from file names.
use track_rename::utils::get_tags_from_filename;

#[test]
fn test_get_tags_from_filename() {
    let filename = "Artist - Title";
    assert_eq!(
        get_tags_from_filename(filename),
        Some(("Artist".to_string(), "Title".to_string()))
    );
}

#[test]
fn test_get_tags_from_filename_no_delimiter() {
    let filename = "Songtitle (Remix)";
    assert_eq!(
        get_tags_from_filename(filename),
        Some((String::new(), "Songtitle (Remix)".into()))
    );
}

#[test]
fn test_get_tags_from_filename_with_additional_delimiters() {
    let filename = "Various Artists - Dave & Maurissa  - Look At The Stars (Dave’s Starshine Club Mix)";
    assert_eq!(
        get_tags_from_filename(filename),
        Some((
            "Dave & Maurissa".to_string(),
            "Look At The Stars (Dave’s Starshine Club Mix)".to_string()
        ))
    );
}

#[test]
fn test_get_tags_from_filename_empty_filename() {
    let filename = "";
    assert_eq!(get_tags_from_filename(filename), None);
}

#[test]
fn test_get_tags_from_filename_various_artists() {
    let filename = "";
    assert_eq!(get_tags_from_filename(filename), None);
}
