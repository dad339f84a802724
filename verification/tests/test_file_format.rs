//! Tests of file formats.
use track_rename::file_format::FileFormat;
use track_rename::fileformat;

#[test]
fn file_format_test_from_str_valid_formats() {
    assert_eq!(FileFormat::from_str("mp3").unwrap(), FileFormat::Mp3);
    assert_eq!(FileFormat::from_str("Mp3").unwrap(), FileFormat::Mp3);
    assert_eq!(FileFormat::from_str("MP3").unwrap(), FileFormat::Mp3);
    assert_eq!(FileFormat::from_str("aif").unwrap(), FileFormat::Aif);
    assert_eq!(FileFormat::from_str("aiff").unwrap(), FileFormat::Aif);
    assert_eq!(FileFormat::from_str("Aif").unwrap(), FileFormat::Aif);
    assert_eq!(FileFormat::from_str("Aiff").unwrap(), FileFormat::Aif);
    assert_eq!(FileFormat::from_str("AIF").unwrap(), FileFormat::Aif);
    assert_eq!(FileFormat::from_str("AIFF").unwrap(), FileFormat::Aif);
}

#[test]
fn file_format_test_from_str_invalid_format() {
    assert!(FileFormat::from_str("wav").is_err());
    assert!(FileFormat::from_str("m4a").is_err());
    assert!(FileFormat::from_str("zip").is_err());
}

#[test]
fn file_format_test_display() {
    assert_eq!(FileFormat::Mp3.to_string(), "mp3");
    assert_eq!(FileFormat::Aif.to_string(), "aif");
}

#[test]
fn fileformat_test_from_str_valid_formats() {
    assert_eq!(fileformat::FileFormat::from_str("mp3").unwrap(), fileformat::FileFormat::Mp3);
    assert_eq!(fileformat::FileFormat::from_str("Mp3").unwrap(), fileformat::FileFormat::Mp3);
    assert_eq!(fileformat::FileFormat::from_str("MP3").unwrap(), fileformat::FileFormat::Mp3);
    assert_eq!(fileformat::FileFormat::from_str("aif").unwrap(), fileformat::FileFormat::Aif);
    assert_eq!(fileformat::FileFormat::from_str("aiff").unwrap(), fileformat::FileFormat::Aif);
    assert_eq!(fileformat::FileFormat::from_str("Aif").unwrap(), fileformat::FileFormat::Aif);
    assert_eq!(fileformat::FileFormat::from_str("Aiff").unwrap(), fileformat::FileFormat::Aif);
    assert_eq!(fileformat::FileFormat::from_str("AIF").unwrap(), fileformat::FileFormat::Aif);
    assert_eq!(fileformat::FileFormat::from_str("AIFF").unwrap(), fileformat::FileFormat::Aif);
}

#[test]
fn fileformat_test_from_str_invalid_format() {
    assert!(fileformat::FileFormat::from_str("wav").is_err());
}

#[test]
fn fileformat_test_display() {
    assert_eq!(fileformat::FileFormat::Mp3.to_string(), "mp3");
    assert_eq!(fileformat::FileFormat::Aif.to_string(), "aif");
}
