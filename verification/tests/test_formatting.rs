//! Tests of the individual formatting rules.
use track_rename::formatter;
use track_rename::formatting;
use track_rename::formatting::{fix_whitespace, format_album, matches_bpm_with_key};

fn check_use_parenthesis_for_mix(use_parenthesis_for_mix: fn(&mut String)) {
    let mut title = "Azn Danza - Myles Club Edit".to_string();
    let correct_title = "Azn Danza (Myles Club Edit)".to_string();
    use_parenthesis_for_mix(&mut title);
    assert_eq!(title, correct_title);

    let mut title = "About Damn Time - Purple Disco Machine (Dirty Intro)".to_string();
    let correct_title = "About Damn Time (Purple Disco Machine) (Dirty Intro)".to_string();
    use_parenthesis_for_mix(&mut title);
    assert_eq!(title, correct_title);
}

fn check_extract_feat_from_parentheses(extract_feat_from_parentheses: fn(&mut String)) {
    let mut artist = "Major Lazer (feat. Laidback Luke & Ms. Dynamite)".to_string();
    let correct_artist = "Major Lazer feat. Laidback Luke & Ms. Dynamite".to_string();
    extract_feat_from_parentheses(&mut artist);
    assert_eq!(artist, correct_artist);
}

fn check_remove_bpm_in_parentheses_from_end(remove_bpm_in_parentheses_from_end: fn(&mut String)) {
    let test_cases = [
        ("Hot (4U)", "Hot (4U)"),
        (
            "Favorite Song (Trayze My Boo Edit) (130 11a)",
            "Favorite Song (Trayze My Boo Edit)",
        ),
        ("Cut (Trayze Acapella Out) (136)", "Cut (Trayze Acapella Out)"),
        (
            "Signed, Sealed, Delivered (Trayze Nola Bounce Flip) (102 4a)",
            "Signed, Sealed, Delivered (Trayze Nola Bounce Flip)",
        ),
        ("Right Now (Facetyme Remix) (132 Ebm)", "Right Now (Facetyme Remix)"),
        (
            "Lift Me Up (Trayze Drop Leaf Edit) (89 11b)",
            "Lift Me Up (Trayze Drop Leaf Edit)",
        ),
        (
            "Lift Me Up (Trayze Drop Leaf Edit) (89 Mix)",
            "Lift Me Up (Trayze Drop Leaf Edit) (89 Mix)",
        ),
    ];

    for (input, expected) in test_cases {
        let mut input_string = input.to_string();
        remove_bpm_in_parentheses_from_end(&mut input_string);
        assert_eq!(input_string, expected);
    }
}

fn check_fix_nested_parentheses(fix_nested_parentheses: fn(&mut String)) {
    let test_cases = vec![
        ("Hello ((World))", "Hello (World)"),
        ("((Hello) World)", "(Hello World)"),
        ("Hello (World)", "Hello (World)"),
        ("(Hello) (World)", "(Hello) (World)"),
    ];

    for (input, expected) in test_cases {
        let mut input_string = input.to_string();
        fix_nested_parentheses(&mut input_string);
        assert_eq!(input_string, expected);
    }
}

fn check_wrap_text_after_parentheses(wrap_text_after_parentheses: fn(&mut String)) {
    let test_cases = vec![
        ("Hello (World) Test", "Hello (World) (Test)"),
        ("Hello (World) Test (Another)", "Hello (World) (Test) (Another)"),
        (
            "Come And Get Your Love (Nick Bike Extended Mix) (Instrumental) 2.2",
            "Come And Get Your Love (Nick Bike Extended Mix) (Instrumental) (2.2)",
        ),
        (
            "Come And Get Your Love (Nick Bike Remix) Extended Mix (Instrumental) 2.2",
            "Come And Get Your Love (Nick Bike Remix) (Extended Mix) (Instrumental) (2.2)",
        ),
        ("(You Make Me Feel) Mighty Real", "(You Make Me Feel) Mighty Real"),
        (
            "(You Make Me Feel) Mighty Real (Clean) 2.2",
            "(You Make Me Feel) Mighty Real (Clean) (2.2)",
        ),
    ];

    for (input, expected) in test_cases {
        let mut input_string = input.to_string();
        wrap_text_after_parentheses(&mut input_string);
        assert_eq!(input_string, expected);
    }
}

#[test]
fn formatting_test_use_parenthesis_for_mix() {
    check_use_parenthesis_for_mix(formatting::use_parenthesis_for_mix);
}

#[test]
fn formatting_test_extract_feat_from_parentheses() {
    check_extract_feat_from_parentheses(formatting::extract_feat_from_parentheses);
}

#[test]
fn formatting_test_remove_bpm_in_parentheses_from_end() {
    check_remove_bpm_in_parentheses_from_end(formatting::remove_bpm_in_parentheses_from_end);
}

#[test]
fn formatting_test_fix_nested_parentheses() {
    check_fix_nested_parentheses(formatting::fix_nested_parentheses);
}

#[test]
fn formatting_test_wrap_text_after_parentheses() {
    check_wrap_text_after_parentheses(formatting::wrap_text_after_parentheses);
}

#[test]
fn valid_bpm_with_key() {
    let valid_cases = [" (50 1A)", "Song (99 12b)", "Something (120 5A)", "Test (100 11a)"];
    for case in valid_cases {
        assert!(matches_bpm_with_key(case), "Should match: {case}");
    }
}

#[test]
fn invalid_bpm_with_key() {
    let invalid_cases = [
        " (1 A)",      // below 50
        " (200 A)",    // above 179
        " (100 5 A)",  // extra number
        " (abc G)",    // not a number
        " (60)",       // missing letters
        " (60  )",     // only number and space
        " (100 ABCD)", // too many letters
        " (100)",      // no key
    ];
    for case in invalid_cases {
        assert!(!matches_bpm_with_key(case), "Should not match: {case}");
    }
}

#[test]
fn fix_whitespace_collapses_and_trims() {
    let mut text = "  Some   Title \t (Remix)  ".to_string();
    fix_whitespace(&mut text);
    assert_eq!(text, "Some Title (Remix)");
}

#[test]
fn format_album_removes_www_prefix() {
    assert_eq!(format_album("  www.Example   Album "), "Example Album");
    assert_eq!(format_album("WWW.site.com"), "site.com");
    assert_eq!(format_album("Album"), "Album");
}

#[test]
fn formatter_test_use_parenthesis_for_mix() {
    check_use_parenthesis_for_mix(formatter::use_parenthesis_for_mix);
}

#[test]
fn formatter_test_extract_feat_from_parentheses() {
    check_extract_feat_from_parentheses(formatter::extract_feat_from_parentheses);
}

#[test]
fn formatter_test_remove_bpm_in_parentheses_from_end() {
    check_remove_bpm_in_parentheses_from_end(formatter::remove_bpm_in_parentheses_from_end);
}

#[test]
fn formatter_test_fix_nested_parentheses() {
    check_fix_nested_parentheses(formatter::fix_nested_parentheses);
}

#[test]
fn formatter_test_wrap_text_after_parentheses() {
    check_wrap_text_after_parentheses(formatter::wrap_text_after_parentheses);
}

#[test]
fn balance_parenthesis_makes_counts_match() {
    let mut text = "If (A (B".to_string();
    track_rename::formatting::balance_parenthesis(&mut text);
    assert_eq!(text, "If (A ) (B)");
    let mut text = "a) (b (c".to_string();
    track_rename::formatting::balance_parenthesis(&mut text);
    assert_eq!(text.matches('(').count(), text.matches(')').count());
    let mut text = "A) B)".to_string();
    track_rename::formatting::balance_parenthesis(&mut text);
    assert_eq!(text.matches('(').count(), text.matches(')').count());
    assert_eq!(text.replace(['(', ')', ' '], ""), "AB");
}
