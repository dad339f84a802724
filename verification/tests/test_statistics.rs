//! Tests of run statistics.
use track_rename::statistics::Statistics;

#[test]
fn displays_all_labels_when_all_fields_set() {
    let stats = Statistics {
        tags: 5,
        tags_fixed: 3,
        to_rename: 4,
        renamed: 2,
        to_remove: 3,
        removed: 1,
        duplicates: 2,
        overwritten: 1,
        failed: 1,
        converted: 1,
    };
    let output = stats.to_string();
    assert!(output.contains("Updated:"), "expected 'Updated:' in: {output}");
    assert!(output.contains("Fix tags:"), "expected 'Fix tags:' in: {output}");
    assert!(output.contains("Renamed:"), "expected 'Renamed:' in: {output}");
    assert!(output.contains("Converted:"), "expected 'Converted:' in: {output}");
    assert!(output.contains("Deleted:"), "expected 'Deleted:' in: {output}");
    assert!(output.contains("Overwritten:"), "expected 'Overwritten:' in: {output}");
    assert!(output.contains("Duplicate:"), "expected 'Duplicate:' in: {output}");
    assert!(output.contains("Failed:"), "expected 'Failed:' in: {output}");
}

#[test]
fn default_has_no_changes() {
    let stats = Statistics::default();
    assert!(stats.no_changes());
}

#[test]
fn tags_means_changes() {
    let stats = Statistics {
        tags: 1,
        ..Statistics::default()
    };
    assert!(!stats.no_changes());
}

#[test]
fn to_rename_means_changes() {
    let stats = Statistics {
        to_rename: 1,
        ..Statistics::default()
    };
    assert!(!stats.no_changes());
}

#[test]
fn duplicates_means_changes() {
    let stats = Statistics {
        duplicates: 1,
        ..Statistics::default()
    };
    assert!(!stats.no_changes());
}

#[test]
fn failed_means_changes() {
    let stats = Statistics {
        failed: 1,
        ..Statistics::default()
    };
    assert!(!stats.no_changes());
}

#[test]
fn converted_means_changes() {
    let stats = Statistics {
        converted: 1,
        ..Statistics::default()
    };
    assert!(!stats.no_changes());
}

#[test]
fn tags_fixed_alone_is_not_a_change() {
    let stats = Statistics {
        tags_fixed: 1,
        ..Statistics::default()
    };
    assert!(stats.no_changes());
}

#[test]
fn default_displays_all_good() {
    let stats = Statistics::default();
    let output = stats.to_string();
    assert!(output.contains("All Good"), "expected 'All Good' in: {output}");
}

#[test]
fn displays_tags_and_renamed() {
    let stats = Statistics {
        tags: 2,
        tags_fixed: 1,
        to_rename: 3,
        renamed: 2,
        ..Statistics::default()
    };
    let output = stats.to_string();
    assert!(output.contains("Fix tags:"), "expected 'Fix tags:' in: {output}");
    assert!(output.contains("1 / 2"), "expected 'Fix tags: 1 / 2' in: {output}");
    assert!(output.contains("Renamed:"), "expected 'Renamed:' in: {output}");
    assert!(output.contains("2 / 3"), "expected 'Renamed: 2 / 3' in: {output}");
}

#[test]
fn displays_converted() {
    let stats = Statistics {
        converted: 1,
        ..Statistics::default()
    };
    let output = stats.to_string();
    assert!(output.contains("Converted:"), "expected 'Converted:' in: {output}");
}

#[test]
fn displays_failed() {
    let stats = Statistics {
        failed: 1,
        ..Statistics::default()
    };
    let output = stats.to_string();
    assert!(output.contains("Failed:"), "expected 'Failed:' in: {output}");
}

#[test]
fn displays_duplicates() {
    let stats = Statistics {
        duplicates: 1,
        ..Statistics::default()
    };
    let output = stats.to_string();
    assert!(output.contains("Duplicate:"), "expected 'Duplicate:' in: {output}");
}

#[test]
fn to_remove_means_changes() {
    let stats = Statistics {
        to_remove: 1,
        ..Statistics::default()
    };
    assert!(!stats.no_changes());
}

#[test]
fn overwritten_means_changes() {
    let stats = Statistics {
        overwritten: 1,
        ..Statistics::default()
    };
    assert!(!stats.no_changes());
}

#[test]
fn renamed_alone_is_not_a_change() {
    let stats = Statistics {
        renamed: 1,
        ..Statistics::default()
    };
    assert!(
        stats.no_changes(),
        "renamed alone should not count as a change since it is not checked in no_changes"
    );
}

#[test]
fn displays_deleted_when_to_remove_is_set() {
    let stats = Statistics {
        tags: 1,
        to_remove: 3,
        removed: 2,
        ..Statistics::default()
    };
    let output = stats.to_string();
    assert!(output.contains("Deleted:"), "expected 'Deleted:' in: {output}");
    assert!(output.contains("2 / 3"), "expected '2 / 3' in: {output}");
}

#[test]
fn displays_overwritten_when_set() {
    let stats = Statistics {
        tags: 1,
        overwritten: 4,
        ..Statistics::default()
    };
    let output = stats.to_string();
    assert!(output.contains("Overwritten:"), "expected 'Overwritten:' in: {output}");
    assert!(output.contains('4'), "expected overwritten count '4' in: {output}");
}
