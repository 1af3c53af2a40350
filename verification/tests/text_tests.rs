use anchor_patch::text::{line_contains, line_trimmed_starts_with};

#[test]
fn trimmed_starts_with_leading_spaces() {
    assert!(line_trimmed_starts_with("    cephfs: {", "cephfs: {"));
}

#[test]
fn trimmed_starts_with_tabs_and_tail() {
    assert!(line_trimmed_starts_with("\t cephfs: { // storage", "cephfs: {"));
}

#[test]
fn trimmed_starts_with_rejects_other_line() {
    assert!(!line_trimmed_starts_with("    ceph: {", "cephfs: {"));
}

#[test]
fn trimmed_starts_with_rejects_untrimmed_match_only() {
    assert!(!line_trimmed_starts_with("    cephfs", "cephfs: {"));
}

#[test]
fn trimmed_starts_with_whitespace_only_line() {
    assert!(!line_trimmed_starts_with("   \t ", "cephfs: {"));
    assert!(line_trimmed_starts_with("   \t ", ""));
}

#[test]
fn contains_finds_pattern_in_middle() {
    assert!(line_contains(
        "    Ext.define('PVE.storage.BTRFSInputPanel', {",
        "Ext.define('PVE.storage.BTRFSInputPanel'"
    ));
}

#[test]
fn contains_rejects_absent_pattern() {
    assert!(!line_contains("Ext.define('PVE.storage.CephFSInputPanel', {", "BTRFSInputPanel"));
}

#[test]
fn contains_empty_pattern_always_holds() {
    assert!(line_contains("", ""));
    assert!(line_contains("abc", ""));
}

#[test]
fn contains_pattern_at_ends() {
    assert!(line_contains("abcde", "ab"));
    assert!(line_contains("abcde", "de"));
    assert!(!line_contains("abcde", "ae"));
}
