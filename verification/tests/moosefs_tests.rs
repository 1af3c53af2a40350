use anchor_patch::moosefs::{
    apply_moosefs_changes, MOOSEFS_UI_PANEL, STORAGE_TYPES_ADDITION,
};

#[test]
fn no_anchors_means_no_change() {
    let content = "Ext.define('PVE.storage.DirInputPanel', {\n    extend: 'PVE.panel.StorageBase',\n});";
    assert_eq!(apply_moosefs_changes(content), content.to_string());
}

#[test]
fn storage_entry_goes_before_cephfs_entry() {
    let content = "    cephfs: {";
    let expected = format!("{}\n    cephfs: {{", STORAGE_TYPES_ADDITION);
    assert_eq!(apply_moosefs_changes(content), expected);
}

#[test]
fn panel_goes_before_btrfs_panel_with_blank_line() {
    let content = "Ext.define('PVE.storage.BTRFSInputPanel', {\n});";
    let expected = format!(
        "{}\n\nExt.define('PVE.storage.BTRFSInputPanel', {{\n}});",
        MOOSEFS_UI_PANEL
    );
    assert_eq!(apply_moosefs_changes(content), expected);
}

#[test]
fn both_insertions_in_one_document() {
    let content = "start\n    cephfs: {\nmiddle\nExt.define('PVE.storage.BTRFSInputPanel', {\nend";
    let expected = format!(
        "start\n{}\n    cephfs: {{\nmiddle\n{}\n\nExt.define('PVE.storage.BTRFSInputPanel', {{\nend",
        STORAGE_TYPES_ADDITION, MOOSEFS_UI_PANEL
    );
    assert_eq!(apply_moosefs_changes(content), expected);
}

#[test]
fn payload_constants_hold_the_expected_anchor_free_text() {
    assert!(STORAGE_TYPES_ADDITION.starts_with("            moosefs: {"));
    assert!(STORAGE_TYPES_ADDITION.contains("ipanel: 'MooseFSInputPanel'"));
    assert!(MOOSEFS_UI_PANEL.starts_with("Ext.define('PVE.storage.MooseFSController', {"));
    assert!(MOOSEFS_UI_PANEL.contains("onlineHelp: 'storage_moosefs'"));
    assert!(!MOOSEFS_UI_PANEL.contains("BTRFSInputPanel"));
    assert!(!STORAGE_TYPES_ADDITION.contains("cephfs"));
}

#[test]
fn trailing_newline_is_not_kept() {
    assert_eq!(apply_moosefs_changes("a\nb\n"), "a\nb".to_string());
}
