//! The two fixed MooseFS insertion rules and the patching entry point
//! for the console bundle.

use vstd::prelude::*;

use crate::lines::join_lines;
use crate::lines::join_of;
use crate::lines::lines_of;
use crate::lines::split_lines;
use crate::patcher::patch;
use crate::patcher::patch_lines;
use crate::patcher::rule_models;
use crate::patcher::Pred;
use crate::patcher::PredModel;
use crate::patcher::Rule;
use crate::patcher::RuleModel;

verus! {

/// The MooseFS input-panel definition spliced in before the line that
/// defines the BTRFS input panel.
pub const MOOSEFS_UI_PANEL: &'static str = r#"Ext.define('PVE.storage.MooseFSController', {
    extend: 'Ext.app.ViewController',
    alias: 'controller.pve-storage-moosefs'
});
Ext.define('PVE.storage.MooseFSInputPanel', {
    extend: 'PVE.panel.StorageBase',
	controller: 'pve-storage-moosefs',

    onlineHelp: 'storage_moosefs',

    initComponent: function() {
        let me = this;

        me.column1 = [
            {
				xtype: me.isCreate ? 'textfield' : 'displayfield',
                name: 'path',
                value: '',
                fieldLabel: gettext('Mount Point'),
                allowBlank: false,
            },
            {
                xtype: 'textfield',
                name: 'mfsmaster',
                value: 'mfsmaster',
                fieldLabel: gettext('MooseFS Master'),
                allowBlank: true,
                emptyText: 'mfsmaster',
                submitEmpty: false,
            },
            {
                xtype: 'numberfield',
                name: 'mfsport',
                value: '9421',
                fieldLabel: gettext('Master Port'),
                allowBlank: true,
                emptyText: '9421',
                submitEmpty: false,
                minValue: 1,
                maxValue: 65535,
            },
            {
                xtype: 'pveContentTypeSelector',
                name: 'content',
                value: ['images', 'iso', 'vztmpl', 'backup', 'snippets', 'rootdir'],
                multiSelect: true,
                fieldLabel: gettext('Content'),
                allowBlank: false,
            },
        ];

        me.column2 = [
            {
                xtype: 'proxmoxcheckbox',
                name: 'shared',
                checked: true,
                uncheckedValue: 0,
                fieldLabel: gettext('Shared'),
            },
            {
                xtype: 'proxmoxcheckbox',
                name: 'mfsbdev',
                checked: false,
                uncheckedValue: 0,
                fieldLabel: gettext('Use Block Device'),
            },
        ];

        me.advancedColumn1 = [
            {
                xtype: 'textfield',
                name: 'mfssubfolder',
                fieldLabel: gettext('Subfolder'),
                allowBlank: true,
                submitEmpty: false,
                emptyText: '/',
                autoEl: {
                    tag: 'div',
                    'data-qtip': gettext('The subfolder to mount. Leave empty to mount the root directory.'),
                },
            },
        ];

        me.advancedColumn2 = [
            {
                xtype: 'textfield',
                name: 'mfspassword',
                fieldLabel: gettext('Password'),
                allowBlank: true,
                submitEmpty: false,
                inputType: 'password',
            },
            {
                xtype: 'textfield',
                name: 'mfsnbdlink',
                fieldLabel: gettext('NBD Socket'),
                allowBlank: true,
                submitEmpty: false,
                emptyText: '/dev/mfs/nbdsock',
            },
        ];

        me.callParent();
    },
});"#;

/// The MooseFS storage-type registry entry spliced in before the `cephfs`
/// registry entry.
pub const STORAGE_TYPES_ADDITION: &'static str = r#"            moosefs: {
                name: 'MooseFS',
                ipanel: 'MooseFSInputPanel',
                faIcon: 'building',
                backups: true,
            },"#;

/// The two insertion rules: the registry entry goes immediately before the
/// first-scanned line whose trimmed text starts with `cephfs: {`, and the
/// panel definition, followed by one blank line, immediately before any
/// line that mentions the BTRFS input-panel definition.
pub open spec fn moosefs_rules_model() -> Seq<RuleModel> {
    seq![
        RuleModel {
            pred: PredModel::TrimmedStartsWith("cephfs: {"@),
            payload: lines_of(STORAGE_TYPES_ADDITION@),
        },
        RuleModel {
            pred: PredModel::Contains("Ext.define('PVE.storage.BTRFSInputPanel'"@),
            payload: lines_of(MOOSEFS_UI_PANEL@).push(Seq::<char>::empty()),
        },
    ]
}

/// Builds the two rules exactly as `moosefs_rules_model` describes them.
pub fn moosefs_rules() -> (rs: Vec<Rule>)
    ensures
        rule_models(rs@) == moosefs_rules_model(),
{
    let storage_payload = split_lines(STORAGE_TYPES_ADDITION);
    let mut panel_payload = split_lines(MOOSEFS_UI_PANEL);
    let blank = String::new();
    proof {
        crate::lines::lemma_char_lines_push(panel_payload@, blank);
    }
    panel_payload.push(blank);
    let mut rs: Vec<Rule> = Vec::new();
    rs.push(
        Rule {
            pred: Pred::TrimmedStartsWith(String::from_str("cephfs: {")),
            payload: storage_payload,
        },
    );
    rs.push(
        Rule {
            pred: Pred::Contains(String::from_str("Ext.define('PVE.storage.BTRFSInputPanel'")),
            payload: panel_payload,
        },
    );
    proof {
        assert(rule_models(rs@)[0] == rs@[0]@);
        assert(rule_models(rs@)[1] == rs@[1]@);
        assert(rule_models(rs@) =~= moosefs_rules_model());
    }
    rs
}

/// Splices the MooseFS registry entry and input panel into the given text
/// of the console bundle: the document is split into lines, each rule's
/// payload is inserted immediately before each line its predicate matches,
/// and the lines are joined back with line feeds.
pub fn apply_moosefs_changes(content: &str) -> (r: String)
    ensures
        r@ == join_of(patch_lines(lines_of(content@), moosefs_rules_model())),
{
    let doc = split_lines(content);
    let rules = moosefs_rules();
    let patched = patch(&doc, &rules);
    join_lines(&patched)
}

} // verus!
