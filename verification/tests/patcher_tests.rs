use anchor_patch::moosefs::moosefs_rules;
use anchor_patch::patcher::{patch, Pred, Rule};

fn lines(parts: &[&str]) -> Vec<String> {
    parts.iter().map(|s| s.to_string()).collect()
}

#[test]
fn payload_goes_before_anchor_line() {
    let doc = lines(&["a", "cephfs: {", "b"]);
    let rules = vec![Rule {
        pred: Pred::TrimmedStartsWith("cephfs: {".to_string()),
        payload: lines(&["X:{"]),
    }];
    assert_eq!(patch(&doc, &rules), lines(&["a", "X:{", "cephfs: {", "b"]));
}

#[test]
fn no_anchor_leaves_document_unchanged() {
    let doc = lines(&["var a = 1;", "var b = 2;"]);
    assert_eq!(patch(&doc, &moosefs_rules()), doc);
}

#[test]
fn empty_document_stays_empty() {
    let doc: Vec<String> = Vec::new();
    let rules = vec![Rule {
        pred: Pred::Contains("anything".to_string()),
        payload: lines(&["P"]),
    }];
    assert_eq!(patch(&doc, &rules), Vec::<String>::new());
}

#[test]
fn single_anchor_shifts_later_lines_by_payload_length() {
    let doc = lines(&["l0", "l1", "needle here", "l3"]);
    let rules = vec![Rule {
        pred: Pred::Contains("needle".to_string()),
        payload: lines(&["p0", "p1", "p2"]),
    }];
    let out = patch(&doc, &rules);
    assert_eq!(out.len(), doc.len() + 3);
    assert_eq!(out, lines(&["l0", "l1", "p0", "p1", "p2", "needle here", "l3"]));
}

#[test]
fn two_rules_each_fire_before_their_own_anchor() {
    let doc = lines(&["one", "cephfs: {", "two", "register('B')", "three"]);
    let rules = vec![
        Rule {
            pred: Pred::TrimmedStartsWith("cephfs: {".to_string()),
            payload: lines(&["first payload a", "first payload b"]),
        },
        Rule {
            pred: Pred::Contains("register('B')".to_string()),
            payload: lines(&["second payload"]),
        },
    ];
    assert_eq!(
        patch(&doc, &rules),
        lines(&[
            "one",
            "first payload a",
            "first payload b",
            "cephfs: {",
            "two",
            "second payload",
            "register('B')",
            "three",
        ])
    );
}

#[test]
fn repeated_anchor_gets_payload_at_each_occurrence() {
    let doc = lines(&["cephfs: {", "x", "cephfs: {"]);
    let rules = vec![Rule {
        pred: Pred::TrimmedStartsWith("cephfs: {".to_string()),
        payload: lines(&["P"]),
    }];
    assert_eq!(patch(&doc, &rules), lines(&["P", "cephfs: {", "x", "P", "cephfs: {"]));
}

#[test]
fn line_matching_both_rules_gets_both_payloads_in_rule_order() {
    let doc = lines(&["cephfs: { register('B')"]);
    let rules = vec![
        Rule {
            pred: Pred::TrimmedStartsWith("cephfs: {".to_string()),
            payload: lines(&["A"]),
        },
        Rule {
            pred: Pred::Contains("register('B')".to_string()),
            payload: lines(&["B"]),
        },
    ];
    assert_eq!(patch(&doc, &rules), lines(&["A", "B", "cephfs: { register('B')"]));
}
