//! The laws of the anchor patcher: patching inserts and never deletes,
//! reorders or edits; a document without anchors is left unchanged; and a
//! payload lands immediately before its anchor line.

use vstd::prelude::*;

use crate::patcher::insertions_for;
use crate::patcher::patch_lines;
use crate::patcher::rule_matches;
use crate::patcher::RuleModel;

verus! {

/// Patching a concatenation patches the parts: every insertion is decided
/// line by line.
pub proof fn lemma_patch_concat(a: Seq<Seq<char>>, b: Seq<Seq<char>>, rules: Seq<RuleModel>)
    ensures
        patch_lines(a + b, rules) == patch_lines(a, rules) + patch_lines(b, rules),
    decreases a.len(),
{
    if a.len() == 0 {
        assert(a + b =~= b);
        assert(patch_lines(a, rules) + patch_lines(b, rules) =~= patch_lines(b, rules));
    } else {
        assert((a + b)[0] == a[0]);
        assert((a + b).drop_first() =~= a.drop_first() + b);
        lemma_patch_concat(a.drop_first(), b, rules);
        assert(insertions_for(a[0], rules) + seq![a[0]] + (patch_lines(a.drop_first(), rules)
            + patch_lines(b, rules)) =~= (insertions_for(a[0], rules) + seq![a[0]] + patch_lines(
            a.drop_first(),
            rules,
        )) + patch_lines(b, rules));
    }
}

/// Patching a single line puts its insertions before it.
pub proof fn lemma_patch_one(l: Seq<char>, rules: Seq<RuleModel>)
    ensures
        patch_lines(seq![l], rules) == insertions_for(l, rules) + seq![l],
{
    reveal_with_fuel(patch_lines, 2);
    assert(seq![l].drop_first() =~= Seq::<Seq<char>>::empty());
    assert(insertions_for(l, rules) + seq![l] + Seq::<Seq<char>>::empty() =~= insertions_for(
        l,
        rules,
    ) + seq![l]);
}

/// A line that satisfies no rule's predicate gets nothing inserted before it.
pub proof fn lemma_insertions_unmatched(line: Seq<char>, rules: Seq<RuleModel>)
    requires
        forall|j: int| 0 <= j < rules.len() ==> !rule_matches(rules[j], line),
    ensures
        insertions_for(line, rules) == Seq::<Seq<char>>::empty(),
    decreases rules.len(),
{
    if rules.len() == 0 {
    } else {
        assert(!rule_matches(rules[0], line));
        assert forall|j: int| 0 <= j < rules.drop_first().len() implies !rule_matches(
            rules.drop_first()[j],
            line,
        ) by {
            assert(rules.drop_first()[j] == rules[j + 1]);
        }
        lemma_insertions_unmatched(line, rules.drop_first());
        assert(Seq::<Seq<char>>::empty() + Seq::<Seq<char>>::empty()
            =~= Seq::<Seq<char>>::empty());
    }
}

/// A document in which no line satisfies any rule's predicate is returned
/// unchanged.
pub proof fn lemma_patch_unmatched(doc: Seq<Seq<char>>, rules: Seq<RuleModel>)
    requires
        forall|i: int, j: int|
            0 <= i < doc.len() && 0 <= j < rules.len() ==> !rule_matches(rules[j], doc[i]),
    ensures
        patch_lines(doc, rules) == doc,
    decreases doc.len(),
{
    if doc.len() == 0 {
        assert(patch_lines(doc, rules) =~= doc);
    } else {
        assert forall|j: int| 0 <= j < rules.len() implies !rule_matches(rules[j], doc[0]) by {
            assert(!rule_matches(rules[j], doc[0]));
        }
        lemma_insertions_unmatched(doc[0], rules);
        assert forall|i: int, j: int|
            0 <= i < doc.drop_first().len() && 0 <= j < rules.len() implies !rule_matches(
            rules[j],
            doc.drop_first()[i],
        ) by {
            assert(doc.drop_first()[i] == doc[i + 1]);
        }
        lemma_patch_unmatched(doc.drop_first(), rules);
        assert(Seq::<Seq<char>>::empty() + seq![doc[0]] + doc.drop_first() =~= doc);
    }
}

/// The total number of payload lines that the rules insert into the
/// document.
pub open spec fn insertions_len(doc: Seq<Seq<char>>, rules: Seq<RuleModel>) -> nat
    decreases doc.len(),
{
    if doc.len() == 0 {
        0
    } else {
        insertions_for(doc[0], rules).len() + insertions_len(doc.drop_first(), rules)
    }
}

/// The patched document holds exactly the document's lines plus the
/// inserted payload lines.
pub proof fn lemma_patch_len(doc: Seq<Seq<char>>, rules: Seq<RuleModel>)
    ensures
        patch_lines(doc, rules).len() == doc.len() + insertions_len(doc, rules),
    decreases doc.len(),
{
    if doc.len() == 0 {
    } else {
        lemma_patch_len(doc.drop_first(), rules);
    }
}

/// Where line `i` of the document stands in the patched document.
pub open spec fn line_pos(doc: Seq<Seq<char>>, rules: Seq<RuleModel>, i: int) -> int {
    patch_lines(doc.take(i), rules).len() + insertions_for(doc[i], rules).len() as int
}

/// Every line of the document survives patching unchanged and in order:
/// line `i` stands at `line_pos(doc, rules, i)` of the patched document,
/// and these positions increase strictly with `i`.
pub proof fn lemma_patch_preserves_lines(doc: Seq<Seq<char>>, rules: Seq<RuleModel>, i: int)
    requires
        0 <= i < doc.len(),
    ensures
        0 <= line_pos(doc, rules, i) < patch_lines(doc, rules).len(),
        patch_lines(doc, rules)[line_pos(doc, rules, i)] == doc[i],
        i + 1 < doc.len() ==> line_pos(doc, rules, i) < line_pos(doc, rules, i + 1),
{
    let a = doc.take(i);
    let rest = doc.skip(i);
    let ins = insertions_for(doc[i], rules);
    assert(doc =~= a + rest);
    lemma_patch_concat(a, rest, rules);
    assert(rest[0] == doc[i]);
    assert(rest.len() > 0);
    assert(patch_lines(rest, rules) == ins + seq![doc[i]] + patch_lines(
        rest.drop_first(),
        rules,
    ));
    let pa = patch_lines(a, rules);
    let pos = pa.len() + ins.len();
    assert(patch_lines(doc, rules) == pa + (ins + seq![doc[i]] + patch_lines(
        rest.drop_first(),
        rules,
    )));
    assert(patch_lines(doc, rules)[pos as int] == doc[i]);
    if i + 1 < doc.len() {
        assert(doc.take(i + 1) =~= a.push(doc[i]));
        crate::patcher::lemma_patch_push(a, rules, doc[i]);
        assert(patch_lines(doc.take(i + 1), rules).len() == pa.len() + ins.len() + 1);
    }
}

/// A rule whose predicate matches exactly the line at index `k` puts its
/// payload immediately before that line and changes nothing else; the
/// patched document grows by exactly the payload's length.
pub proof fn lemma_patch_single_anchor(doc: Seq<Seq<char>>, r: RuleModel, k: int)
    requires
        0 <= k < doc.len(),
        rule_matches(r, doc[k]),
        forall|i: int| 0 <= i < doc.len() && i != k ==> !rule_matches(r, doc[i]),
    ensures
        patch_lines(doc, seq![r]) == doc.take(k) + r.payload + doc.skip(k),
        patch_lines(doc, seq![r]).len() == doc.len() + r.payload.len(),
{
    let rules = seq![r];
    let a = doc.take(k);
    let m = seq![doc[k]];
    let b = doc.skip(k + 1);
    assert(doc =~= a + (m + b));
    lemma_patch_concat(a, m + b, rules);
    lemma_patch_concat(m, b, rules);
    assert forall|i: int, j: int|
        0 <= i < a.len() && 0 <= j < rules.len() implies !rule_matches(rules[j], a[i]) by {
        assert(a[i] == doc[i]);
        assert(rules[j] == r);
    }
    lemma_patch_unmatched(a, rules);
    assert forall|i: int, j: int|
        0 <= i < b.len() && 0 <= j < rules.len() implies !rule_matches(rules[j], b[i]) by {
        assert(b[i] == doc[k + 1 + i]);
        assert(rules[j] == r);
    }
    lemma_patch_unmatched(b, rules);
    lemma_patch_one(doc[k], rules);
    reveal_with_fuel(insertions_for, 2);
    assert(rules.drop_first() =~= Seq::<RuleModel>::empty());
    assert(insertions_for(doc[k], rules) =~= r.payload);
    assert(doc.skip(k) =~= m + b);
    assert(a + ((r.payload + m) + b) =~= a + r.payload + doc.skip(k));
    assert(patch_lines(doc, rules) =~= doc.take(k) + r.payload + doc.skip(k));
}

/// Two rules, each matching exactly one line of the document and neither
/// matching the other's anchor, put each payload immediately before its own
/// anchor line and change nothing else.
pub proof fn lemma_patch_two_anchors(
    doc: Seq<Seq<char>>,
    r1: RuleModel,
    r2: RuleModel,
    k1: int,
    k2: int,
)
    requires
        0 <= k1 < k2 < doc.len(),
        rule_matches(r1, doc[k1]),
        rule_matches(r2, doc[k2]),
        forall|i: int| 0 <= i < doc.len() && i != k1 ==> !rule_matches(r1, doc[i]),
        forall|i: int| 0 <= i < doc.len() && i != k2 ==> !rule_matches(r2, doc[i]),
    ensures
        patch_lines(doc, seq![r1, r2]) == doc.take(k1) + r1.payload + doc.subrange(k1, k2)
            + r2.payload + doc.skip(k2),
        patch_lines(doc, seq![r1, r2]).len() == doc.len() + r1.payload.len() + r2.payload.len(),
{
    let rules = seq![r1, r2];
    let a = doc.take(k1);
    let m1 = seq![doc[k1]];
    let mid = doc.subrange(k1 + 1, k2);
    let m2 = seq![doc[k2]];
    let b = doc.skip(k2 + 1);
    assert(doc =~= a + (m1 + (mid + (m2 + b))));
    lemma_patch_concat(a, m1 + (mid + (m2 + b)), rules);
    lemma_patch_concat(m1, mid + (m2 + b), rules);
    lemma_patch_concat(mid, m2 + b, rules);
    lemma_patch_concat(m2, b, rules);
    assert forall|i: int, j: int|
        0 <= i < a.len() && 0 <= j < rules.len() implies !rule_matches(rules[j], a[i]) by {
        assert(a[i] == doc[i]);
    }
    lemma_patch_unmatched(a, rules);
    assert forall|i: int, j: int|
        0 <= i < mid.len() && 0 <= j < rules.len() implies !rule_matches(rules[j], mid[i]) by {
        assert(mid[i] == doc[k1 + 1 + i]);
    }
    lemma_patch_unmatched(mid, rules);
    assert forall|i: int, j: int|
        0 <= i < b.len() && 0 <= j < rules.len() implies !rule_matches(rules[j], b[i]) by {
        assert(b[i] == doc[k2 + 1 + i]);
    }
    lemma_patch_unmatched(b, rules);
    lemma_patch_one(doc[k1], rules);
    lemma_patch_one(doc[k2], rules);
    reveal_with_fuel(insertions_for, 3);
    assert(rules.drop_first() =~= seq![r2]);
    assert(seq![r2].drop_first() =~= Seq::<RuleModel>::empty());
    assert(!rule_matches(r2, doc[k1]));
    assert(!rule_matches(r1, doc[k2]));
    assert(insertions_for(doc[k1], rules) =~= r1.payload);
    assert(insertions_for(doc[k2], rules) =~= r2.payload);
    assert(doc.subrange(k1, k2) =~= m1 + mid);
    assert(doc.skip(k2) =~= m2 + b);
    assert(a + ((r1.payload + m1) + (mid + ((r2.payload + m2) + b))) =~= doc.take(k1)
        + r1.payload + doc.subrange(k1, k2) + r2.payload + doc.skip(k2));
    assert(patch_lines(doc, rules) =~= doc.take(k1) + r1.payload + doc.subrange(k1, k2)
        + r2.payload + doc.skip(k2));
}

} // verus!
