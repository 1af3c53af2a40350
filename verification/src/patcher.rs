//! The anchor patcher: insertion rules, their mathematical models, and
//! the patching pass that splices each rule's payload in before every
//! line its predicate matches.

use vstd::prelude::*;

use crate::lines::char_lines;
use crate::lines::lemma_char_lines_push;
use crate::text::contains_of;
use crate::text::line_contains;
use crate::text::line_trimmed_starts_with;
use crate::text::starts_with_of;
use crate::text::trim_of;

verus! {

/// How a rule recognises its anchor line.
pub enum Pred {
    /// The line, trimmed of leading and trailing whitespace, begins with the
    /// pattern.
    TrimmedStartsWith(String),
    /// The line contains the pattern anywhere.
    Contains(String),
}

/// One insertion rule: wherever a line satisfies the predicate, the payload
/// lines are spliced in immediately before it.
pub struct Rule {
    pub pred: Pred,
    pub payload: Vec<String>,
}

/// The mathematical form of a predicate.
pub enum PredModel {
    TrimmedStartsWith(Seq<char>),
    Contains(Seq<char>),
}

/// The mathematical form of a rule.
pub struct RuleModel {
    pub pred: PredModel,
    pub payload: Seq<Seq<char>>,
}

impl View for Pred {
    type V = PredModel;

    open spec fn view(&self) -> PredModel {
        match self {
            Pred::TrimmedStartsWith(p) => PredModel::TrimmedStartsWith(p@),
            Pred::Contains(p) => PredModel::Contains(p@),
        }
    }
}

impl View for Rule {
    type V = RuleModel;

    open spec fn view(&self) -> RuleModel {
        RuleModel { pred: self.pred@, payload: char_lines(self.payload@) }
    }
}

/// The models of a sequence of rules.
pub open spec fn rule_models(rs: Seq<Rule>) -> Seq<RuleModel> {
    rs.map_values(|r: Rule| r@)
}

/// The line satisfies the predicate.
pub open spec fn pred_matches(p: PredModel, line: Seq<char>) -> bool {
    match p {
        PredModel::TrimmedStartsWith(pat) => starts_with_of(trim_of(line), pat),
        PredModel::Contains(pat) => contains_of(line, pat),
    }
}

/// The line is an anchor line of the rule.
pub open spec fn rule_matches(r: RuleModel, line: Seq<char>) -> bool {
    pred_matches(r.pred, line)
}

/// Everything inserted before the given line: the payloads of the rules the
/// line satisfies, in rule order.
pub open spec fn insertions_for(line: Seq<char>, rules: Seq<RuleModel>) -> Seq<Seq<char>>
    decreases rules.len(),
{
    if rules.len() == 0 {
        Seq::empty()
    } else {
        (if rule_matches(rules[0], line) {
            rules[0].payload
        } else {
            Seq::empty()
        }) + insertions_for(line, rules.drop_first())
    }
}

/// The patched document: every line of the document in order, with each
/// rule's payload spliced in immediately before each line that satisfies
/// its predicate.
pub open spec fn patch_lines(doc: Seq<Seq<char>>, rules: Seq<RuleModel>) -> Seq<Seq<char>>
    decreases doc.len(),
{
    if doc.len() == 0 {
        Seq::empty()
    } else {
        insertions_for(doc[0], rules) + seq![doc[0]] + patch_lines(doc.drop_first(), rules)
    }
}

/// Decides a predicate exactly as `pred_matches` describes it.
pub fn pred_holds(p: &Pred, line: &String) -> (b: bool)
    ensures
        b == pred_matches(p@, line@),
{
    match p {
        Pred::TrimmedStartsWith(pat) => line_trimmed_starts_with(line.as_str(), pat.as_str()),
        Pred::Contains(pat) => line_contains(line.as_str(), pat.as_str()),
    }
}

/// One more rule at the end contributes its payload at the end, if the line
/// satisfies it.
proof fn lemma_insertions_push(line: Seq<char>, rules: Seq<RuleModel>, r: RuleModel)
    ensures
        insertions_for(line, rules.push(r)) == insertions_for(line, rules) + (
        if rule_matches(r, line) {
            r.payload
        } else {
            Seq::<Seq<char>>::empty()
        }),
    decreases rules.len(),
{
    let tail = (if rule_matches(r, line) {
        r.payload
    } else {
        Seq::<Seq<char>>::empty()
    });
    if rules.len() == 0 {
        reveal_with_fuel(insertions_for, 2);
        assert(rules.push(r)[0] == r);
        assert(rules.push(r).drop_first() =~= Seq::<RuleModel>::empty());
        assert(insertions_for(line, rules.push(r)) =~= insertions_for(line, rules) + tail);
    } else {
        assert(rules.push(r)[0] == rules[0]);
        assert(rules.push(r).drop_first() =~= rules.drop_first().push(r));
        lemma_insertions_push(line, rules.drop_first(), r);
        let head = (if rule_matches(rules[0], line) {
            rules[0].payload
        } else {
            Seq::<Seq<char>>::empty()
        });
        assert(head + (insertions_for(line, rules.drop_first()) + tail) =~= (head
            + insertions_for(line, rules.drop_first())) + tail);
    }
}

/// One more line at the end of the document contributes its insertions and
/// itself at the end of the patched document.
pub proof fn lemma_patch_push(doc: Seq<Seq<char>>, rules: Seq<RuleModel>, l: Seq<char>)
    ensures
        patch_lines(doc.push(l), rules) == patch_lines(doc, rules) + insertions_for(l, rules)
            + seq![l],
    decreases doc.len(),
{
    if doc.len() == 0 {
        reveal_with_fuel(patch_lines, 2);
        assert(doc.push(l)[0] == l);
        assert(doc.push(l).drop_first() =~= Seq::<Seq<char>>::empty());
        assert(patch_lines(doc.push(l), rules) =~= patch_lines(doc, rules) + insertions_for(
            l,
            rules,
        ) + seq![l]);
    } else {
        assert(doc.push(l)[0] == doc[0]);
        assert(doc.push(l).drop_first() =~= doc.drop_first().push(l));
        lemma_patch_push(doc.drop_first(), rules, l);
        assert(insertions_for(doc[0], rules) + seq![doc[0]] + (patch_lines(
            doc.drop_first(),
            rules,
        ) + insertions_for(l, rules) + seq![l]) =~= (insertions_for(doc[0], rules) + seq![doc[0]]
            + patch_lines(doc.drop_first(), rules)) + insertions_for(l, rules) + seq![l]);
    }
}

/// Applies every rule to every line of the document, splicing each rule's
/// payload in immediately before each line that satisfies its predicate.
pub fn patch(doc: &Vec<String>, rules: &Vec<Rule>) -> (out: Vec<String>)
    ensures
        char_lines(out@) == patch_lines(char_lines(doc@), rule_models(rules@)),
{
    let ghost dm = char_lines(doc@);
    let ghost rm = rule_models(rules@);
    let mut out: Vec<String> = Vec::new();
    let mut i: usize = 0;
    proof {
        assert(char_lines(out@) =~= patch_lines(dm.take(0), rm));
    }
    while i < doc.len()
        invariant
            0 <= i <= doc@.len(),
            dm == char_lines(doc@),
            rm == rule_models(rules@),
            char_lines(out@) == patch_lines(dm.take(i as int), rm),
        decreases doc@.len() - i,
    {
        let ghost out_before = char_lines(out@);
        let ghost line = dm[i as int];
        let mut j: usize = 0;
        proof {
            assert(out_before + insertions_for(line, rm.take(0)) =~= out_before);
        }
        while j < rules.len()
            invariant
                0 <= j <= rules@.len(),
                i < doc@.len(),
                dm == char_lines(doc@),
                rm == rule_models(rules@),
                line == dm[i as int],
                out_before == patch_lines(dm.take(i as int), rm),
                char_lines(out@) == out_before + insertions_for(line, rm.take(j as int)),
            decreases rules@.len() - j,
        {
            let matched = pred_holds(&rules[j].pred, &doc[i]);
            proof {
                assert(rm[j as int] == rules@[j as int]@);
                assert(rule_matches(rm[j as int], line) == matched);
            }
            if matched {
                let ghost out_mid = char_lines(out@);
                let payload = &rules[j].payload;
                let mut k: usize = 0;
                proof {
                    assert(out_mid + char_lines(payload@).take(0) =~= out_mid);
                }
                while k < payload.len()
                    invariant
                        0 <= k <= payload@.len(),
                        payload@ == rules@[j as int].payload@,
                        j < rules@.len(),
                        char_lines(out@) == out_mid + char_lines(payload@).take(k as int),
                    decreases payload@.len() - k,
                {
                    let piece = payload[k].clone();
                    proof {
                        lemma_char_lines_push(out@, piece);
                        assert(char_lines(payload@).take(k + 1) =~= char_lines(payload@).take(
                            k as int,
                        ).push(payload@[k as int]@));
                        assert(out_mid + char_lines(payload@).take(k + 1) =~= (out_mid
                            + char_lines(payload@).take(k as int)).push(payload@[k as int]@));
                    }
                    out.push(piece);
                    k += 1;
                }
                proof {
                    assert(char_lines(payload@).take(payload@.len() as int) =~= char_lines(
                        payload@,
                    ));
                    assert(char_lines(payload@) == rm[j as int].payload);
                }
            }
            proof {
                assert(rm.take(j + 1) =~= rm.take(j as int).push(rm[j as int]));
                lemma_insertions_push(line, rm.take(j as int), rm[j as int]);
                if rule_matches(rm[j as int], line) {
                    assert(out_before + (insertions_for(line, rm.take(j as int)) + rm[
                        j as int
                    ].payload) =~= (out_before + insertions_for(line, rm.take(j as int))) + rm[
                        j as int
                    ].payload);
                } else {
                    assert(out_before + (insertions_for(line, rm.take(j as int))
                        + Seq::<Seq<char>>::empty()) =~= out_before + insertions_for(
                        line,
                        rm.take(j as int),
                    ));
                }
            }
            j += 1;
        }
        proof {
            assert(rm.take(rules@.len() as int) =~= rm);
        }
        let piece = doc[i].clone();
        proof {
            lemma_char_lines_push(out@, piece);
            assert(dm.take(i + 1) =~= dm.take(i as int).push(line));
            lemma_patch_push(dm.take(i as int), rm, line);
            assert((out_before + insertions_for(line, rm)).push(line) =~= out_before
                + insertions_for(line, rm) + seq![line]);
        }
        out.push(piece);
        i += 1;
    }
    proof {
        assert(dm.take(doc@.len() as int) =~= dm);
    }
    out
}

} // verus!
