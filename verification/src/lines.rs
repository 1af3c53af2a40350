//! Splitting a text into lines and joining lines back into a text,
//! with the semantics of `str::lines` and of joining on a line feed.

use vstd::prelude::*;

verus! {

/// The views of a sequence of owned lines.
pub open spec fn char_lines(v: Seq<String>) -> Seq<Seq<char>> {
    v.map_values(|s: String| s@)
}

pub proof fn lemma_char_lines_push(v: Seq<String>, x: String)
    ensures
        char_lines(v.push(x)) == char_lines(v).push(x@),
{
    assert(char_lines(v.push(x)) =~= char_lines(v).push(x@));
}

/// A line as it is emitted: a carriage return directly before the line feed
/// is removed together with it.
pub open spec fn chop_cr(cur: Seq<char>) -> Seq<char> {
    if cur.len() > 0 && cur.last() == '\r' {
        cur.drop_last()
    } else {
        cur
    }
}

/// The lines of the text `s`, with `cur` the part of the current line read
/// so far: split at every line feed, and a final line ending optional.
pub open spec fn lines_rec(s: Seq<char>, cur: Seq<char>) -> Seq<Seq<char>>
    decreases s.len(),
{
    if s.len() == 0 {
        if cur.len() == 0 {
            Seq::empty()
        } else {
            seq![cur]
        }
    } else if s[0] == '\n' {
        seq![chop_cr(cur)] + lines_rec(s.drop_first(), Seq::empty())
    } else {
        lines_rec(s.drop_first(), cur.push(s[0]))
    }
}

/// The lines of a text, as `str::lines` yields them: split at `'\n'`, a
/// `'\r'` directly before the `'\n'` removed, and a trailing line ending
/// producing no further line.
pub open spec fn lines_of(s: Seq<char>) -> Seq<Seq<char>> {
    lines_rec(s, Seq::empty())
}

/// Reading `k` characters that hold no line feed only extends the current
/// line.
proof fn lemma_lines_rec_skip(s: Seq<char>, cur: Seq<char>, k: int)
    requires
        0 <= k <= s.len(),
        forall|j: int| 0 <= j < k ==> s[j] != '\n',
    ensures
        lines_rec(s, cur) == lines_rec(s.skip(k), cur + s.take(k)),
    decreases k,
{
    if k == 0 {
        assert(s.skip(0) =~= s);
        assert(cur + s.take(0) =~= cur);
    } else {
        assert(s[0] != '\n');
        lemma_lines_rec_skip(s.drop_first(), cur.push(s[0]), k - 1);
        assert(s.drop_first().skip(k - 1) =~= s.skip(k));
        assert(cur.push(s[0]) + s.drop_first().take(k - 1) =~= cur + s.take(k));
    }
}

/// Splits a text into its lines exactly as `lines_of` describes them.
pub fn split_lines(s: &str) -> (out: Vec<String>)
    ensures
        char_lines(out@) == lines_of(s@),
{
    let n = s.unicode_len();
    let mut out: Vec<String> = Vec::new();
    let mut start: usize = 0;
    let mut i: usize = 0;
    proof {
        assert(s@.skip(0) =~= s@);
        assert(char_lines(out@) + lines_rec(s@, Seq::empty()) =~= lines_rec(s@, Seq::empty()));
    }
    while i < n
        invariant
            0 <= start <= i <= n,
            n == s@.len(),
            forall|j: int| start <= j < i ==> s@[j] != '\n',
            lines_of(s@) == char_lines(out@) + lines_rec(
                s@.skip(start as int),
                Seq::empty(),
            ),
        decreases n - i,
    {
        let c = s.get_char(i);
        if c == '\n' {
            let end = if i > start && s.get_char(i - 1) == '\r' {
                i - 1
            } else {
                i
            };
            let piece = String::from_str(s.substring_char(start, end));
            proof {
                let rest = s@.skip(start as int);
                lemma_lines_rec_skip(rest, Seq::empty(), i - start);
                assert(rest.skip(i - start) =~= s@.skip(i as int));
                assert(Seq::empty() + rest.take(i - start) =~= s@.subrange(
                    start as int,
                    i as int,
                ));
                assert(s@.skip(i as int)[0] == s@[i as int]);
                assert(s@.skip(i as int).drop_first() =~= s@.skip(i + 1));
                assert(chop_cr(s@.subrange(start as int, i as int)) =~= s@.subrange(
                    start as int,
                    end as int,
                ));
                lemma_char_lines_push(out@, piece);
                assert(char_lines(out@) + (seq![piece@] + lines_rec(
                    s@.skip(i + 1),
                    Seq::empty(),
                )) =~= char_lines(out@.push(piece)) + lines_rec(s@.skip(i + 1), Seq::empty()));
            }
            out.push(piece);
            start = i + 1;
        }
        i += 1;
    }
    if start < n {
        let piece = String::from_str(s.substring_char(start, n));
        proof {
            let rest = s@.skip(start as int);
            lemma_lines_rec_skip(rest, Seq::empty(), n - start);
            assert(rest.skip(n - start) =~= s@.skip(n as int));
            assert(Seq::empty() + rest.take(n - start) =~= s@.subrange(start as int, n as int));
            assert(s@.skip(n as int).len() == 0);
            lemma_char_lines_push(out@, piece);
            assert(char_lines(out@) + seq![piece@] =~= char_lines(out@.push(piece)));
        }
        out.push(piece);
        proof {
            assert(char_lines(out@) + Seq::<Seq<char>>::empty() =~= char_lines(out@));
        }
    } else {
        proof {
            assert(s@.skip(start as int).len() == 0);
            assert(char_lines(out@) + lines_rec(s@.skip(start as int), Seq::empty())
                =~= char_lines(out@));
        }
    }
    out
}

/// The lines joined back into one text with a line feed between each
/// neighbouring pair, as `[String]::join` with a line-feed separator
/// yields it.
pub open spec fn join_of(ls: Seq<Seq<char>>) -> Seq<char>
    decreases ls.len(),
{
    if ls.len() == 0 {
        Seq::empty()
    } else if ls.len() == 1 {
        ls[0]
    } else {
        ls[0] + seq!['\n'] + join_of(ls.drop_first())
    }
}

/// Appending one more line appends a separator, unless nothing came before.
pub proof fn lemma_join_push(ls: Seq<Seq<char>>, l: Seq<char>)
    ensures
        join_of(ls.push(l)) == if ls.len() == 0 {
            l
        } else {
            join_of(ls) + seq!['\n'] + l
        },
    decreases ls.len(),
{
    if ls.len() == 0 {
        assert(ls.push(l)[0] =~= l);
    } else {
        assert(ls.push(l).len() >= 2);
        assert(ls.push(l)[0] == ls[0]);
        assert(ls.push(l).drop_first() =~= ls.drop_first().push(l));
        lemma_join_push(ls.drop_first(), l);
        if ls.len() == 1 {
            assert(join_of(ls) == ls[0]);
        } else {
            assert(ls[0] + seq!['\n'] + (join_of(ls.drop_first()) + seq!['\n'] + l) =~= (ls[0]
                + seq!['\n'] + join_of(ls.drop_first())) + seq!['\n'] + l);
        }
    }
}

/// Joins the lines with a line feed between each neighbouring pair.
pub fn join_lines(ls: &Vec<String>) -> (r: String)
    ensures
        r@ == join_of(char_lines(ls@)),
{
    let mut r = String::new();
    let mut i: usize = 0;
    while i < ls.len()
        invariant
            0 <= i <= ls@.len(),
            r@ == join_of(char_lines(ls@).take(i as int)),
        decreases ls@.len() - i,
    {
        if i > 0 {
            r.append("\n");
        }
        r.append(ls[i].as_str());
        proof {
            reveal_strlit("\n");
            assert("\n"@ =~= seq!['\n']);
            lemma_join_push(char_lines(ls@).take(i as int), ls@[i as int]@);
            assert(char_lines(ls@).take(i + 1) =~= char_lines(ls@).take(i as int).push(
                ls@[i as int]@,
            ));
        }
        i += 1;
    }
    proof {
        assert(char_lines(ls@).take(ls@.len() as int) =~= char_lines(ls@));
    }
    r
}

} // verus!
