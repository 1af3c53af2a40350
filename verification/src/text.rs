//! Character-level primitives over line text: whitespace trimming,
//! prefix tests and substring search, each specified over `Seq<char>`.

use vstd::prelude::*;

verus! {

/// True of a character that line trimming removes: the characters with the
/// Unicode `White_Space` property, as `char::is_whitespace` reports them.
pub open spec fn is_line_ws(c: char) -> bool {
    c == ' ' || c == '\t' || c == '\n' || c == '\u{b}' || c == '\u{c}' || c == '\r'
        || c == '\u{85}' || c == '\u{a0}' || c == '\u{1680}'
        || ('\u{2000}' <= c && c <= '\u{200a}')
        || c == '\u{2028}' || c == '\u{2029}' || c == '\u{202f}' || c == '\u{205f}'
        || c == '\u{3000}'
}

/// Decides whitespace exactly as `is_line_ws` describes it.
pub fn char_is_line_ws(c: char) -> (b: bool)
    ensures
        b == is_line_ws(c),
{
    c == ' ' || c == '\t' || c == '\n' || c == '\u{b}' || c == '\u{c}' || c == '\r'
        || c == '\u{85}' || c == '\u{a0}' || c == '\u{1680}'
        || ('\u{2000}' <= c && c <= '\u{200a}')
        || c == '\u{2028}' || c == '\u{2029}' || c == '\u{202f}' || c == '\u{205f}'
        || c == '\u{3000}'
}

/// The text without its leading whitespace.
pub open spec fn trim_start_of(s: Seq<char>) -> Seq<char>
    decreases s.len(),
{
    if s.len() > 0 && is_line_ws(s[0]) {
        trim_start_of(s.drop_first())
    } else {
        s
    }
}

/// The text without its trailing whitespace.
pub open spec fn trim_end_of(s: Seq<char>) -> Seq<char>
    decreases s.len(),
{
    if s.len() > 0 && is_line_ws(s.last()) {
        trim_end_of(s.drop_last())
    } else {
        s
    }
}

/// The text without leading and trailing whitespace, as `str::trim` yields it.
pub open spec fn trim_of(s: Seq<char>) -> Seq<char> {
    trim_end_of(trim_start_of(s))
}

/// The text `s` begins with the text `p`.
pub open spec fn starts_with_of(s: Seq<char>, p: Seq<char>) -> bool {
    p.len() <= s.len() && s.take(p.len() as int) == p
}

/// The text `p` occurs somewhere in the text `s`.
pub open spec fn contains_of(s: Seq<char>, p: Seq<char>) -> bool {
    exists|k: int|
        0 <= k && k + p.len() <= s.len() && #[trigger] s.subrange(k, k + p.len() as int) == p
}

/// If the first `k` characters of `s` are whitespace and the character after
/// them, if any, is not, then trimming the start of `s` drops exactly them.
proof fn lemma_trim_start_at(s: Seq<char>, k: int)
    requires
        0 <= k <= s.len(),
        forall|j: int| 0 <= j < k ==> is_line_ws(s[j]),
        k < s.len() ==> !is_line_ws(s[k]),
    ensures
        trim_start_of(s) == s.skip(k),
    decreases k,
{
    if k == 0 {
        if s.len() > 0 && is_line_ws(s[0]) {
            assert(false);
        }
        assert(s.skip(0) =~= s);
    } else {
        assert(is_line_ws(s[0]));
        lemma_trim_start_at(s.drop_first(), k - 1);
        assert(s.drop_first().skip(k - 1) =~= s.skip(k));
    }
}

/// If the characters of `s` from position `k` on are whitespace and the
/// character before them, if any, is not, then trimming the end of `s`
/// drops exactly them.
proof fn lemma_trim_end_at(s: Seq<char>, k: int)
    requires
        0 <= k <= s.len(),
        forall|j: int| k <= j < s.len() ==> is_line_ws(s[j]),
        k > 0 ==> !is_line_ws(s[k - 1]),
    ensures
        trim_end_of(s) == s.take(k),
    decreases s.len() - k,
{
    if k == s.len() {
        if s.len() > 0 && is_line_ws(s.last()) {
            assert(false);
        }
        assert(s.take(k) =~= s);
    } else {
        assert(is_line_ws(s.last()));
        lemma_trim_end_at(s.drop_last(), k);
        assert(s.drop_last().take(k) =~= s.take(k));
    }
}

/// True exactly when the line, trimmed of leading and trailing whitespace,
/// begins with `pat`.
pub fn line_trimmed_starts_with(line: &str, pat: &str) -> (b: bool)
    ensures
        b == starts_with_of(trim_of(line@), pat@),
{
    let n = line.unicode_len();
    let mut a: usize = 0;
    while a < n && char_is_line_ws(line.get_char(a))
        invariant
            0 <= a <= n,
            n == line@.len(),
            forall|j: int| 0 <= j < a ==> is_line_ws(line@[j]),
        decreases n - a,
    {
        a += 1;
    }
    let mut b: usize = n;
    while b > a && char_is_line_ws(line.get_char(b - 1))
        invariant
            a <= b <= n,
            n == line@.len(),
            forall|j: int| 0 <= j < a ==> is_line_ws(line@[j]),
            a < n ==> !is_line_ws(line@[a as int]),
            forall|j: int| b <= j < n ==> is_line_ws(line@[j]),
        decreases b,
    {
        b -= 1;
    }
    proof {
        lemma_trim_start_at(line@, a as int);
        lemma_trim_end_at(line@.skip(a as int), b - a);
        assert(line@.skip(a as int).take(b - a) =~= line@.subrange(a as int, b as int));
        assert(trim_of(line@) == line@.subrange(a as int, b as int));
    }
    let ghost trimmed = line@.subrange(a as int, b as int);
    let m = pat.unicode_len();
    if m > b - a {
        return false;
    }
    let mut j: usize = 0;
    while j < m
        invariant
            0 <= j <= m,
            m == pat@.len(),
            a <= b <= n,
            n == line@.len(),
            m <= b - a,
            trimmed == line@.subrange(a as int, b as int),
            trim_of(line@) == trimmed,
            forall|jj: int| 0 <= jj < j ==> trimmed[jj] == pat@[jj],
        decreases m - j,
    {
        if line.get_char(a + j) != pat.get_char(j) {
            proof {
                assert(trimmed[j as int] == line@[a + j]);
                assert(trimmed.take(m as int)[j as int] != pat@[j as int]);
            }
            return false;
        }
        j += 1;
    }
    proof {
        assert(trimmed.take(m as int) =~= pat@);
    }
    true
}

/// True exactly when `pat` occurs somewhere in `line`.
pub fn line_contains(line: &str, pat: &str) -> (b: bool)
    ensures
        b == contains_of(line@, pat@),
{
    let n = line.unicode_len();
    let m = pat.unicode_len();
    if m > n {
        return false;
    }
    let mut k: usize = 0;
    while k <= n - m
        invariant
            0 <= k,
            k <= n - m + 1,
            m <= n,
            n == line@.len(),
            m == pat@.len(),
            forall|kk: int|
                0 <= kk < k ==> #[trigger] line@.subrange(kk, kk + pat@.len() as int) != pat@,
        decreases n - k,
    {
        let mut j: usize = 0;
        while j < m && line.get_char(k + j) == pat.get_char(j)
            invariant
                0 <= j <= m,
                k + m <= n,
                n == line@.len(),
                m == pat@.len(),
                forall|jj: int| 0 <= jj < j ==> line@[k + jj] == pat@[jj],
            decreases m - j,
        {
            j += 1;
        }
        if j == m {
            proof {
                assert(line@.subrange(k as int, k + pat@.len() as int) =~= pat@);
            }
            return true;
        }
        proof {
            assert(line@.subrange(k as int, k + pat@.len() as int)[j as int] != pat@[j as int]);
        }
        k += 1;
    }
    false
}

} // verus!
