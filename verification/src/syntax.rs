//! The surface syntax of conditions: `name(args)` calls, quoted literals,
//! comma-separated arguments and separators at parenthesis depth 0.

use vstd::prelude::*;
use crate::text::{first_index, is_ws, matches_at, starts_with, trim, trim_end, trim_range, trim_start};

verus! {

/// `name(args)`: the text between the parentheses when the trimmed `s` is
/// `name`, optional whitespace, then a parenthesised tail.
pub open spec fn strip_call(s: Seq<char>, name: Seq<char>) -> Option<Seq<char>> {
    let t = trim(s);
    if starts_with(t, name) {
        let rest = trim(t.subrange(name.len() as int, t.len() as int));
        if rest.len() > 0 && rest[0] == '(' && rest.last() == ')' {
            Some(rest.subrange(1, rest.len() - 1))
        } else {
            None
        }
    } else {
        None
    }
}

pub proof fn lemma_trim_len(s: Seq<char>)
    ensures
        trim_start(s).len() <= s.len(),
        trim_end(s).len() <= s.len(),
        trim(s).len() <= s.len(),
    decreases s.len(),
{
    if s.len() > 0 && is_ws(s[0]) {
        lemma_trim_len(s.drop_first());
    }
    if s.len() > 0 && is_ws(s.last()) {
        lemma_trim_len(s.drop_last());
    }
    lemma_trim_end_len(trim_start(s));
}

proof fn lemma_trim_end_len(s: Seq<char>)
    ensures
        trim_end(s).len() <= s.len(),
    decreases s.len(),
{
    if s.len() > 0 && is_ws(s.last()) {
        lemma_trim_end_len(s.drop_last());
    }
}

pub proof fn lemma_strip_call_shorter(s: Seq<char>, name: Seq<char>)
    ensures
        strip_call(s, name) matches Some(inner) ==> inner.len() + 2 <= s.len(),
{
    lemma_trim_len(s);
    let t = trim(s);
    if starts_with(t, name) {
        lemma_trim_len(t.subrange(name.len() as int, t.len() as int));
    }
}

/// Where `s[lo..hi]`, read as `name(args)`, has its arguments.
pub fn strip_fn(v: &Vec<char>, lo: usize, hi: usize, name: &Vec<char>) -> (r: Option<(usize, usize)>)
    requires
        lo <= hi <= v.len(),
    ensures
        match r {
            Some((a, b)) => lo <= a <= b <= hi && strip_call(v@.subrange(lo as int, hi as int), name@)
                == Some(v@.subrange(a as int, b as int)),
            None => strip_call(v@.subrange(lo as int, hi as int), name@) is None,
        },
{
    let (tlo, thi) = trim_range(v, lo, hi);
    let ghost t = v@.subrange(tlo as int, thi as int);
    let n = name.len();
    if !matches_at(v, tlo, thi, name, 0, n) {
        assert(name@.subrange(0, n as int) =~= name@);
        assert(!starts_with(t, name@)) by {
            if starts_with(t, name@) {
                assert(t.subrange(0, n as int) =~= v@.subrange(tlo as int, tlo + n));
            }
        }
        return None;
    }
    assert(name@.subrange(0, n as int) =~= name@);
    assert(t.subrange(0, n as int) =~= v@.subrange(tlo as int, tlo + n));
    assert(t.subrange(n as int, t.len() as int) =~= v@.subrange(tlo + n, thi as int));
    let (rlo, rhi) = trim_range(v, tlo + n, thi);
    let ghost rest = v@.subrange(rlo as int, rhi as int);
    if rlo < rhi && v[rlo] == '(' && v[rhi - 1] == ')' {
        assert(rest[0] == v@[rlo as int]);
        assert(rest.last() == v@[rhi - 1]);
        assert(rhi - rlo >= 2);
        assert(rest.subrange(1, rest.len() - 1) =~= v@.subrange(rlo + 1, rhi - 1));
        Some((rlo + 1, rhi - 1))
    } else {
        proof {
            if rest.len() > 0 {
                assert(rest[0] == v@[rlo as int]);
                assert(rest.last() == v@[rhi - 1]);
            }
        }
        None
    }
}

/// Reading a quoted literal.
pub enum Unquoted {
    /// The text between matching single or double quotes.
    Text(Seq<char>),
    /// Not enclosed in quotes.
    NotQuoted,
    /// A lone quote character, which is both the opening and the closing
    /// quote; taking the text between them is an out-of-range slice.
    LoneQuote,
}

/// The trimmed `s`, unquoted when it starts and ends with the same kind of quote.
pub open spec fn unquote(s: Seq<char>) -> Unquoted {
    let t = trim(s);
    if t.len() > 0 && ((t[0] == '\'' && t.last() == '\'') || (t[0] == '"' && t.last() == '"')) {
        if t.len() == 1 {
            Unquoted::LoneQuote
        } else {
            Unquoted::Text(t.subrange(1, t.len() - 1))
        }
    } else {
        Unquoted::NotQuoted
    }
}

/// The unquoted text, or the empty string when `s` is not quoted.
pub open spec fn unquote_or_empty(u: Unquoted) -> Seq<char> {
    match u {
        Unquoted::Text(t) => t,
        _ => Seq::empty(),
    }
}

pub enum UnquotedRange {
    Text(usize, usize),
    NotQuoted,
    LoneQuote,
}

pub open spec fn unquoted_range_matches(v: Seq<char>, r: UnquotedRange, u: Unquoted) -> bool {
    match r {
        UnquotedRange::Text(a, b) => a <= b <= v.len() && u == Unquoted::Text(v.subrange(a as int, b as int)),
        UnquotedRange::NotQuoted => u == Unquoted::NotQuoted,
        UnquotedRange::LoneQuote => u == Unquoted::LoneQuote,
    }
}

/// `unquote` of `v[lo..hi]`, as a range of `v`.
pub fn extract_quoted(v: &Vec<char>, lo: usize, hi: usize) -> (r: UnquotedRange)
    requires
        lo <= hi <= v.len(),
    ensures
        unquoted_range_matches(v@, r, unquote(v@.subrange(lo as int, hi as int))),
        r matches UnquotedRange::Text(a, b) ==> lo <= a <= b <= hi,
{
    let (a, b) = trim_range(v, lo, hi);
    let ghost t = v@.subrange(a as int, b as int);
    if a < b && ((v[a] == '\'' && v[b - 1] == '\'') || (v[a] == '"' && v[b - 1] == '"')) {
        assert(t[0] == v@[a as int] && t.last() == v@[b - 1]);
        if b - a == 1 {
            UnquotedRange::LoneQuote
        } else {
            assert(t.subrange(1, t.len() - 1) =~= v@.subrange(a + 1, b - 1));
            UnquotedRange::Text(a + 1, b - 1)
        }
    } else {
        proof {
            if t.len() > 0 {
                assert(t[0] == v@[a as int] && t.last() == v@[b - 1]);
            }
        }
        UnquotedRange::NotQuoted
    }
}

/// The second piece of `splitn(2, ',')`, or the whole text when it has no comma.
pub open spec fn after_first_comma(s: Seq<char>) -> Seq<char> {
    let i = first_index(s, ',');
    if i < 0 {
        s
    } else {
        s.subrange(i + 1, s.len() as int)
    }
}

/// Where a separator splits a text at parenthesis depth 0.
pub enum TopSplit {
    /// The separator starts at this character index.
    At(int),
    NotFound,
}

/// The parenthesis depth after character `c`, from `depth`: `(` opens,
/// `)` closes (never below 0).
pub open spec fn depth_after(depth: nat, c: char) -> nat {
    if c == '(' {
        depth + 1
    } else if c == ')' {
        if depth == 0 {
            0
        } else {
            (depth - 1) as nat
        }
    } else {
        depth
    }
}

/// The scan of `split_at_top_level` from character `k` on, at parenthesis
/// depth `depth`: at each position where the separator still fits, the
/// depth is updated with that character and, at depth 0, the separator is
/// compared with the text from there.
pub open spec fn scan_top(s: Seq<char>, sep: Seq<char>, k: int, depth: nat) -> TopSplit
    decreases s.len() - k,
{
    if k < 0 || k >= s.len() || k + sep.len() > s.len() {
        TopSplit::NotFound
    } else {
        let d = depth_after(depth, s[k]);
        if d == 0 && starts_with(s.subrange(k, s.len() as int), sep) {
            TopSplit::At(k)
        } else {
            scan_top(s, sep, k + 1, d)
        }
    }
}

pub proof fn starts_with_sep_len(rem: Seq<char>, sep: Seq<char>)
    ensures
        starts_with(rem, sep) ==> sep.len() <= rem.len(),
{
}

/// `split_at_top_level(s, sep)`: the first occurrence of `sep` at depth 0.
pub open spec fn split_top(s: Seq<char>, sep: Seq<char>) -> TopSplit {
    if sep.len() == 0 {
        TopSplit::NotFound
    } else {
        scan_top(s, sep, 0, 0)
    }
}


pub enum TopSplitAt {
    At(usize),
    NotFound,
}

/// `split_top` of `v[lo..hi]`; a found position is an index into `v`.
pub fn split_at_top_level(v: &Vec<char>, lo: usize, hi: usize, sep: &Vec<char>) -> (r: TopSplitAt)
    requires
        lo <= hi <= v.len(),
    ensures
        match r {
            TopSplitAt::At(i) => lo <= i && i + sep.len() <= hi && split_top(
                v@.subrange(lo as int, hi as int),
                sep@,
            ) == TopSplit::At(i - lo),
            TopSplitAt::NotFound => split_top(v@.subrange(lo as int, hi as int), sep@)
                == TopSplit::NotFound,
        },
{
    let ghost s = v@.subrange(lo as int, hi as int);
    if sep.len() == 0 {
        return TopSplitAt::NotFound;
    }
    let mut k = lo;
    let mut depth: usize = 0;
    while k < hi && sep.len() <= hi - k
        invariant
            lo <= k <= hi <= v.len(),
            sep.len() > 0,
            s == v@.subrange(lo as int, hi as int),
            depth <= k - lo,
            scan_top(s, sep@, k - lo, depth as nat) == split_top(s, sep@),
        decreases hi - k,
    {
        let ghost rem = s.subrange(k - lo, s.len() as int);
        assert(rem =~= v@.subrange(k as int, hi as int));
        assert(s[k - lo] == v@[k as int]);
        let c = v[k];
        let d: usize = if c == '(' {
            depth + 1
        } else if c == ')' {
            if depth == 0 {
                0
            } else {
                depth - 1
            }
        } else {
            depth
        };
        if d == 0 {
            let hit = matches_at(v, k, hi, sep, 0, sep.len());
            assert(sep@.subrange(0, sep.len() as int) =~= sep@);
            if hit {
                assert(rem.subrange(0, sep.len() as int) =~= v@.subrange(k as int, k + sep.len()));
                return TopSplitAt::At(k);
            }
            assert(!starts_with(rem, sep@)) by {
                if starts_with(rem, sep@) {
                    assert(rem.subrange(0, sep.len() as int) =~= v@.subrange(k as int, k + sep.len()));
                }
            }
        }
        depth = d;
        k += 1;
    }
    TopSplitAt::NotFound
}

} // verus!
