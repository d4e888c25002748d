//! The condition language and its evaluation against a tool call.
//!
//! A condition is one of `contains(parameters, 'text')`,
//! `param_eq(field, 'value')`, `param_ne`, `param_contains`,
//! `param_gt(field, number)`, `param_lt`, `matches(field, 'regex')`,
//! `spend_gt('category', limit)`, `spend_plus_amount_gt('category', field, limit)`,
//! `has_credential('name')`, `has_recent_action('a|b', within)`, `not(c)`,
//! `or(c1 || c2 || ...)` or `or(c1, c2, ...)`, `true`, `false`,
//! `any_of(parameters, 'w1', 'w2', ...)`, `contains_word(parameters, 'word')`,
//! or a bare quoted string (a substring test on the parameters). The first
//! form that applies, in this order, decides.

use vstd::prelude::*;
use crate::text::{
    trim, seq_contains, first_index, parse_u32, lemma_find_from, to_chars, string_of, trim_range,
    find_char, range_contains, parse_u32_range,
};
use crate::syntax::{
    strip_call, unquote, Unquoted, unquote_or_empty, after_first_comma, split_top, scan_top,
    TopSplit, lemma_trim_len, lemma_strip_call_shorter, starts_with_sep_len, strip_fn,
    extract_quoted, UnquotedRange, unquoted_range_matches, split_at_top_level, TopSplitAt,
};
use crate::facts::{QueryView, FactsView, answer_of, HostQuery, HostFacts, answer_view, Pending};
use crate::model::ToolCall;
use crate::json::{json_field_str, param_str};
use crate::pattern::{
    regex_new_outcome, regex_is_match, regex_replace_all, regex_escape, compile_pattern, escape,
    CompiledPattern,
};

verus! {

/// The outcome of evaluating a condition.
pub enum CondStep {
    /// The condition holds or not, or is erroneous.
    Done(Result<bool, Seq<char>>),
    /// A fact is needed from the host first.
    Ask(QueryView),
    /// The text slices out of range (a lone quote taken as a quoted
    /// literal), or the built-in pattern failing to compile.
    Fault,
}

/// The answer recorded for `q`, or a request for it.
pub open spec fn ask_or_answer(f: FactsView, q: QueryView) -> CondStep {
    match answer_of(f, q) {
        Some(a) => CondStep::Done(a),
        None => CondStep::Ask(q),
    }
}

/// The two pieces of `splitn(2, ',')`, when there is a comma.
pub open spec fn comma_split(s: Seq<char>) -> Option<(Seq<char>, Seq<char>)> {
    let i = first_index(s, ',');
    if i < 0 {
        None
    } else {
        Some((s.subrange(0, i), s.subrange(i + 1, s.len() as int)))
    }
}

/// `contains(parameters, 'text')`: the quoted text occurs in the parameters.
pub open spec fn eval_contains(c: Seq<char>, params: Seq<char>) -> Option<CondStep> {
    match strip_call(c, "contains"@) {
        None => None,
        Some(args) => match unquote(after_first_comma(args)) {
            Unquoted::LoneQuote => Some(CondStep::Fault),
            Unquoted::Text(w) => Some(CondStep::Done(Ok(seq_contains(params, w)))),
            Unquoted::NotQuoted => None,
        },
    }
}

/// How a string parameter is compared with a quoted value.
pub enum TextTest {
    Equal,
    NotEqual,
    Contains,
}

/// `param_eq(field, 'v')`, `param_ne(field, 'v')`, `param_contains(field, 'v')`:
/// the string value of the field (empty when absent) compared with `v`
/// (empty when not quoted).
pub open spec fn eval_param_text(
    c: Seq<char>,
    name: Seq<char>,
    test: TextTest,
    params: Seq<char>,
) -> Option<CondStep> {
    match strip_call(c, name) {
        None => None,
        Some(args) => match comma_split(args) {
            None => None,
            Some((a, b)) => {
                let u = unquote(b);
                if u is LoneQuote {
                    Some(CondStep::Fault)
                } else {
                    let actual = json_field_str(params, trim(a));
                    let expected = unquote_or_empty(u);
                    Some(
                        CondStep::Done(
                            Ok(
                                match test {
                                    TextTest::Equal => actual == expected,
                                    TextTest::NotEqual => actual != expected,
                                    TextTest::Contains => seq_contains(actual, expected),
                                },
                            ),
                        ),
                    )
                }
            },
        },
    }
}

/// `param_gt(field, n)` / `param_lt(field, n)`: a numeric comparison the host makes.
pub open spec fn eval_param_number(
    c: Seq<char>,
    name: Seq<char>,
    above: bool,
    facts: FactsView,
) -> Option<CondStep> {
    match strip_call(c, name) {
        None => None,
        Some(args) => match comma_split(args) {
            None => None,
            Some((a, b)) => Some(
                ask_or_answer(
                    facts,
                    if above {
                        QueryView::ParamAbove(trim(a), trim(b))
                    } else {
                        QueryView::ParamBelow(trim(a), trim(b))
                    },
                ),
            ),
        },
    }
}

/// `spend_gt('category', limit)`.
pub open spec fn eval_spend(c: Seq<char>, facts: FactsView) -> Option<CondStep> {
    match strip_call(c, "spend_gt"@) {
        None => None,
        Some(args) => match comma_split(args) {
            None => None,
            Some((a, b)) => {
                let u = unquote(a);
                if u is LoneQuote {
                    Some(CondStep::Fault)
                } else {
                    Some(ask_or_answer(facts, QueryView::SpendAbove(unquote_or_empty(u), trim(b))))
                }
            },
        },
    }
}

/// `spend_plus_amount_gt('category', amount_field, limit)`.
pub open spec fn eval_spend_plus(c: Seq<char>, facts: FactsView) -> Option<CondStep> {
    match strip_call(c, "spend_plus_amount_gt"@) {
        None => None,
        Some(args) => match comma_split(args) {
            None => None,
            Some((a, rest)) => match comma_split(rest) {
                None => None,
                Some((b, d)) => {
                    let u = unquote(a);
                    if u is LoneQuote {
                        Some(CondStep::Fault)
                    } else {
                        Some(
                            ask_or_answer(
                                facts,
                                QueryView::SpendPlusAmountAbove(unquote_or_empty(u), trim(b), trim(d)),
                            ),
                        )
                    }
                },
            },
        },
    }
}

/// `matches(field, 'regex')`: the regex matches the field's string value.
pub open spec fn eval_matches(c: Seq<char>, params: Seq<char>) -> Option<CondStep> {
    match strip_call(c, "matches"@) {
        None => None,
        Some(args) => match comma_split(args) {
            None => None,
            Some((a, b)) => {
                let u = unquote(b);
                if u is LoneQuote {
                    Some(CondStep::Fault)
                } else {
                    let pattern = unquote_or_empty(u);
                    let actual = json_field_str(params, trim(a));
                    Some(
                        match regex_new_outcome(pattern) {
                            Err(e) => CondStep::Done(Err("regex: "@ + e)),
                            Ok(_) => CondStep::Done(Ok(regex_is_match(pattern, actual))),
                        },
                    )
                }
            },
        },
    }
}

/// `has_credential('name')`: false without a vault.
pub open spec fn eval_credential(c: Seq<char>, facts: FactsView) -> Option<CondStep> {
    match strip_call(c, "has_credential"@) {
        None => None,
        Some(args) => {
            let u = unquote(args);
            if u is LoneQuote {
                Some(CondStep::Fault)
            } else if !facts.vault_available {
                Some(CondStep::Done(Ok(false)))
            } else {
                Some(ask_or_answer(facts, QueryView::CredentialExists(unquote_or_empty(u))))
            }
        },
    }
}

/// `has_recent_action('search', within)`: false without a vault; `within`
/// is 50 when it does not parse.
pub open spec fn eval_recent(c: Seq<char>, facts: FactsView) -> Option<CondStep> {
    match strip_call(c, "has_recent_action"@) {
        None => None,
        Some(args) => match comma_split(args) {
            None => None,
            Some((a, b)) => {
                let u = unquote(a);
                if u is LoneQuote {
                    Some(CondStep::Fault)
                } else {
                    let within: u32 = match parse_u32(trim(b)) {
                        Some(n) => n,
                        None => 50,
                    };
                    if !facts.vault_available {
                        Some(CondStep::Done(Ok(false)))
                    } else {
                        Some(
                            ask_or_answer(
                                facts,
                                QueryView::RecentAllowedAction(unquote_or_empty(u), within),
                            ),
                        )
                    }
                }
            },
        },
    }
}

/// The forms tried before `not`, in order.
pub open spec fn eval_leaf(c: Seq<char>, params: Seq<char>, facts: FactsView) -> Option<CondStep> {
    match eval_contains(c, params) {
        Some(r) => Some(r),
        None => match eval_param_text(c, "param_eq"@, TextTest::Equal, params) {
            Some(r) => Some(r),
            None => match eval_param_number(c, "param_gt"@, true, facts) {
                Some(r) => Some(r),
                None => match eval_spend(c, facts) {
                    Some(r) => Some(r),
                    None => match eval_spend_plus(c, facts) {
                        Some(r) => Some(r),
                        None => match eval_param_number(c, "param_lt"@, false, facts) {
                            Some(r) => Some(r),
                            None => match eval_param_text(c, "param_ne"@, TextTest::NotEqual, params) {
                                Some(r) => Some(r),
                                None => match eval_param_text(
                                    c,
                                    "param_contains"@,
                                    TextTest::Contains,
                                    params,
                                ) {
                                    Some(r) => Some(r),
                                    None => match eval_matches(c, params) {
                                        Some(r) => Some(r),
                                        None => match eval_credential(c, facts) {
                                            Some(r) => Some(r),
                                            None => eval_recent(c, facts),
                                        },
                                    },
                                },
                            },
                        },
                    },
                },
            },
        },
    }
}

/// The words of `any_of` from `rest` on: each comma-separated piece that is
/// quoted is a word; whether one of them occurs in the parameters. `None`
/// when a piece is a lone quote.
pub open spec fn any_of_words(rest: Seq<char>, params: Seq<char>) -> Option<bool>
    decreases rest.len(),
{
    let i = first_index(rest, ',');
    let piece = if i < 0 {
        rest
    } else {
        rest.subrange(0, i)
    };
    let u = unquote(piece);
    if u is LoneQuote {
        None
    } else {
        let hit = match u {
            Unquoted::Text(w) => seq_contains(params, w),
            _ => false,
        };
        if i < 0 {
            Some(hit)
        } else {
            proof {
                lemma_find_from(rest, ',', 0);
            }
            match any_of_words(rest.subrange(i + 1, rest.len() as int), params) {
                None => None,
                Some(b) => Some(hit || b),
            }
        }
    }
}

/// The pattern of JSON `\u00XX` escapes of control characters.
pub open spec fn escaped_control_pattern() -> Seq<char> {
    "\\\\u00[0-1][0-9a-fA-F]"@
}

/// The case-insensitive, word-bounded pattern for `word`.
pub open spec fn word_pattern(word: Seq<char>) -> Seq<char> {
    "(?i)\\b"@ + regex_escape(word) + "\\b"@
}

/// `contains_word(parameters, 'word')`: the word occurs case-insensitively
/// between word boundaries in the parameters, after each escaped control
/// character has been turned into a space.
pub open spec fn eval_word(word: Seq<char>, params: Seq<char>) -> CondStep {
    match regex_new_outcome(escaped_control_pattern()) {
        Err(_) => CondStep::Fault,
        Ok(_) => {
            let normalized = regex_replace_all(escaped_control_pattern(), params, " "@);
            match regex_new_outcome(word_pattern(word)) {
                Err(e) => CondStep::Done(Err("regex: "@ + e)),
                Ok(_) => CondStep::Done(Ok(regex_is_match(word_pattern(word), normalized))),
            }
        },
    }
}

/// The forms tried after `or`, in order, ending with the bare quoted string.
pub open spec fn eval_tail(c: Seq<char>, params: Seq<char>) -> CondStep {
    if c == "true"@ {
        CondStep::Done(Ok(true))
    } else if c == "false"@ {
        CondStep::Done(Ok(false))
    } else {
        match strip_call(c, "any_of"@) {
            Some(args) => {
                let i = first_index(args, ',');
                if i < 0 {
                    CondStep::Done(Ok(false))
                } else {
                    match any_of_words(args.subrange(i + 1, args.len() as int), params) {
                        None => CondStep::Fault,
                        Some(b) => CondStep::Done(Ok(b)),
                    }
                }
            },
            None => {
                let word = match strip_call(c, "contains_word"@) {
                    Some(args) => unquote(after_first_comma(args)),
                    None => Unquoted::NotQuoted,
                };
                match word {
                    Unquoted::LoneQuote => CondStep::Fault,
                    Unquoted::Text(w) => eval_word(w, params),
                    Unquoted::NotQuoted => match unquote(c) {
                        Unquoted::LoneQuote => CondStep::Fault,
                        Unquoted::Text(s) => CondStep::Done(Ok(seq_contains(params, s))),
                        Unquoted::NotQuoted => CondStep::Done(Err("Unknown condition: "@ + c)),
                    },
                }
            },
        }
    }
}

/// `not` of an outcome.
pub open spec fn negate(s: CondStep) -> CondStep {
    match s {
        CondStep::Done(Ok(b)) => CondStep::Done(Ok(!b)),
        other => other,
    }
}

/// `or`'s separator: ` || ` when it occurs in the arguments, else `, `.
pub open spec fn or_separator(args: Seq<char>) -> Seq<char> {
    if seq_contains(args, " || "@) {
        " || "@
    } else {
        ", "@
    }
}

/// The value of `cond` for a call whose JSON parameters are `params`.
pub open spec fn eval_condition(cond: Seq<char>, params: Seq<char>, facts: FactsView) -> CondStep
    decreases cond.len(), 0nat,
{
    let c = trim(cond);
    match eval_leaf(c, params, facts) {
        Some(step) => step,
        None => match strip_call(c, "not"@) {
            Some(inner) => {
                proof {
                    lemma_trim_len(cond);
                    lemma_strip_call_shorter(c, "not"@);
                }
                negate(eval_condition(inner, params, facts))
            },
            None => match strip_call(c, "or"@) {
                Some(args) => {
                    proof {
                        lemma_trim_len(cond);
                        lemma_strip_call_shorter(c, "or"@);
                    }
                    eval_or(args, or_separator(args), params, facts)
                },
                None => eval_tail(c, params),
            },
        },
    }
}

/// `or`: the branches between top-level separators, left to right; the
/// first that holds decides, an error or a request stops the walk.
pub open spec fn eval_or(rem: Seq<char>, sep: Seq<char>, params: Seq<char>, facts: FactsView) -> CondStep
    decreases rem.len(), 1nat,
{
    match split_top(rem, sep) {
        TopSplit::NotFound => {
            proof {
                lemma_trim_len(rem);
            }
            eval_condition(trim(rem), params, facts)
        },
        TopSplit::At(k) => {
            proof {
                lemma_split_top_at(rem, sep);
                lemma_trim_len(rem.subrange(0, k));
            }
            match eval_condition(trim(rem.subrange(0, k)), params, facts) {
                CondStep::Done(Ok(true)) => CondStep::Done(Ok(true)),
                CondStep::Done(Ok(false)) => eval_or(
                    rem.subrange(k + sep.len(), rem.len() as int),
                    sep,
                    params,
                    facts,
                ),
                other => other,
            }
        },
    }
}

pub proof fn lemma_scan_top_at(s: Seq<char>, sep: Seq<char>, k: int, depth: nat)
    requires
        0 <= k,
    ensures
        scan_top(s, sep, k, depth) matches TopSplit::At(i) ==> k <= i && i + sep.len() <= s.len(),
    decreases s.len() - k,
{
    if k < s.len() && k + sep.len() <= s.len() {
        lemma_scan_top_at(s, sep, k + 1, crate::syntax::depth_after(depth, s[k]));
    }
}

pub proof fn lemma_split_top_at(s: Seq<char>, sep: Seq<char>)
    ensures
        split_top(s, sep) matches TopSplit::At(i) ==> 0 <= i && 0 < sep.len() && i + sep.len()
            <= s.len(),
{
    lemma_scan_top_at(s, sep, 0, 0);
}


/// `a` followed by `b`.
pub fn concat(a: &str, b: &str) -> (r: String)
    ensures
        r@ == a@ + b@,
{
    let mut r = a.to_owned();
    r.append(b);
    r
}

/// An outcome of evaluation in executable form.
pub enum CondOut {
    Done(Result<bool, String>),
    Ask(HostQuery),
    Fault,
}

pub open spec fn out_matches(o: CondOut, s: CondStep) -> bool {
    match (o, s) {
        (CondOut::Done(r), CondStep::Done(t)) => answer_view(r) == t,
        (CondOut::Ask(q), CondStep::Ask(v)) => q@ == v,
        (CondOut::Fault, CondStep::Fault) => true,
        _ => false,
    }
}

pub open spec fn opt_out_matches(o: Option<CondOut>, s: Option<CondStep>) -> bool {
    match (o, s) {
        (Some(a), Some(b)) => out_matches(a, b),
        (None, None) => true,
        _ => false,
    }
}

/// The piece after the first comma of `v[lo..hi]`, or the whole range.
fn after_first_comma_range(v: &Vec<char>, lo: usize, hi: usize) -> (r: (usize, usize))
    requires
        lo <= hi <= v.len(),
    ensures
        lo <= r.0 <= r.1 <= hi,
        v@.subrange(r.0 as int, r.1 as int) == after_first_comma(v@.subrange(lo as int, hi as int)),
{
    match find_char(v, lo, hi, ',') {
        None => (lo, hi),
        Some(i) => {
            assert(v@.subrange(lo as int, hi as int).subrange(i - lo + 1, hi - lo) =~= v@.subrange(
                i + 1,
                hi as int,
            ));
            (i + 1, hi)
        },
    }
}

/// `comma_split` of `v[lo..hi]`: the index of the first comma.
fn comma_range(v: &Vec<char>, lo: usize, hi: usize) -> (r: Option<usize>)
    requires
        lo <= hi <= v.len(),
    ensures
        match r {
            Some(i) => lo <= i < hi && comma_split(v@.subrange(lo as int, hi as int)) == Some(
                (v@.subrange(lo as int, i as int), v@.subrange(i + 1, hi as int)),
            ),
            None => comma_split(v@.subrange(lo as int, hi as int)) is None,
        },
{
    match find_char(v, lo, hi, ',') {
        None => None,
        Some(i) => {
            assert(v@.subrange(lo as int, hi as int).subrange(i - lo + 1, hi - lo) =~= v@.subrange(
                i + 1,
                hi as int,
            ));
            assert(v@.subrange(lo as int, hi as int).subrange(0, i - lo) =~= v@.subrange(
                lo as int,
                i as int,
            ));
            Some(i)
        },
    }
}

/// The unquoted text as a string (empty when not quoted).
fn unquoted_string(v: &Vec<char>, u: &UnquotedRange) -> (r: String)
    requires
        *u matches UnquotedRange::Text(a, b) ==> a <= b <= v.len(),
    ensures
        match u {
            UnquotedRange::Text(a, b) => r@ == v@.subrange(*a as int, *b as int),
            _ => r@ == Seq::<char>::empty(),
        },
{
    match u {
        UnquotedRange::Text(a, b) => string_of(v, *a, *b),
        _ => String::new(),
    }
}

/// The answer recorded for `q`, or a request for it.
fn ask_or_answer_exec(facts: &HostFacts, q: HostQuery) -> (r: CondOut)
    ensures
        out_matches(r, ask_or_answer(facts@, q@)),
{
    match facts.lookup(&q) {
        Some(a) => CondOut::Done(a),
        None => CondOut::Ask(q),
    }
}

fn exec_contains(cv: &Vec<char>, lo: usize, hi: usize, pv: &Vec<char>) -> (r: Option<CondOut>)
    requires
        lo <= hi <= cv.len(),
    ensures
        opt_out_matches(r, eval_contains(cv@.subrange(lo as int, hi as int), pv@)),
{
    let name = to_chars("contains");
    match strip_fn(cv, lo, hi, &name) {
        None => None,
        Some((a, b)) => {
            let (sa, sb) = after_first_comma_range(cv, a, b);
            match extract_quoted(cv, sa, sb) {
                UnquotedRange::LoneQuote => Some(CondOut::Fault),
                UnquotedRange::NotQuoted => None,
                UnquotedRange::Text(x, y) => {
                    assert(pv@.subrange(0, pv.len() as int) =~= pv@);
                    Some(CondOut::Done(Ok(range_contains(pv, 0, pv.len(), cv, x, y))))
                },
            }
        },
    }
}

fn exec_param_text(
    cv: &Vec<char>,
    lo: usize,
    hi: usize,
    name: &str,
    test: TextTest,
    params: &str,
) -> (r: Option<CondOut>)
    requires
        lo <= hi <= cv.len(),
    ensures
        opt_out_matches(r, eval_param_text(cv@.subrange(lo as int, hi as int), name@, test, params@)),
{
    let name_chars = to_chars(name);
    match strip_fn(cv, lo, hi, &name_chars) {
        None => None,
        Some((a, b)) => match comma_range(cv, a, b) {
            None => None,
            Some(i) => {
                let u = extract_quoted(cv, i + 1, b);
                if let UnquotedRange::LoneQuote = u {
                    return Some(CondOut::Fault);
                }
                let (fa, fb) = trim_range(cv, a, i);
                let field = string_of(cv, fa, fb);
                let actual = param_str(params, field.as_str());
                let expected = unquoted_string(cv, &u);
                proof {
                    let e = unquote(cv@.subrange(i + 1, b as int));
                    assert(expected@ == unquote_or_empty(e));
                }
                let holds = match test {
                    TextTest::Equal => actual == expected,
                    TextTest::NotEqual => !(actual == expected),
                    TextTest::Contains => {
                        let ac = to_chars(actual.as_str());
                        let ec = to_chars(expected.as_str());
                        assert(ac@.subrange(0, ac.len() as int) =~= ac@);
                        assert(ec@.subrange(0, ec.len() as int) =~= ec@);
                        range_contains(&ac, 0, ac.len(), &ec, 0, ec.len())
                    },
                };
                Some(CondOut::Done(Ok(holds)))
            },
        },
    }
}


fn exec_param_number(
    cv: &Vec<char>,
    lo: usize,
    hi: usize,
    name: &str,
    above: bool,
    facts: &HostFacts,
) -> (r: Option<CondOut>)
    requires
        lo <= hi <= cv.len(),
    ensures
        opt_out_matches(r, eval_param_number(cv@.subrange(lo as int, hi as int), name@, above, facts@)),
{
    let name_chars = to_chars(name);
    match strip_fn(cv, lo, hi, &name_chars) {
        None => None,
        Some((a, b)) => match comma_range(cv, a, b) {
            None => None,
            Some(i) => {
                let (fa, fb) = trim_range(cv, a, i);
                let (ta, tb) = trim_range(cv, i + 1, b);
                let field = string_of(cv, fa, fb);
                let threshold = string_of(cv, ta, tb);
                let q = if above {
                    HostQuery::ParamAbove { field, threshold }
                } else {
                    HostQuery::ParamBelow { field, threshold }
                };
                Some(ask_or_answer_exec(facts, q))
            },
        },
    }
}

fn exec_spend(cv: &Vec<char>, lo: usize, hi: usize, facts: &HostFacts) -> (r: Option<CondOut>)
    requires
        lo <= hi <= cv.len(),
    ensures
        opt_out_matches(r, eval_spend(cv@.subrange(lo as int, hi as int), facts@)),
{
    let name_chars = to_chars("spend_gt");
    match strip_fn(cv, lo, hi, &name_chars) {
        None => None,
        Some((a, b)) => match comma_range(cv, a, b) {
            None => None,
            Some(i) => {
                let u = extract_quoted(cv, a, i);
                if let UnquotedRange::LoneQuote = u {
                    return Some(CondOut::Fault);
                }
                let category = unquoted_string(cv, &u);
                let (ta, tb) = trim_range(cv, i + 1, b);
                let limit = string_of(cv, ta, tb);
                Some(ask_or_answer_exec(facts, HostQuery::SpendAbove { category, limit }))
            },
        },
    }
}

fn exec_spend_plus(cv: &Vec<char>, lo: usize, hi: usize, facts: &HostFacts) -> (r: Option<CondOut>)
    requires
        lo <= hi <= cv.len(),
    ensures
        opt_out_matches(r, eval_spend_plus(cv@.subrange(lo as int, hi as int), facts@)),
{
    let name_chars = to_chars("spend_plus_amount_gt");
    match strip_fn(cv, lo, hi, &name_chars) {
        None => None,
        Some((a, b)) => match comma_range(cv, a, b) {
            None => None,
            Some(i) => match comma_range(cv, i + 1, b) {
                None => None,
                Some(j) => {
                    let u = extract_quoted(cv, a, i);
                    if let UnquotedRange::LoneQuote = u {
                        return Some(CondOut::Fault);
                    }
                    let category = unquoted_string(cv, &u);
                    let (fa, fb) = trim_range(cv, i + 1, j);
                    let (ta, tb) = trim_range(cv, j + 1, b);
                    let amount_field = string_of(cv, fa, fb);
                    let limit = string_of(cv, ta, tb);
                    Some(
                        ask_or_answer_exec(
                            facts,
                            HostQuery::SpendPlusAmountAbove { category, amount_field, limit },
                        ),
                    )
                },
            },
        },
    }
}

fn exec_matches(cv: &Vec<char>, lo: usize, hi: usize, params: &str) -> (r: Option<CondOut>)
    requires
        lo <= hi <= cv.len(),
    ensures
        opt_out_matches(r, eval_matches(cv@.subrange(lo as int, hi as int), params@)),
{
    let name_chars = to_chars("matches");
    match strip_fn(cv, lo, hi, &name_chars) {
        None => None,
        Some((a, b)) => match comma_range(cv, a, b) {
            None => None,
            Some(i) => {
                let u = extract_quoted(cv, i + 1, b);
                if let UnquotedRange::LoneQuote = u {
                    return Some(CondOut::Fault);
                }
                let pattern = unquoted_string(cv, &u);
                let (fa, fb) = trim_range(cv, a, i);
                let field = string_of(cv, fa, fb);
                let actual = param_str(params, field.as_str());
                match compile_pattern(pattern.as_str()) {
                    Err(e) => Some(CondOut::Done(Err(concat("regex: ", e.as_str())))),
                    Ok(re) => Some(CondOut::Done(Ok(re.is_match(actual.as_str())))),
                }
            },
        },
    }
}

fn exec_credential(cv: &Vec<char>, lo: usize, hi: usize, facts: &HostFacts) -> (r: Option<CondOut>)
    requires
        lo <= hi <= cv.len(),
    ensures
        opt_out_matches(r, eval_credential(cv@.subrange(lo as int, hi as int), facts@)),
{
    let name_chars = to_chars("has_credential");
    match strip_fn(cv, lo, hi, &name_chars) {
        None => None,
        Some((a, b)) => {
            let u = extract_quoted(cv, a, b);
            if let UnquotedRange::LoneQuote = u {
                return Some(CondOut::Fault);
            }
            if !facts.vault_available {
                return Some(CondOut::Done(Ok(false)));
            }
            let name = unquoted_string(cv, &u);
            Some(ask_or_answer_exec(facts, HostQuery::CredentialExists { name }))
        },
    }
}

fn exec_recent(cv: &Vec<char>, lo: usize, hi: usize, facts: &HostFacts) -> (r: Option<CondOut>)
    requires
        lo <= hi <= cv.len(),
    ensures
        opt_out_matches(r, eval_recent(cv@.subrange(lo as int, hi as int), facts@)),
{
    let name_chars = to_chars("has_recent_action");
    match strip_fn(cv, lo, hi, &name_chars) {
        None => None,
        Some((a, b)) => match comma_range(cv, a, b) {
            None => None,
            Some(i) => {
                let u = extract_quoted(cv, a, i);
                if let UnquotedRange::LoneQuote = u {
                    return Some(CondOut::Fault);
                }
                let (ta, tb) = trim_range(cv, i + 1, b);
                let within: u32 = match parse_u32_range(cv, ta, tb) {
                    Some(n) => n,
                    None => 50,
                };
                if !facts.vault_available {
                    return Some(CondOut::Done(Ok(false)));
                }
                let search = unquoted_string(cv, &u);
                Some(ask_or_answer_exec(facts, HostQuery::RecentAllowedAction { search, within }))
            },
        },
    }
}

fn exec_leaf(cv: &Vec<char>, lo: usize, hi: usize, params: &str, pv: &Vec<char>, facts: &HostFacts) -> (r: Option<CondOut>)
    requires
        lo <= hi <= cv.len(),
        pv@ == params@,
    ensures
        opt_out_matches(r, eval_leaf(cv@.subrange(lo as int, hi as int), params@, facts@)),
{
    let r = exec_contains(cv, lo, hi, pv);
    if r.is_some() {
        return r;
    }
    let r = exec_param_text(cv, lo, hi, "param_eq", TextTest::Equal, params);
    if r.is_some() {
        return r;
    }
    let r = exec_param_number(cv, lo, hi, "param_gt", true, facts);
    if r.is_some() {
        return r;
    }
    let r = exec_spend(cv, lo, hi, facts);
    if r.is_some() {
        return r;
    }
    let r = exec_spend_plus(cv, lo, hi, facts);
    if r.is_some() {
        return r;
    }
    let r = exec_param_number(cv, lo, hi, "param_lt", false, facts);
    if r.is_some() {
        return r;
    }
    let r = exec_param_text(cv, lo, hi, "param_ne", TextTest::NotEqual, params);
    if r.is_some() {
        return r;
    }
    let r = exec_param_text(cv, lo, hi, "param_contains", TextTest::Contains, params);
    if r.is_some() {
        return r;
    }
    let r = exec_matches(cv, lo, hi, params);
    if r.is_some() {
        return r;
    }
    let r = exec_credential(cv, lo, hi, facts);
    if r.is_some() {
        return r;
    }
    exec_recent(cv, lo, hi, facts)
}


fn exec_any_of_words(cv: &Vec<char>, lo: usize, hi: usize, pv: &Vec<char>) -> (r: Option<bool>)
    requires
        lo <= hi <= cv.len(),
    ensures
        r == any_of_words(cv@.subrange(lo as int, hi as int), pv@),
    decreases hi - lo,
{
    let ghost rest = cv@.subrange(lo as int, hi as int);
    let comma = find_char(cv, lo, hi, ',');
    let pe = match comma {
        None => hi,
        Some(i) => i,
    };
    proof {
        lemma_find_from(rest, ',', 0);
        if comma is Some {
            assert(rest.subrange(0, pe - lo) =~= cv@.subrange(lo as int, pe as int));
            assert(rest.subrange(pe - lo + 1, rest.len() as int) =~= cv@.subrange(pe + 1, hi as int));
        } else {
            assert(rest =~= cv@.subrange(lo as int, pe as int));
        }
    }
    let u = extract_quoted(cv, lo, pe);
    if let UnquotedRange::LoneQuote = u {
        return None;
    }
    assert(pv@.subrange(0, pv.len() as int) =~= pv@);
    let hit = match u {
        UnquotedRange::Text(x, y) => range_contains(pv, 0, pv.len(), cv, x, y),
        _ => false,
    };
    match comma {
        None => Some(hit),
        Some(i) => match exec_any_of_words(cv, i + 1, hi, pv) {
            None => None,
            Some(b) => Some(hit || b),
        },
    }
}

/// Regexes compiled ahead of evaluation for `contains_word`: the pattern of
/// escaped control characters, and the word patterns of some words. Each
/// entry is the compilation of exactly that pattern, which compiled.
#[derive(Debug)]
pub struct WordPatterns {
    normalizer: Option<CompiledPattern>,
    words: Vec<(String, CompiledPattern)>,
}

/// What a `WordPatterns` holds: whether the pattern of escaped control
/// characters is compiled, and the words whose patterns are, in order.
pub struct WordPatternsView {
    pub normalizer: bool,
    pub words: Seq<Seq<char>>,
}

/// The words of `entries`.
spec fn entry_words(entries: Seq<(String, CompiledPattern)>) -> Seq<Seq<char>> {
    entries.map_values(|e: (String, CompiledPattern)| e.0@)
}

impl View for WordPatterns {
    type V = WordPatternsView;

    closed spec fn view(&self) -> WordPatternsView {
        WordPatternsView { normalizer: self.normalizer is Some, words: entry_words(self.words@) }
    }
}

/// The words of `words` whose word pattern compiles, in order.
pub open spec fn compilable_words(words: Seq<Seq<char>>) -> Seq<Seq<char>> {
    words.filter(|w: Seq<char>| regex_new_outcome(word_pattern(w)) is Ok)
}

impl WordPatterns {
    #[verifier::type_invariant]
    spec fn well_formed(self) -> bool {
        &&& (self.normalizer matches Some(p) ==> p@ == escaped_control_pattern() && regex_new_outcome(p@) is Ok)
        &&& forall|i: int|
            0 <= i < self.words.len() ==> #[trigger] self.words@[i].1@ == word_pattern(self.words@[i].0@)
                && regex_new_outcome(self.words@[i].1@) is Ok
    }

    /// No precompiled patterns.
    pub(crate) fn empty() -> (r: Self)
        ensures
            !r@.normalizer,
            r@.words.len() == 0,
    {
        let r = WordPatterns { normalizer: None, words: Vec::new() };
        assert(entry_words(r.words@) =~= Seq::<Seq<char>>::empty());
        r
    }

    /// Precompiles the pattern of escaped control characters (when it
    /// compiles) and the patterns of the given words (those that compile).
    pub(crate) fn for_words(words: &Vec<String>) -> (r: Self)
        ensures
            r@.normalizer == (regex_new_outcome(escaped_control_pattern()) is Ok),
            r@.words == compilable_words(crate::model::strings_view(words@)),
    {
        let normalizer = match compile_pattern("\\\\u00[0-1][0-9a-fA-F]") {
            Ok(p) => Some(p),
            Err(_) => None,
        };
        let ghost sv = crate::model::strings_view(words@);
        let mut compiled: Vec<(String, CompiledPattern)> = Vec::new();
        let mut i: usize = 0;
        assert(entry_words(compiled@) =~= compilable_words(sv.take(0))) by {
            reveal(Seq::filter);
        }
        while i < words.len()
            invariant
                i <= words.len(),
                sv == crate::model::strings_view(words@),
                entry_words(compiled@) == compilable_words(sv.take(i as int)),
                forall|j: int|
                    0 <= j < compiled.len() ==> #[trigger] compiled@[j].1@ == word_pattern(compiled@[j].0@)
                        && regex_new_outcome(compiled@[j].1@) is Ok,
            decreases words.len() - i,
        {
            proof {
                reveal(Seq::filter);
                assert(sv.take(i + 1).drop_last() =~= sv.take(i as int));
                assert(sv.take(i + 1).last() == words@[i as int]@);
            }
            let w = &words[i];
            let escaped = escape(w.as_str());
            let head = concat("(?i)\\b", escaped.as_str());
            let pattern = concat(head.as_str(), "\\b");
            match compile_pattern(pattern.as_str()) {
                Ok(p) => {
                    let ghost prev = compiled@;
                    let wc = w.clone();
                    compiled.push((wc, p));
                    assert(entry_words(compiled@) =~= entry_words(prev).push(w@));
                },
                Err(_) => {},
            }
            i += 1;
        }
        assert(sv.take(words.len() as int) =~= sv);
        WordPatterns { normalizer, words: compiled }
    }

    fn normalizer(&self) -> (r: Option<&CompiledPattern>)
        ensures
            r is Some <==> self@.normalizer,
            r matches Some(p) ==> p@ == escaped_control_pattern() && regex_new_outcome(p@) is Ok,
    {
        proof {
            use_type_invariant(self);
        }
        match &self.normalizer {
            Some(p) => Some(p),
            None => None,
        }
    }

    fn lookup(&self, word: &String) -> (r: Option<&CompiledPattern>)
        ensures
            r is Some <==> self@.words.contains(word@),
            r matches Some(p) ==> p@ == word_pattern(word@) && regex_new_outcome(p@) is Ok,
    {
        proof {
            use_type_invariant(self);
        }
        let ghost ws = entry_words(self.words@);
        let mut i: usize = 0;
        while i < self.words.len()
            invariant
                i <= self.words.len(),
                ws == entry_words(self.words@),
                forall|j: int| 0 <= j < i ==> ws[j] != word@,
                forall|j: int|
                    0 <= j < self.words.len() ==> #[trigger] self.words@[j].1@ == word_pattern(self.words@[j].0@)
                        && regex_new_outcome(self.words@[j].1@) is Ok,
            decreases self.words.len() - i,
        {
            assert(ws[i as int] == self.words@[i as int].0@);
            if self.words[i].0 == *word {
                assert(self.words@[i as int].1@ == word_pattern(self.words@[i as int].0@));
                assert(ws[i as int] == word@);
                return Some(&self.words[i].1);
            }
            i += 1;
        }
        None
    }
}

fn word_after_normalizer(norm: &CompiledPattern, word: &str, params: &str, cache: &WordPatterns) -> (r: CondOut)
    requires
        norm@ == escaped_control_pattern(),
        regex_new_outcome(norm@) is Ok,
    ensures
        out_matches(r, eval_word(word@, params@)),
{
    let normalized = norm.replace_all(params, " ");
    let w = word.to_owned();
    match cache.lookup(&w) {
        Some(re) => CondOut::Done(Ok(re.is_match(normalized.as_str()))),
        None => {
            let escaped = escape(word);
            let head = concat("(?i)\\b", escaped.as_str());
            let pattern = concat(head.as_str(), "\\b");
            match compile_pattern(pattern.as_str()) {
                Err(e) => CondOut::Done(Err(concat("regex: ", e.as_str()))),
                Ok(re) => CondOut::Done(Ok(re.is_match(normalized.as_str()))),
            }
        },
    }
}

fn exec_word(word: &str, params: &str, cache: &WordPatterns) -> (r: CondOut)
    ensures
        out_matches(r, eval_word(word@, params@)),
{
    match cache.normalizer() {
        Some(norm) => word_after_normalizer(norm, word, params, cache),
        None => match compile_pattern("\\\\u00[0-1][0-9a-fA-F]") {
            Err(_) => CondOut::Fault,
            Ok(norm) => word_after_normalizer(&norm, word, params, cache),
        },
    }
}

/// The word of a `contains_word(` call that starts at `i` in `c`: the
/// quoted text after the first comma before the call's first `)`.
pub open spec fn word_at(c: Seq<char>, i: int) -> Option<Seq<char>> {
    let name = "contains_word("@;
    if 0 <= i && i + name.len() <= c.len() && c.subrange(i, i + name.len()) == name {
        let open = i + name.len();
        let k = first_index(c.subrange(open, c.len() as int), ')');
        if k < 0 {
            None
        } else {
            match unquote(after_first_comma(c.subrange(open, open + k))) {
                Unquoted::Text(w) => Some(w),
                _ => None,
            }
        }
    } else {
        None
    }
}

/// `acc` with `w` appended, unless `w` is already in it.
pub open spec fn add_unique(acc: Seq<Seq<char>>, w: Seq<char>) -> Seq<Seq<char>> {
    if acc.contains(w) {
        acc
    } else {
        acc.push(w)
    }
}

/// `acc` with the words of the calls that start before position `i` of `c`
/// added, in order.
pub open spec fn scan_words(acc: Seq<Seq<char>>, c: Seq<char>, i: int) -> Seq<Seq<char>>
    decreases i,
{
    if i <= 0 {
        acc
    } else {
        let a = scan_words(acc, c, i - 1);
        match word_at(c, i - 1) {
            Some(w) => add_unique(a, w),
            None => a,
        }
    }
}

/// The `contains_word` words of the first `n` conditions, in order of
/// appearance, each once.
pub open spec fn condition_words(conds: Seq<Seq<char>>, n: int) -> Seq<Seq<char>>
    decreases n,
{
    if n <= 0 || n > conds.len() {
        Seq::empty()
    } else {
        scan_words(condition_words(conds, n - 1), conds[n - 1], conds[n - 1].len() as int)
    }
}

/// The words that conditions pass to `contains_word`, as far as a scan for
/// `contains_word(` finds them, without repeats.
pub(crate) fn contains_word_arguments(conditions: &Vec<String>) -> (r: Vec<String>)
    ensures
        crate::model::strings_view(r@) == condition_words(
            crate::model::strings_view(conditions@),
            conditions.len() as int,
        ),
{
    let ghost sv = crate::model::strings_view(conditions@);
    let mut words: Vec<String> = Vec::new();
    let name = to_chars("contains_word(");
    let mut c: usize = 0;
    assert(crate::model::strings_view(words@) =~= Seq::<Seq<char>>::empty());
    while c < conditions.len()
        invariant
            c <= conditions.len(),
            sv == crate::model::strings_view(conditions@),
            name@ == "contains_word("@,
            crate::model::strings_view(words@) == condition_words(sv, c as int),
        decreases conditions.len() - c,
    {
        let cv = to_chars(conditions[c].as_str());
        assert(cv@ == sv[c as int]);
        let ghost base = condition_words(sv, c as int);
        let mut i: usize = 0;
        while i < cv.len()
            invariant
                i <= cv.len(),
                name@ == "contains_word("@,
                crate::model::strings_view(words@) == scan_words(base, cv@, i as int),
            decreases cv.len() - i,
        {
            let ghost before = crate::model::strings_view(words@);
            assert(name@.subrange(0, name.len() as int) =~= name@);
            if crate::text::matches_at(&cv, i, cv.len(), &name, 0, name.len()) {
                let open = i + name.len();
                match find_char(&cv, open, cv.len(), ')') {
                    None => {},
                    Some(close) => {
                        assert(cv@.subrange(open as int, cv.len() as int).subrange(0, close - open)
                            =~= cv@.subrange(open as int, close as int));
                        let (sa, sb) = after_first_comma_range(&cv, open, close);
                        match extract_quoted(&cv, sa, sb) {
                            UnquotedRange::Text(x, y) => {
                                let w = string_of(&cv, x, y);
                                let mut seen = false;
                                let mut k: usize = 0;
                                while k < words.len()
                                    invariant
                                        k <= words.len(),
                                        before == crate::model::strings_view(words@),
                                        seen == exists|j: int| 0 <= j < k && #[trigger] before[j] == w@,
                                    decreases words.len() - k,
                                {
                                    assert(before[k as int] == words@[k as int]@);
                                    if words[k] == w {
                                        seen = true;
                                    }
                                    k += 1;
                                }
                                if !seen {
                                    words.push(w);
                                    assert(crate::model::strings_view(words@) =~= before.push(w@));
                                } else {
                                    assert(before.contains(w@));
                                }
                            },
                            _ => {},
                        }
                    },
                }
            }
            i += 1;
        }
        c += 1;
    }
    words
}

/// Whether `v[lo..hi]` is exactly `p`.
fn range_equals(v: &Vec<char>, lo: usize, hi: usize, p: &Vec<char>) -> (b: bool)
    requires
        lo <= hi <= v.len(),
    ensures
        b == (v@.subrange(lo as int, hi as int) == p@),
{
    if hi - lo != p.len() {
        return false;
    }
    let r = matches_at_all(v, lo, hi, p);
    r
}

fn matches_at_all(v: &Vec<char>, lo: usize, hi: usize, p: &Vec<char>) -> (b: bool)
    requires
        lo <= hi <= v.len(),
        hi - lo == p.len(),
    ensures
        b == (v@.subrange(lo as int, hi as int) == p@),
{
    assert(p@.subrange(0, p.len() as int) =~= p@);
    crate::text::matches_at(v, lo, hi, p, 0, p.len())
}

fn exec_tail(cv: &Vec<char>, lo: usize, hi: usize, params: &str, pv: &Vec<char>, cache: &WordPatterns) -> (r: CondOut)
    requires
        lo <= hi <= cv.len(),
        pv@ == params@,
    ensures
        out_matches(r, eval_tail(cv@.subrange(lo as int, hi as int), params@)),
{
    let ghost c = cv@.subrange(lo as int, hi as int);
    if range_equals(cv, lo, hi, &to_chars("true")) {
        return CondOut::Done(Ok(true));
    }
    if range_equals(cv, lo, hi, &to_chars("false")) {
        return CondOut::Done(Ok(false));
    }
    match strip_fn(cv, lo, hi, &to_chars("any_of")) {
        Some((a, b)) => {
            return match find_char(cv, a, b, ',') {
                None => CondOut::Done(Ok(false)),
                Some(i) => {
                    assert(cv@.subrange(a as int, b as int).subrange(i - a + 1, b - a) =~= cv@.subrange(
                        i + 1,
                        b as int,
                    ));
                    match exec_any_of_words(cv, i + 1, b, pv) {
                        None => CondOut::Fault,
                        Some(found) => CondOut::Done(Ok(found)),
                    }
                },
            };
        },
        None => {},
    }
    let word = match strip_fn(cv, lo, hi, &to_chars("contains_word")) {
        Some((a, b)) => {
            let (sa, sb) = after_first_comma_range(cv, a, b);
            extract_quoted(cv, sa, sb)
        },
        None => UnquotedRange::NotQuoted,
    };
    match word {
        UnquotedRange::LoneQuote => CondOut::Fault,
        UnquotedRange::Text(x, y) => {
            let w = string_of(cv, x, y);
            exec_word(w.as_str(), params, cache)
        },
        UnquotedRange::NotQuoted => match extract_quoted(cv, lo, hi) {
            UnquotedRange::LoneQuote => CondOut::Fault,
            UnquotedRange::Text(x, y) => {
                assert(pv@.subrange(0, pv.len() as int) =~= pv@);
                CondOut::Done(Ok(range_contains(pv, 0, pv.len(), cv, x, y)))
            },
            UnquotedRange::NotQuoted => {
                let text = string_of(cv, lo, hi);
                CondOut::Done(Err(concat("Unknown condition: ", text.as_str())))
            },
        },
    }
}

fn negate_out(o: CondOut) -> (r: CondOut)
    ensures
        forall|s: CondStep| out_matches(o, s) ==> out_matches(r, negate(s)),
{
    match o {
        CondOut::Done(Ok(b)) => CondOut::Done(Ok(!b)),
        other => other,
    }
}

/// `eval_condition` of `cv[lo..hi]`.
fn eval_range(
    cv: &Vec<char>,
    lo: usize,
    hi: usize,
    params: &str,
    pv: &Vec<char>,
    facts: &HostFacts,
    cache: &WordPatterns,
) -> (r: CondOut)
    requires
        lo <= hi <= cv.len(),
        pv@ == params@,
    ensures
        out_matches(r, eval_condition(cv@.subrange(lo as int, hi as int), params@, facts@)),
    decreases hi - lo,
{
    let ghost cond = cv@.subrange(lo as int, hi as int);
    let (a, b) = trim_range(cv, lo, hi);
    let ghost c = cv@.subrange(a as int, b as int);
    if let Some(r) = exec_leaf(cv, a, b, params, pv, facts) {
        return r;
    }
    match strip_fn(cv, a, b, &to_chars("not")) {
        Some((x, y)) => {
            proof {
                lemma_strip_call_shorter(c, "not"@);
            }
            let inner = eval_range(cv, x, y, params, pv, facts, cache);
            return negate_out(inner);
        },
        None => {},
    }
    match strip_fn(cv, a, b, &to_chars("or")) {
        Some((x, y)) => {
            proof {
                lemma_strip_call_shorter(c, "or"@);
            }
            let bar = to_chars(" || ");
            let sep = if range_contains(cv, x, y, &bar, 0, bar.len()) {
                bar
            } else {
                to_chars(", ")
            };
            proof {
                assert(bar@.subrange(0, bar.len() as int) =~= bar@);
                reveal_strlit(" || ");
                reveal_strlit(", ");
            }
            let mut cur = x;
            loop
                invariant
                    lo <= a <= x <= cur <= y <= b <= hi <= cv.len(),
                    y - x + 2 <= hi - lo,
                    sep.len() > 0,
                    pv@ == params@,
                    eval_or(cv@.subrange(cur as int, y as int), sep@, params@, facts@)
                        == eval_condition(cv@.subrange(lo as int, hi as int), params@, facts@),
                decreases y - cur,
            {
                let ghost rem = cv@.subrange(cur as int, y as int);
                match split_at_top_level(cv, cur, y, &sep) {
                    TopSplitAt::NotFound => {
                        let (ta, tb) = trim_range(cv, cur, y);
                        return eval_range(cv, ta, tb, params, pv, facts, cache);
                    },
                    TopSplitAt::At(k) => {
                        proof {
                            lemma_split_top_at(rem, sep@);
                            assert(rem.subrange(0, k - cur) =~= cv@.subrange(cur as int, k as int));
                            assert(rem.subrange(k - cur + sep.len(), rem.len() as int)
                                =~= cv@.subrange(k + sep.len(), y as int));
                        }
                        let (la, lb) = trim_range(cv, cur, k);
                        let r = eval_range(cv, la, lb, params, pv, facts, cache);
                        match r {
                            CondOut::Done(Ok(true)) => {
                                return r;
                            },
                            CondOut::Done(Ok(false)) => {
                                cur = k + sep.len();
                            },
                            other => {
                                return other;
                            },
                        }
                    },
                }
            }
        },
        None => {},
    }
    exec_tail(cv, a, b, params, pv, cache)
}


/// Whether an evaluation outcome corresponds to a condition step.
pub open spec fn pending_matches(r: Pending<Result<bool, String>>, s: CondStep) -> bool {
    match (r, s) {
        (Pending::Ready(a), CondStep::Done(t)) => answer_view(a) == t,
        (Pending::NeedsFact(q), CondStep::Ask(v)) => q@ == v,
        _ => false,
    }
}

pub(crate) fn evaluate_condition_step(
    condition: &str,
    call: &ToolCall,
    pv: &Vec<char>,
    facts: &HostFacts,
    cache: &WordPatterns,
) -> (r: CondOut)
    requires
        pv@ == call.parameters@,
    ensures
        out_matches(r, eval_condition(condition@, call.parameters@, facts@)),
{
    let cv = to_chars(condition);
    assert(cv@.subrange(0, cv.len() as int) =~= cv@);
    eval_range(&cv, 0, cv.len(), call.parameters.as_str(), pv, facts, cache)
}

/// Evaluates a condition against a tool call: `Ready(Ok(holds))`,
/// `Ready(Err(message))` for an unknown or malformed condition, or the fact
/// the host must supply first.
pub fn evaluate_condition(condition: &str, call: &ToolCall, facts: &HostFacts) -> (r: Pending<Result<bool, String>>)
    requires
        !(eval_condition(condition@, call.parameters@, facts@) is Fault),
    ensures
        pending_matches(r, eval_condition(condition@, call.parameters@, facts@)),
{
    let pv = to_chars(call.parameters.as_str());
    let cache = WordPatterns::empty();
    match evaluate_condition_step(condition, call, &pv, facts, &cache) {
        CondOut::Done(a) => Pending::Ready(a),
        CondOut::Ask(q) => Pending::NeedsFact(q),
        CondOut::Fault => {
            assert(false);
            Pending::Ready(Ok(false))
        },
    }
}

/// Whether evaluating the condition takes a lone quote as a quoted literal
/// (see `CondStep::Fault`); `evaluate_condition` is defined on the others.
pub fn condition_faults(condition: &str, call: &ToolCall, facts: &HostFacts) -> (b: bool)
    ensures
        b == (eval_condition(condition@, call.parameters@, facts@) is Fault),
{
    let pv = to_chars(call.parameters.as_str());
    let cache = WordPatterns::empty();
    match evaluate_condition_step(condition, call, &pv, facts, &cache) {
        CondOut::Fault => true,
        _ => false,
    }
}

} // verus!
