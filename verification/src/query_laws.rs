//! What the conditions that depend on the host ask it: each names the field,
//! category, limit or window written in the condition, unchanged.

use vstd::prelude::*;
use crate::facts::{FactsView, QueryView};
use crate::condition::{CondStep, eval_condition, ask_or_answer, comma_split};
use crate::syntax::strip_call;
use crate::text::{trim, trim_start, trim_end, is_ws, parse_u32};
use crate::laws::{lemma_trim_fixed, lemma_call_mismatch, lemma_first_comma};

verus! {

/// A call `name(a, t)`: the whole text is already trimmed, its arguments are
/// `a, t`, they split at the comma after `a`, and the second trims to `t`.
proof fn lemma_two_arg_call(name: Seq<char>, a: Seq<char>, t: Seq<char>)
    requires
        name.len() > 0,
        !is_ws(name[0]),
        !a.contains(','),
        t.len() > 0,
        !is_ws(t[0]),
        !is_ws(t.last()),
    ensures
        trim(name + "("@ + a + ", "@ + t + ")"@) == name + "("@ + a + ", "@ + t + ")"@,
        strip_call(name + "("@ + a + ", "@ + t + ")"@, name) == Some(a + ", "@ + t),
        comma_split(a + ", "@ + t) == Some((a, " "@ + t)),
        trim(" "@ + t) == t,
{
    reveal_strlit("(");
    reveal_strlit(")");
    reveal_strlit(", ");
    reveal_strlit(" ");
    let c = name + "("@ + a + ", "@ + t + ")"@;
    assert(c.last() == ')');
    assert(c[0] == name[0]);
    lemma_trim_fixed(c);
    assert(c.subrange(0, name.len() as int) =~= name);
    let tail = c.subrange(name.len() as int, c.len() as int);
    assert(tail =~= "("@ + a + ", "@ + t + ")"@);
    assert(tail[0] == '(');
    assert(tail.last() == ')');
    lemma_trim_fixed(tail);
    let args = a + ", "@ + t;
    assert(tail.subrange(1, tail.len() - 1) =~= args);
    assert(args =~= a + (", "@ + t));
    lemma_first_comma(a, ", "@ + t);
    assert(args.subrange(0, a.len() as int) =~= a);
    assert(args.subrange(a.len() as int + 1, args.len() as int) =~= " "@ + t);
    let b = " "@ + t;
    assert(is_ws(b[0]));
    assert(b.drop_first() =~= t);
    assert(trim_start(t) == t);
    assert(trim_start(b) == t);
    assert(trim_end(t) == t);
}

/// `'s'` holds no comma when `s` holds none, and unquotes to `s`.
proof fn lemma_quoted(s: Seq<char>)
    requires
        !s.contains(','),
    ensures
        !("'"@ + s + "'"@).contains(','),
        crate::syntax::unquote("'"@ + s + "'"@) == crate::syntax::Unquoted::Text(s),
{
    reveal_strlit("'");
    let a = "'"@ + s + "'"@;
    assert forall|i: int| 0 <= i < a.len() implies a[i] != ',' by {
        if 0 < i < a.len() - 1 {
            assert(a[i] == s[i - 1]);
        }
    }
    assert(a[0] == '\'');
    assert(a.last() == '\'');
    lemma_trim_fixed(a);
    assert(a.subrange(1, a.len() - 1) =~= s);
}

/// `param_gt(f, t)` asks the host whether the field `f` of the call is above
/// the threshold `t`, and `param_lt(f, t)` whether it is below it: the
/// outcome is the answer recorded for exactly that question, or a request
/// for it.
pub proof fn param_gt_and_param_lt_ask_about_the_field(
    f: Seq<char>,
    t: Seq<char>,
    params: Seq<char>,
    facts: FactsView,
)
    requires
        f.len() > 0,
        !f.contains(','),
        !is_ws(f[0]),
        !is_ws(f.last()),
        t.len() > 0,
        !is_ws(t[0]),
        !is_ws(t.last()),
    ensures
        eval_condition("param_gt("@ + f + ", "@ + t + ")"@, params, facts) == ask_or_answer(
            facts,
            QueryView::ParamAbove(f, t),
        ),
        eval_condition("param_lt("@ + f + ", "@ + t + ")"@, params, facts) == ask_or_answer(
            facts,
            QueryView::ParamBelow(f, t),
        ),
{
    reveal_strlit("param_gt(");
    reveal_strlit("param_lt(");
    reveal_strlit("param_gt");
    reveal_strlit("param_lt");
    reveal_strlit("param_eq");
    reveal_strlit("contains");
    reveal_strlit("spend_gt");
    reveal_strlit("spend_plus_amount_gt");
    reveal_strlit("(");
    lemma_trim_fixed(f);
    let g = "param_gt("@ + f + ", "@ + t + ")"@;
    let l = "param_lt("@ + f + ", "@ + t + ")"@;
    assert(g =~= "param_gt"@ + "("@ + f + ", "@ + t + ")"@);
    assert(l =~= "param_lt"@ + "("@ + f + ", "@ + t + ")"@);
    lemma_two_arg_call("param_gt"@, f, t);
    lemma_two_arg_call("param_lt"@, f, t);
    assert(g[0] == 'p' && g[6] == 'g');
    assert(l[0] == 'p' && l[6] == 'l');
    lemma_call_mismatch(g, "contains"@, 0);
    lemma_call_mismatch(g, "param_eq"@, 6);
    lemma_call_mismatch(l, "contains"@, 0);
    lemma_call_mismatch(l, "param_eq"@, 6);
    lemma_call_mismatch(l, "param_gt"@, 6);
    lemma_call_mismatch(l, "spend_gt"@, 0);
    lemma_call_mismatch(l, "spend_plus_amount_gt"@, 0);
}

/// `spend_gt('c', limit)` asks the host whether the spending recorded in the
/// category `c` (unquoted) is above `limit`: the outcome is the answer
/// recorded for exactly that question, or a request for it.
pub proof fn spend_gt_asks_about_the_quoted_category(
    c: Seq<char>,
    limit: Seq<char>,
    params: Seq<char>,
    facts: FactsView,
)
    requires
        !c.contains(','),
        limit.len() > 0,
        !is_ws(limit[0]),
        !is_ws(limit.last()),
    ensures
        eval_condition("spend_gt('"@ + c + "', "@ + limit + ")"@, params, facts) == ask_or_answer(
            facts,
            QueryView::SpendAbove(c, limit),
        ),
{
    reveal_strlit("spend_gt('");
    reveal_strlit("spend_gt");
    reveal_strlit("param_eq");
    reveal_strlit("param_gt");
    reveal_strlit("contains");
    reveal_strlit("'");
    reveal_strlit("(");
    reveal_strlit("', ");
    reveal_strlit(", ");
    let a = "'"@ + c + "'"@;
    let s = "spend_gt('"@ + c + "', "@ + limit + ")"@;
    assert(s =~= "spend_gt"@ + "("@ + a + ", "@ + limit + ")"@);
    lemma_quoted(c);
    lemma_two_arg_call("spend_gt"@, a, limit);
    assert(s[0] == 's');
    lemma_call_mismatch(s, "contains"@, 0);
    lemma_call_mismatch(s, "param_eq"@, 0);
    lemma_call_mismatch(s, "param_gt"@, 0);
}

/// `has_recent_action('s', w)` asks the host whether `s` is among the last
/// `n` allowed actions, `n` being the number that `w` spells (50 when it
/// spells none); without a vault it is false.
pub proof fn has_recent_action_asks_within_its_window(
    s: Seq<char>,
    w: Seq<char>,
    params: Seq<char>,
    facts: FactsView,
)
    requires
        !s.contains(','),
        w.len() > 0,
        !is_ws(w[0]),
        !is_ws(w.last()),
    ensures
        facts.vault_available ==> eval_condition(
            "has_recent_action('"@ + s + "', "@ + w + ")"@,
            params,
            facts,
        ) == ask_or_answer(
            facts,
            QueryView::RecentAllowedAction(
                s,
                match parse_u32(w) {
                    Some(n) => n,
                    None => 50,
                },
            ),
        ),
        !facts.vault_available ==> eval_condition(
            "has_recent_action('"@ + s + "', "@ + w + ")"@,
            params,
            facts,
        ) == CondStep::Done(Ok(false)),
{
    reveal_strlit("has_recent_action('");
    reveal_strlit("has_recent_action");
    reveal_strlit("has_credential");
    reveal_strlit("contains");
    reveal_strlit("param_eq");
    reveal_strlit("param_gt");
    reveal_strlit("spend_gt");
    reveal_strlit("spend_plus_amount_gt");
    reveal_strlit("param_lt");
    reveal_strlit("param_ne");
    reveal_strlit("param_contains");
    reveal_strlit("matches");
    reveal_strlit("'");
    reveal_strlit("(");
    reveal_strlit("', ");
    reveal_strlit(", ");
    let a = "'"@ + s + "'"@;
    let c = "has_recent_action('"@ + s + "', "@ + w + ")"@;
    assert(c =~= "has_recent_action"@ + "("@ + a + ", "@ + w + ")"@);
    lemma_quoted(s);
    lemma_two_arg_call("has_recent_action"@, a, w);
    assert(c[0] == 'h' && c[4] == 'r');
    lemma_call_mismatch(c, "contains"@, 0);
    lemma_call_mismatch(c, "param_eq"@, 0);
    lemma_call_mismatch(c, "param_gt"@, 0);
    lemma_call_mismatch(c, "spend_gt"@, 0);
    lemma_call_mismatch(c, "spend_plus_amount_gt"@, 0);
    lemma_call_mismatch(c, "param_lt"@, 0);
    lemma_call_mismatch(c, "param_ne"@, 0);
    lemma_call_mismatch(c, "param_contains"@, 0);
    lemma_call_mismatch(c, "matches"@, 0);
    lemma_call_mismatch(c, "has_credential"@, 4);
}


/// A space before `x` trims away when `x` has no whitespace at its ends.
proof fn lemma_space_trim(x: Seq<char>)
    requires
        x.len() > 0,
        !is_ws(x[0]),
        !is_ws(x.last()),
    ensures
        trim(" "@ + x) == x,
{
    reveal_strlit(" ");
    let b = " "@ + x;
    assert(is_ws(b[0]));
    assert(b.drop_first() =~= x);
    assert(trim_start(x) == x);
    assert(trim_start(b) == x);
    assert(trim_end(x) == x);
}

/// `spend_plus_amount_gt('c', f, limit)` asks the host whether the spending
/// recorded in the category `c` (unquoted), plus the amount in the field `f`
/// of the call, is above `limit`: the outcome is the answer recorded for
/// exactly that question, or a request for it.
pub proof fn spend_plus_amount_gt_asks_about_the_field(
    c: Seq<char>,
    f: Seq<char>,
    limit: Seq<char>,
    params: Seq<char>,
    facts: FactsView,
)
    requires
        !c.contains(','),
        f.len() > 0,
        !f.contains(','),
        !is_ws(f[0]),
        !is_ws(f.last()),
        limit.len() > 0,
        !is_ws(limit[0]),
        !is_ws(limit.last()),
    ensures
        eval_condition("spend_plus_amount_gt('"@ + c + "', "@ + f + ", "@ + limit + ")"@, params, facts)
            == ask_or_answer(facts, QueryView::SpendPlusAmountAbove(c, f, limit)),
{
    reveal_strlit("spend_plus_amount_gt('");
    reveal_strlit("spend_plus_amount_gt");
    reveal_strlit("spend_gt");
    reveal_strlit("param_eq");
    reveal_strlit("param_gt");
    reveal_strlit("contains");
    reveal_strlit("'");
    reveal_strlit("(");
    reveal_strlit("', ");
    reveal_strlit(", ");
    reveal_strlit(" ");
    let a = "'"@ + c + "'"@;
    let t = f + ", "@ + limit;
    let s = "spend_plus_amount_gt('"@ + c + "', "@ + f + ", "@ + limit + ")"@;
    assert(s =~= "spend_plus_amount_gt"@ + "("@ + a + ", "@ + t + ")"@);
    lemma_quoted(c);
    assert(t[0] == f[0]);
    assert(t.last() == limit.last());
    lemma_two_arg_call("spend_plus_amount_gt"@, a, t);
    let sf = " "@ + f;
    assert forall|i: int| 0 <= i < sf.len() implies sf[i] != ',' by {
        if i > 0 {
            assert(sf[i] == f[i - 1]);
        }
    }
    let rest = " "@ + t;
    assert(rest =~= sf + (", "@ + limit));
    lemma_first_comma(sf, ", "@ + limit);
    assert(rest.subrange(0, sf.len() as int) =~= sf);
    assert(rest.subrange(sf.len() as int + 1, rest.len() as int) =~= " "@ + limit);
    assert(comma_split(rest) == Some((sf, " "@ + limit)));
    lemma_space_trim(f);
    lemma_space_trim(limit);
    assert(s[0] == 's' && s[6] == 'p');
    lemma_call_mismatch(s, "contains"@, 0);
    lemma_call_mismatch(s, "param_eq"@, 0);
    lemma_call_mismatch(s, "param_gt"@, 0);
    lemma_call_mismatch(s, "spend_gt"@, 6);
}

} // verus!
