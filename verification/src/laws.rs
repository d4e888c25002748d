//! What holds across the operations of the library: first match wins, the
//! default applies when nothing fires, the merge order of system and user
//! rules, and how conditions compose.

use vstd::prelude::*;
use crate::model::{Decision, RuleView};
use crate::facts::{FactsView, QueryView, answer_of};
use crate::model::DiagnosticSeverity;
use crate::validate::{
    DiagView, ProbeView, policy_diags, rule_diags, rule_label, condition_diags, conditions_diags,
    known_condition_fns,
};
use crate::engine::{
    RuleMatch, EvalStep, evaluate_rules, rule_match, rule_verdict, default_verdict, conditions_match,
};
use crate::defaults::{merged, locked_rules, baseline_rules, self_protection_spec, system_default_spec, task_store_spec};
use crate::condition::{CondStep, eval_condition};
use crate::pattern::regex_is_match;
use crate::json::json_field_str;
use crate::engine::compilable;
use crate::condition::{eval_leaf, negate};
use crate::syntax::{strip_call, scan_top, depth_after, TopSplit};
use crate::text::{trim, trim_start, trim_end, is_ws, starts_with, seq_contains, decimal};

verus! {

proof fn lemma_first_match_from(
    rules: Seq<RuleView>,
    k: int,
    i: int,
    tool: Seq<char>,
    params: Seq<char>,
    default_action: Decision,
    facts: FactsView,
)
    requires
        0 <= k <= i < rules.len(),
        rule_match(rules[i], tool, params, facts) == RuleMatch::Fires(true),
        forall|j: int| 0 <= j < i ==> #[trigger] rule_match(rules[j], tool, params, facts) == RuleMatch::Fires(false),
    ensures
        evaluate_rules(rules, k, tool, params, default_action, facts) == rule_verdict(rules[i], facts),
    decreases i - k,
{
    if k < i {
        assert(rule_match(rules[k], tool, params, facts) == RuleMatch::Fires(false));
        lemma_first_match_from(rules, k + 1, i, tool, params, default_action, facts);
    }
}

/// First match wins: when rule `i` fires and every rule before it is passed
/// over, the evaluation is rule `i`'s verdict, whatever the rules after it
/// say.
pub proof fn first_match_wins(
    rules: Seq<RuleView>,
    i: int,
    tool: Seq<char>,
    params: Seq<char>,
    default_action: Decision,
    facts: FactsView,
)
    requires
        0 <= i < rules.len(),
        rule_match(rules[i], tool, params, facts) == RuleMatch::Fires(true),
        forall|j: int| 0 <= j < i ==> #[trigger] rule_match(rules[j], tool, params, facts) == RuleMatch::Fires(false),
    ensures
        evaluate_rules(rules, 0, tool, params, default_action, facts) == rule_verdict(rules[i], facts),
{
    lemma_first_match_from(rules, 0, i, tool, params, default_action, facts);
}

proof fn lemma_none_fire_from(
    rules: Seq<RuleView>,
    k: int,
    tool: Seq<char>,
    params: Seq<char>,
    default_action: Decision,
    facts: FactsView,
)
    requires
        0 <= k <= rules.len(),
        forall|j: int| k <= j < rules.len() ==> #[trigger] rule_match(rules[j], tool, params, facts) == RuleMatch::Fires(false),
    ensures
        evaluate_rules(rules, k, tool, params, default_action, facts) == EvalStep::Decided(default_verdict(default_action)),
    decreases rules.len() - k,
{
    if k < rules.len() {
        assert(rule_match(rules[k], tool, params, facts) == RuleMatch::Fires(false));
        lemma_none_fire_from(rules, k + 1, tool, params, default_action, facts);
    }
}

/// When no rule fires, the policy's default action applies, with no rule
/// named and the reason "No matching rules, using default action".
pub proof fn no_match_uses_default(
    rules: Seq<RuleView>,
    tool: Seq<char>,
    params: Seq<char>,
    default_action: Decision,
    facts: FactsView,
)
    requires
        forall|j: int| 0 <= j < rules.len() ==> #[trigger] rule_match(rules[j], tool, params, facts) == RuleMatch::Fires(false),
    ensures
        evaluate_rules(rules, 0, tool, params, default_action, facts) == EvalStep::Decided(default_verdict(default_action)),
        default_verdict(default_action).decision == default_action,
        default_verdict(default_action).matched_rule is None,
        !default_verdict(default_action).matched_locked,
        default_verdict(default_action).reason == Some("No matching rules, using default action"@),
        default_verdict(default_action).ensure_config is None,
{
    lemma_none_fire_from(rules, 0, tool, params, default_action, facts);
}

proof fn lemma_asks_from(
    rules: Seq<RuleView>,
    k: int,
    i: int,
    tool: Seq<char>,
    params: Seq<char>,
    default_action: Decision,
    facts: FactsView,
)
    requires
        0 <= k <= i < rules.len(),
        rule_match(rules[i], tool, params, facts) is Ask,
        forall|j: int| 0 <= j < i ==> #[trigger] rule_match(rules[j], tool, params, facts) == RuleMatch::Fires(false),
    ensures
        evaluate_rules(rules, k, tool, params, default_action, facts) == EvalStep::Ask(
            rule_match(rules[i], tool, params, facts)->Ask_0,
        ),
    decreases i - k,
{
    if k < i {
        assert(rule_match(rules[k], tool, params, facts) == RuleMatch::Fires(false));
        lemma_asks_from(rules, k + 1, i, tool, params, default_action, facts);
    }
}

/// When the first rule that is not passed over needs a fact from the host,
/// the evaluation asks for that fact, whatever the rules after it say.
pub proof fn waiting_rule_asks_the_host(
    rules: Seq<RuleView>,
    i: int,
    tool: Seq<char>,
    params: Seq<char>,
    default_action: Decision,
    facts: FactsView,
)
    requires
        0 <= i < rules.len(),
        rule_match(rules[i], tool, params, facts) is Ask,
        forall|j: int| 0 <= j < i ==> #[trigger] rule_match(rules[j], tool, params, facts) == RuleMatch::Fires(false),
    ensures
        evaluate_rules(rules, 0, tool, params, default_action, facts) == EvalStep::Ask(
            rule_match(rules[i], tool, params, facts)->Ask_0,
        ),
{
    lemma_asks_from(rules, 0, i, tool, params, default_action, facts);
}


proof fn lemma_shift(
    a: Seq<RuleView>,
    b: Seq<RuleView>,
    j: int,
    tool: Seq<char>,
    params: Seq<char>,
    default_action: Decision,
    facts: FactsView,
)
    requires
        0 <= j <= b.len(),
    ensures
        evaluate_rules(a + b, a.len() + j, tool, params, default_action, facts) == evaluate_rules(
            b,
            j,
            tool,
            params,
            default_action,
            facts,
        ),
    decreases b.len() - j,
{
    if j < b.len() {
        assert((a + b)[a.len() + j] == b[j]);
        lemma_shift(a, b, j + 1, tool, params, default_action, facts);
    }
}

proof fn lemma_skip_from(
    a: Seq<RuleView>,
    b: Seq<RuleView>,
    k: int,
    tool: Seq<char>,
    params: Seq<char>,
    default_action: Decision,
    facts: FactsView,
)
    requires
        0 <= k <= a.len(),
        forall|j: int| k <= j < a.len() ==> #[trigger] rule_match(a[j], tool, params, facts) == RuleMatch::Fires(false),
    ensures
        evaluate_rules(a + b, k, tool, params, default_action, facts) == evaluate_rules(
            b,
            0,
            tool,
            params,
            default_action,
            facts,
        ),
    decreases a.len() - k,
{
    if k < a.len() {
        assert((a + b)[k] == a[k]);
        assert(rule_match(a[k], tool, params, facts) == RuleMatch::Fires(false));
        lemma_skip_from(a, b, k + 1, tool, params, default_action, facts);
    } else {
        lemma_shift(a, b, 0, tool, params, default_action, facts);
    }
}

/// Rules that are all passed over can be dropped from the front: the
/// evaluation is that of the rules after them.
pub proof fn passed_over_prefix(
    a: Seq<RuleView>,
    b: Seq<RuleView>,
    tool: Seq<char>,
    params: Seq<char>,
    default_action: Decision,
    facts: FactsView,
)
    requires
        forall|j: int| 0 <= j < a.len() ==> #[trigger] rule_match(a[j], tool, params, facts) == RuleMatch::Fires(false),
    ensures
        evaluate_rules(a + b, 0, tool, params, default_action, facts) == evaluate_rules(
            b,
            0,
            tool,
            params,
            default_action,
            facts,
        ),
{
    lemma_skip_from(a, b, 0, tool, params, default_action, facts);
}

/// Locked system rules come first in a merged policy: the first locked
/// system rule that fires decides, whatever the user's rules are.
pub proof fn locked_rules_override_user_rules(
    system: Seq<RuleView>,
    user: Seq<RuleView>,
    i: int,
    tool: Seq<char>,
    params: Seq<char>,
    default_action: Decision,
    facts: FactsView,
)
    requires
        0 <= i < locked_rules(system, true).len(),
        rule_match(locked_rules(system, true)[i], tool, params, facts) == RuleMatch::Fires(true),
        forall|j: int|
            0 <= j < i ==> #[trigger] rule_match(locked_rules(system, true)[j], tool, params, facts)
                == RuleMatch::Fires(false),
    ensures
        evaluate_rules(merged(system, user), 0, tool, params, default_action, facts) == rule_verdict(
            locked_rules(system, true)[i],
            facts,
        ),
{
    let l = locked_rules(system, true);
    let m = merged(system, user);
    assert forall|j: int| 0 <= j < i implies #[trigger] rule_match(m[j], tool, params, facts)
        == RuleMatch::Fires(false) by {
        assert(m[j] == l[j]);
        assert(rule_match(l[j], tool, params, facts) == RuleMatch::Fires(false));
    }
    assert(m[i] == l[i]);
    first_match_wins(m, i, tool, params, default_action, facts);
}

/// When no locked system rule fires, the user's rules are tried before the
/// unlocked system defaults: the first user rule that fires decides.
pub proof fn user_rules_precede_system_defaults(
    system: Seq<RuleView>,
    user: Seq<RuleView>,
    i: int,
    tool: Seq<char>,
    params: Seq<char>,
    default_action: Decision,
    facts: FactsView,
)
    requires
        forall|j: int|
            0 <= j < locked_rules(system, true).len() ==> #[trigger] rule_match(
                locked_rules(system, true)[j],
                tool,
                params,
                facts,
            ) == RuleMatch::Fires(false),
        0 <= i < user.len(),
        rule_match(user[i], tool, params, facts) == RuleMatch::Fires(true),
        forall|j: int| 0 <= j < i ==> #[trigger] rule_match(user[j], tool, params, facts) == RuleMatch::Fires(false),
    ensures
        evaluate_rules(merged(system, user), 0, tool, params, default_action, facts) == rule_verdict(
            user[i],
            facts,
        ),
{
    let l = locked_rules(system, true);
    let rest = user + locked_rules(system, false);
    assert(merged(system, user) =~= l + rest);
    passed_over_prefix(l, rest, tool, params, default_action, facts);
    assert forall|j: int| 0 <= j < i implies #[trigger] rule_match(rest[j], tool, params, facts)
        == RuleMatch::Fires(false) by {
        assert(rest[j] == user[j]);
        assert(rule_match(user[j], tool, params, facts) == RuleMatch::Fires(false));
    }
    assert(rest[i] == user[i]);
    first_match_wins(rest, i, tool, params, default_action, facts);
}

/// When neither a locked system rule nor a user rule fires, the merged
/// policy evaluates as its unlocked system defaults alone.
pub proof fn system_defaults_apply_last(
    system: Seq<RuleView>,
    user: Seq<RuleView>,
    tool: Seq<char>,
    params: Seq<char>,
    default_action: Decision,
    facts: FactsView,
)
    requires
        forall|j: int|
            0 <= j < locked_rules(system, true).len() ==> #[trigger] rule_match(
                locked_rules(system, true)[j],
                tool,
                params,
                facts,
            ) == RuleMatch::Fires(false),
        forall|j: int| 0 <= j < user.len() ==> #[trigger] rule_match(user[j], tool, params, facts) == RuleMatch::Fires(false),
    ensures
        evaluate_rules(merged(system, user), 0, tool, params, default_action, facts) == evaluate_rules(
            locked_rules(system, false),
            0,
            tool,
            params,
            default_action,
            facts,
        ),
{
    let l = locked_rules(system, true);
    let u = locked_rules(system, false);
    assert(merged(system, user) =~= l + (user + u));
    passed_over_prefix(l, user + u, tool, params, default_action, facts);
    passed_over_prefix(user, u, tool, params, default_action, facts);
}


proof fn lemma_filters_commute(s: Seq<RuleView>, p: spec_fn(RuleView) -> bool, q: spec_fn(RuleView) -> bool)
    ensures
        s.filter(p).filter(q) == s.filter(q).filter(p),
    decreases s.len(),
{
    if s.len() == 0 {
        reveal(Seq::filter);
        assert(s.filter(p) =~= s);
        assert(s.filter(q) =~= s);
    } else {
        let t = s.drop_last();
        let x = s.last();
        assert(s =~= t.push(x));
        lemma_filters_commute(t, p, q);
        t.lemma_filter_push(x, p);
        t.lemma_filter_push(x, q);
        t.filter(p).lemma_filter_push(x, q);
        t.filter(q).lemma_filter_push(x, p);
    }
}

/// Compiling a merged rule list is merging the compiled lists: the rules
/// whose pattern does not compile drop out, and the order of the others is
/// the merge order.
pub proof fn compile_commutes_with_merge(system: Seq<RuleView>, user: Seq<RuleView>)
    ensures
        compilable(merged(system, user)) == merged(compilable(system), compilable(user)),
{
    let c = |r: RuleView| crate::engine::pattern_compiles(r.tool_pattern);
    let l = locked_rules(system, true);
    let u = locked_rules(system, false);
    Seq::filter_distributes_over_add(l + user, u, c);
    Seq::filter_distributes_over_add(l, user, c);
    lemma_filters_commute(system, |r: RuleView| r.locked == true, c);
    lemma_filters_commute(system, |r: RuleView| r.locked == false, c);
    assert(compilable(merged(system, user)) =~= merged(compilable(system), compilable(user)));
}


/// A condition that evaluates to an error keeps its rule from firing, as a
/// false one does: the rule is passed over.
pub proof fn erroneous_condition_passes_rule_over(
    rule: RuleView,
    j: int,
    tool: Seq<char>,
    params: Seq<char>,
    facts: FactsView,
)
    requires
        0 <= j < rule.conditions.len(),
        eval_condition(rule.conditions[j], params, facts) matches CondStep::Done(r) && r is Err,
        forall|k: int|
            0 <= k < j ==> #[trigger] eval_condition(rule.conditions[k], params, facts) == CondStep::Done(
                Ok(true),
            ),
    ensures
        rule_match(rule, tool, params, facts) == RuleMatch::Fires(false),
{
    lemma_conditions_stop(rule.conditions, 0, j, params, facts);
}

proof fn lemma_conditions_stop(conds: Seq<Seq<char>>, k: int, j: int, params: Seq<char>, facts: FactsView)
    requires
        0 <= k <= j < conds.len(),
        eval_condition(conds[j], params, facts) matches CondStep::Done(r) && r is Err,
        forall|m: int| 0 <= m < j ==> #[trigger] eval_condition(conds[m], params, facts) == CondStep::Done(Ok(true)),
    ensures
        conditions_match(conds, k, params, facts) == RuleMatch::Fires(false),
    decreases j - k,
{
    if k < j {
        assert(eval_condition(conds[k], params, facts) == CondStep::Done(Ok(true)));
        lemma_conditions_stop(conds, k + 1, j, params, facts);
    }
}

proof fn lemma_conditions_skip(conds: Seq<Seq<char>>, k: int, j: int, params: Seq<char>, facts: FactsView)
    requires
        0 <= k <= j <= conds.len(),
        forall|m: int| 0 <= m < j ==> #[trigger] eval_condition(conds[m], params, facts) == CondStep::Done(Ok(true)),
    ensures
        conditions_match(conds, k, params, facts) == conditions_match(conds, j, params, facts),
    decreases j - k,
{
    if k < j {
        assert(eval_condition(conds[k], params, facts) == CondStep::Done(Ok(true)));
        lemma_conditions_skip(conds, k + 1, j, params, facts);
    }
}

/// The conditions of a rule whose pattern matches the tool are taken in
/// order: when all hold, the rule fires; the first that does not hold passes
/// the rule over; the first that needs a fact from the host asks for it,
/// and the rule waits on the answer.
pub proof fn conditions_decide_in_order(
    rule: RuleView,
    j: int,
    tool: Seq<char>,
    params: Seq<char>,
    facts: FactsView,
)
    requires
        regex_is_match(rule.tool_pattern, tool),
        0 <= j <= rule.conditions.len(),
        forall|k: int|
            0 <= k < j ==> #[trigger] eval_condition(rule.conditions[k], params, facts) == CondStep::Done(
                Ok(true),
            ),
    ensures
        j == rule.conditions.len() ==> rule_match(rule, tool, params, facts) == RuleMatch::Fires(true),
        j < rule.conditions.len() && eval_condition(rule.conditions[j], params, facts) == CondStep::Done(
            Ok::<bool, Seq<char>>(false),
        ) ==> rule_match(rule, tool, params, facts) == RuleMatch::Fires(false),
        j < rule.conditions.len() && eval_condition(rule.conditions[j], params, facts) is Ask ==> rule_match(
            rule,
            tool,
            params,
            facts,
        ) == RuleMatch::Ask(eval_condition(rule.conditions[j], params, facts)->Ask_0),
{
    lemma_conditions_skip(rule.conditions, 0, j, params, facts);
}

/// Without a vault, a Gate rule denies: its prerequisite is never seen.
pub proof fn gate_without_vault_denies(rule: RuleView, facts: FactsView)
    requires
        rule.action == Decision::Gate,
        !facts.vault_available,
    ensures
        rule_verdict(rule, facts) matches EvalStep::Decided(v) && v.decision == Decision::Deny
            && v.ensure_config is None,
{
}

/// Only an Ensure rule hands a check configuration to the host.
pub proof fn ensure_config_only_from_ensure_rules(rule: RuleView, facts: FactsView)
    ensures
        rule_verdict(rule, facts) matches EvalStep::Decided(v) && v.ensure_config is Some
            ==> rule.action == Decision::Ensure,
{
}

/// The strings of the condition language that are not calls: `true` holds,
/// `false` does not, and a quoted text `'w'` holds exactly when the
/// parameters' JSON text contains `w`.
pub proof fn literals_and_quoted_text(w: Seq<char>, params: Seq<char>, facts: FactsView)
    ensures
        eval_condition("true"@, params, facts) == CondStep::Done(Ok(true)),
        eval_condition("false"@, params, facts) == CondStep::Done(Ok(false)),
        eval_condition("'"@ + w + "'"@, params, facts) == CondStep::Done(Ok(seq_contains(params, w))),
{
    reveal_strlit("true");
    reveal_strlit("false");
    reveal_strlit("'");
    reveal_strlit("contains");
    reveal_strlit("param_eq");
    reveal_strlit("param_gt");
    reveal_strlit("spend_gt");
    reveal_strlit("spend_plus_amount_gt");
    reveal_strlit("param_lt");
    reveal_strlit("param_ne");
    reveal_strlit("param_contains");
    reveal_strlit("matches");
    reveal_strlit("has_credential");
    reveal_strlit("has_recent_action");
    reveal_strlit("not");
    reveal_strlit("or");
    reveal_strlit("any_of");
    reveal_strlit("contains_word");
    let q = "'"@ + w + "'"@;
    assert(q[0] == '\'');
    assert(q.last() == '\'');
    let cs = seq!["true"@, "false"@, q];
    assert forall|j: int| 0 <= j < 3 implies trim(#[trigger] cs[j]) == cs[j] && eval_leaf(cs[j], params, facts)
        is None && strip_call(cs[j], "not"@) is None && strip_call(cs[j], "or"@) is None && strip_call(
        cs[j],
        "any_of"@,
    ) is None && strip_call(cs[j], "contains_word"@) is None by {
        let c = cs[j];
        assert(c.len() > 0 && c[0] != 'c' && c[0] != 'p' && c[0] != 's' && c[0] != 'm' && c[0] != 'h' && c[0]
            != 'n' && c[0] != 'o' && c[0] != 'a');
        lemma_trim_fixed(c);
        lemma_call_mismatch(c, "contains"@, 0);
        lemma_call_mismatch(c, "param_eq"@, 0);
        lemma_call_mismatch(c, "param_gt"@, 0);
        lemma_call_mismatch(c, "spend_gt"@, 0);
        lemma_call_mismatch(c, "spend_plus_amount_gt"@, 0);
        lemma_call_mismatch(c, "param_lt"@, 0);
        lemma_call_mismatch(c, "param_ne"@, 0);
        lemma_call_mismatch(c, "param_contains"@, 0);
        lemma_call_mismatch(c, "matches"@, 0);
        lemma_call_mismatch(c, "has_credential"@, 0);
        lemma_call_mismatch(c, "has_recent_action"@, 0);
        lemma_call_mismatch(c, "not"@, 0);
        lemma_call_mismatch(c, "or"@, 0);
        lemma_call_mismatch(c, "any_of"@, 0);
        lemma_call_mismatch(c, "contains_word"@, 0);
    }
    assert(q != "true"@ && q != "false"@) by {
        assert(q[0] != "true"@[0]);
        assert(q[0] != "false"@[0]);
    }
    lemma_trim_fixed(q);
    assert(q.subrange(1, q.len() - 1) =~= w);
}

proof fn lemma_not_this_call(f: Seq<char>, x: Seq<char>, n: Seq<char>)
    requires
        f.len() > 0,
        !f.contains('('),
        forall|i: int| 0 <= i < f.len() ==> !is_ws(#[trigger] f[i]),
        n != f,
        !n.contains('('),
    ensures
        strip_call(f + "("@ + x + ")"@, n) is None,
{
    reveal_strlit("(");
    reveal_strlit(")");
    let c = f + "("@ + x + ")"@;
    assert(c[0] == f[0]);
    assert(c.last() == ')');
    lemma_trim_fixed(c);
    if starts_with(c, n) {
        if n.len() < f.len() {
            let rest = c.subrange(n.len() as int, c.len() as int);
            assert(rest[0] == f[n.len() as int]);
            assert(rest.last() == ')');
            lemma_trim_fixed(rest);
        } else if n.len() == f.len() {
            assert(c.subrange(0, n.len() as int) =~= f);
        } else {
            assert(c.subrange(0, n.len() as int)[f.len() as int] == c[f.len() as int]);
            assert(n[f.len() as int] == '(');
        }
    }
}

/// A call of a function that the condition language does not know is an
/// error, "Unknown condition: " followed by the condition. (`f` is a name
/// without whitespace or parentheses.)
pub proof fn unknown_function_is_an_error(f: Seq<char>, x: Seq<char>, params: Seq<char>, facts: FactsView)
    requires
        f.len() > 0,
        !f.contains('('),
        forall|i: int| 0 <= i < f.len() ==> !is_ws(#[trigger] f[i]),
        !known_condition_fns().contains(f),
    ensures
        eval_condition(f + "("@ + x + ")"@, params, facts) == CondStep::Done(
            Err("Unknown condition: "@ + f + "("@ + x + ")"@),
        ),
{
    reveal_strlit("(");
    reveal_strlit(")");
    reveal_strlit("true");
    reveal_strlit("false");
    let c = f + "("@ + x + ")"@;
    let names = known_condition_fns();
    assert forall|j: int| 0 <= j < names.len() implies strip_call(c, #[trigger] names[j]) is None by {
        reveal_strlit("contains");
        reveal_strlit("contains_word");
        reveal_strlit("param_eq");
        reveal_strlit("param_gt");
        reveal_strlit("param_lt");
        reveal_strlit("param_ne");
        reveal_strlit("param_contains");
        reveal_strlit("matches");
        reveal_strlit("spend_gt");
        reveal_strlit("spend_plus_amount_gt");
        reveal_strlit("any_of");
        reveal_strlit("has_credential");
        reveal_strlit("has_recent_action");
        reveal_strlit("not");
        reveal_strlit("or");
        let n = names[j];
        assert(names.contains(n));
        assert(!n.contains('('));
        lemma_not_this_call(f, x, n);
    }
    assert(names[0] == "contains"@);
    assert(names[1] == "contains_word"@);
    assert(names[2] == "param_eq"@);
    assert(names[3] == "param_gt"@);
    assert(names[4] == "param_lt"@);
    assert(names[5] == "param_ne"@);
    assert(names[6] == "param_contains"@);
    assert(names[7] == "matches"@);
    assert(names[8] == "spend_gt"@);
    assert(names[9] == "spend_plus_amount_gt"@);
    assert(names[10] == "any_of"@);
    assert(names[11] == "has_credential"@);
    assert(names[12] == "has_recent_action"@);
    assert(names[13] == "not"@);
    assert(names[14] == "or"@);
    assert(c[0] == f[0]);
    assert(c.last() == ')');
    lemma_trim_fixed(c);
    assert(eval_leaf(c, params, facts) is None);
    assert(c != "true"@ && c != "false"@) by {
        assert(c.last() != "true"@.last());
        assert(c.last() != "false"@.last());
    }
    assert(strip_call(c, "not"@) is None);
    assert(strip_call(c, "or"@) is None);
    assert(strip_call(c, "any_of"@) is None);
    assert(strip_call(c, "contains_word"@) is None);
    assert(crate::syntax::unquote(c) == crate::syntax::Unquoted::NotQuoted);
    assert(("Unknown condition: "@ + c) =~= "Unknown condition: "@ + f + "("@ + x + ")"@);
    assert(crate::condition::eval_tail(c, params) == CondStep::Done(Err("Unknown condition: "@ + c)));
}

/// Validation of `rules` reports, under the label of rule `i`, the warning
/// `warning`, which repair leaves alone.
pub open spec fn reports_warning(
    rules: Seq<RuleView>,
    probes: Seq<ProbeView>,
    i: int,
    warning: Seq<char>,
) -> bool {
    exists|k: int|
        0 <= k < policy_diags(rules, probes).len() && (#[trigger] policy_diags(rules, probes)[k]).rule_name
            == rule_label(i, rules[i]) && policy_diags(rules, probes)[k].severity == DiagnosticSeverity::Warning
            && policy_diags(rules, probes)[k].error == warning && !policy_diags(rules, probes)[k].auto_fixable
}

/// Validation warns about the script of every Ensure rule that cannot be
/// run: one the host could not resolve ("Cannot resolve ensure script
/// '<check>' (checks directory may not exist)"), one that does not exist
/// ("Ensure script not found: <path>"), and one that is not executable
/// ("Ensure script not executable: <path>").
pub proof fn validation_warns_about_unusable_scripts(rules: Seq<RuleView>, probes: Seq<ProbeView>, i: int)
    requires
        0 <= i < rules.len(),
        rules[i].action == Decision::Ensure,
        rules[i].ensure is Some,
    ensures
        ({
            let check = rules[i].ensure->0.check;
            &&& (crate::validate::probe_for(probes, check) is None || crate::validate::resolve_script(
                check,
                crate::validate::probe_for(probes, check)->0,
            ) is Err) ==> reports_warning(
                rules,
                probes,
                i,
                "Cannot resolve ensure script '"@ + check + "' (checks directory may not exist)"@,
            )
            &&& (crate::validate::probe_for(probes, check) matches Some(p) && crate::validate::resolve_script(
                check,
                p,
            ) matches Ok(path) && !p.exists) ==> reports_warning(
                rules,
                probes,
                i,
                "Ensure script not found: "@ + crate::validate::resolve_script(
                    check,
                    crate::validate::probe_for(probes, check)->0,
                )->Ok_0,
            )
            &&& (crate::validate::probe_for(probes, check) matches Some(p) && crate::validate::resolve_script(
                check,
                p,
            ) matches Ok(path) && p.exists && p.not_executable) ==> reports_warning(
                rules,
                probes,
                i,
                "Ensure script not executable: "@ + crate::validate::resolve_script(
                    check,
                    crate::validate::probe_for(probes, check)->0,
                )->Ok_0,
            )
        }),
{
    let r = rules[i];
    let label = rule_label(i, r);
    let en = r.ensure->0;
    let a = crate::validate::regex_diags(label, r);
    let b = conditions_diags(label, r.conditions);
    let c = crate::validate::gate_diags(label, r);
    let e = crate::validate::ensure_diags(label, r, probes);
    let ds = rule_diags(i, r, probes);
    assert(ds == a + b + c + e);
    assert(c.len() == 0);
    let x = match crate::validate::check_name_error(en.check) {
        Some(err) => seq![crate::validate::diag(label, DiagnosticSeverity::Error, err,
            "Check name must be a simple filename (no paths, no special chars)."@, true)],
        None => Seq::empty(),
    };
    let y = if en.timeout < 1 || en.timeout > 30 {
        seq![crate::validate::diag(label, DiagnosticSeverity::Error, "ensure.timeout must be 1-30, got "@ + decimal(en.timeout as nat),
            "Set ensure.timeout between 1 and 30 seconds. Will clamp to "@ + decimal(crate::validate::clamp(en.timeout, 1, 30) as nat) + " on auto-fix."@, true)]
    } else {
        Seq::empty()
    };
    let z = crate::validate::script_diags(label, en, probes);
    assert(e == x + y + z);
    let at: int = (a.len() + b.len() + x.len() + y.len()) as int;
    if z.len() > 0 {
        assert(ds[at] == z[0]);
        lemma_policy_diags_contain(rules, probes, i);
        let pd = policy_diags(rules, probes);
        assert(pd.contains(ds[at]));
        let w = choose|w: int| 0 <= w < pd.len() && pd[w] == ds[at];
        assert(pd[w] == ds[at]);
    }
}

/// A check-script name is refused exactly when it is empty, holds a path
/// separator (`/` or `\`), holds `..`, or holds a character below U+0020
/// other than tab (NUL among them).
pub proof fn check_names_refused_exactly_when_unsafe(name: Seq<char>)
    ensures
        crate::validate::check_name_error(name) is Some <==> (name.len() == 0 || name.contains('/')
            || name.contains('\\') || seq_contains(name, ".."@) || exists|i: int|
            0 <= i < name.len() && (#[trigger] name[i] as u32) < 0x20 && name[i] != '\t'),
{
    if name.contains('\0') {
        let i = choose|i: int| 0 <= i < name.len() && name[i] == '\0';
        assert((name[i] as u32) < 0x20 && name[i] != '\t');
    }
}

/// The reason a rule gives: its own reason, followed by " Instead: " and its
/// alternative when it has both.
pub open spec fn stated_reason(rule: RuleView) -> Option<Seq<char>> {
    if rule.reason is Some && rule.alternative is Some {
        Some(rule.reason->0 + " Instead: "@ + rule.alternative->0)
    } else {
        rule.reason
    }
}

/// A rule that fires decides for itself: an Allow, Deny, Ask or Ensure rule
/// answers with its own action, names itself and its lock flag, gives its
/// stated reason, and hands over its check configuration when (and only
/// when) it is an Ensure rule; a Gate rule without a configuration denies
/// with the reason "Gate rule missing gate config"; a Gate rule whose
/// prerequisite was seen allows with its stated reason.
pub proof fn fired_rule_decides_its_action(rule: RuleView, facts: FactsView)
    ensures
        rule.action != Decision::Gate ==> rule_verdict(rule, facts) == EvalStep::Decided(
            crate::engine::Verdict {
                decision: rule.action,
                matched_rule: Some(rule.name),
                matched_locked: rule.locked,
                reason: stated_reason(rule),
                ensure_config: if rule.action == Decision::Ensure {
                    rule.ensure
                } else {
                    None
                },
            },
        ),
        rule.action == Decision::Gate && rule.gate is None ==> rule_verdict(rule, facts) == EvalStep::Decided(
            crate::engine::Verdict {
                decision: Decision::Deny,
                matched_rule: Some(rule.name),
                matched_locked: rule.locked,
                reason: Some("Gate rule missing gate config"@),
                ensure_config: None,
            },
        ),
        rule.action == Decision::Gate && rule.gate is Some && facts.vault_available && answer_of(
            facts,
            QueryView::RecentAllowedAction(rule.gate->0.requires_prior, rule.gate->0.within),
        ) == Some(Ok::<bool, Seq<char>>(true)) ==> rule_verdict(rule, facts) == EvalStep::Decided(
            crate::engine::Verdict {
                decision: Decision::Allow,
                matched_rule: Some(rule.name),
                matched_locked: rule.locked,
                reason: stated_reason(rule),
                ensure_config: None,
            },
        ),
{
}

pub(crate) proof fn lemma_trim_fixed(s: Seq<char>)
    requires
        s.len() > 0,
        !is_ws(s[0]),
        !is_ws(s.last()),
    ensures
        trim(s) == s,
{
    assert(trim_start(s) == s);
    assert(trim_end(s) == s);
}

proof fn lemma_other_call(c: Seq<char>, name: Seq<char>)
    requires
        c.len() > 0,
        c[0] == 'n',
        trim(c) == c,
        name.len() > 0,
        name[0] != 'n',
    ensures
        strip_call(c, name) is None,
{
    if starts_with(c, name) {
        assert(c.subrange(0, name.len() as int)[0] == c[0]);
    }
}

/// `not(c)` is the negation of `c`: true and false swap, and an error, a
/// request for a fact or a fault comes through unchanged.
pub proof fn not_negates(c: Seq<char>, params: Seq<char>, facts: FactsView)
    ensures
        eval_condition("not("@ + c + ")"@, params, facts) == negate(eval_condition(c, params, facts)),
{
    reveal_strlit("not(");
    reveal_strlit(")");
    reveal_strlit("not");
    reveal_strlit("(");
    reveal_strlit("contains");
    reveal_strlit("param_eq");
    reveal_strlit("param_gt");
    reveal_strlit("spend_gt");
    reveal_strlit("spend_plus_amount_gt");
    reveal_strlit("param_lt");
    reveal_strlit("param_ne");
    reveal_strlit("param_contains");
    reveal_strlit("matches");
    reveal_strlit("has_credential");
    reveal_strlit("has_recent_action");
    let w = "not("@ + c + ")"@;
    assert(w[0] == 'n');
    assert(w.last() == ')');
    lemma_trim_fixed(w);
    lemma_other_call(w, "contains"@);
    lemma_other_call(w, "param_eq"@);
    lemma_other_call(w, "param_gt"@);
    lemma_other_call(w, "spend_gt"@);
    lemma_other_call(w, "spend_plus_amount_gt"@);
    lemma_other_call(w, "param_lt"@);
    lemma_other_call(w, "param_ne"@);
    lemma_other_call(w, "param_contains"@);
    lemma_other_call(w, "matches"@);
    lemma_other_call(w, "has_credential"@);
    lemma_other_call(w, "has_recent_action"@);
    assert(eval_leaf(w, params, facts) is None);
    assert(starts_with(w, "not"@)) by {
        assert(w.subrange(0, 3) =~= "not"@);
    }
    let tail = w.subrange(3, w.len() as int);
    assert(tail =~= "("@ + c + ")"@);
    assert(tail[0] == '(');
    assert(tail.last() == ')');
    lemma_trim_fixed(tail);
    assert(tail.subrange(1, tail.len() - 1) =~= c);
    assert(strip_call(w, "not"@) == Some(c));
}

/// `not(not(c))` is `c`.
pub proof fn double_negation(c: Seq<char>, params: Seq<char>, facts: FactsView)
    ensures
        eval_condition("not("@ + ("not("@ + c + ")"@) + ")"@, params, facts) == eval_condition(c, params, facts),
{
    not_negates("not("@ + c + ")"@, params, facts);
    not_negates(c, params, facts);
}


proof fn lemma_filter_all(s: Seq<RuleView>, p: spec_fn(RuleView) -> bool, keep: bool)
    requires
        forall|i: int| 0 <= i < s.len() ==> p(#[trigger] s[i]) == keep,
    ensures
        s.filter(p) == (if keep {
            s
        } else {
            Seq::empty()
        }),
    decreases s.len(),
{
    if s.len() == 0 {
        reveal(Seq::filter);
        assert(s =~= Seq::empty());
    } else {
        let t = s.drop_last();
        assert(s =~= t.push(s.last()));
        assert forall|i: int| 0 <= i < t.len() implies p(#[trigger] t[i]) == keep by {
            assert(t[i] == s[i]);
        }
        lemma_filter_all(t, p, keep);
        t.lemma_filter_push(s.last(), p);
        assert(p(s[s.len() - 1]) == keep);
    }
}

/// With the built-in rules as the system policy, a merged policy evaluates
/// the self-protection rules and the persistent task store rule first, then
/// the user's rules, then the safe defaults.
#[verifier::spinoff_prover]
#[verifier::rlimit(40)]
pub proof fn baseline_merge_order(user: Seq<RuleView>)
    ensures
        merged(baseline_rules(), user) == self_protection_spec() + seq![task_store_spec()] + user
            + system_default_spec(),
{
    let sp = self_protection_spec();
    let t = seq![task_store_spec()];
    let sd = system_default_spec();
    let lock_t = |r: RuleView| r.locked == true;
    let lock_f = |r: RuleView| r.locked == false;
    assert(baseline_rules() == (sp + t) + sd);
    Seq::filter_distributes_over_add(sp + t, sd, lock_t);
    Seq::filter_distributes_over_add(sp + t, sd, lock_f);
    Seq::filter_distributes_over_add(sp, t, lock_t);
    Seq::filter_distributes_over_add(sp, t, lock_f);
    lemma_filter_all(sp, lock_t, true);
    lemma_filter_all(sp, lock_f, false);
    lemma_filter_all(t, lock_t, true);
    lemma_filter_all(t, lock_f, false);
    lemma_filter_all(sd, lock_t, false);
    lemma_filter_all(sd, lock_f, true);
    assert(merged(baseline_rules(), user) =~= self_protection_spec() + seq![task_store_spec()] + user + sd);
}


/// A rule without conditions fires exactly when its tool pattern matches.
pub proof fn empty_conditions_match_any(rule: RuleView, tool: Seq<char>, params: Seq<char>, facts: FactsView)
    requires
        rule.conditions.len() == 0,
    ensures
        rule_match(rule, tool, params, facts) == RuleMatch::Fires(regex_is_match(rule.tool_pattern, tool)),
{
}


proof fn lemma_append_from(
    r1: Seq<RuleView>,
    extra: Seq<RuleView>,
    k: int,
    tool: Seq<char>,
    params: Seq<char>,
    default_action: Decision,
    facts: FactsView,
)
    requires
        0 <= k <= r1.len(),
        evaluate_rules(r1, k, tool, params, default_action, facts) matches EvalStep::Decided(v)
            && v.matched_rule is Some,
    ensures
        evaluate_rules(r1 + extra, k, tool, params, default_action, facts) == evaluate_rules(
            r1,
            k,
            tool,
            params,
            default_action,
            facts,
        ),
    decreases r1.len() - k,
{
    if k < r1.len() {
        assert((r1 + extra)[k] == r1[k]);
        if rule_match(r1[k], tool, params, facts) == RuleMatch::Fires(false) {
            lemma_append_from(r1, extra, k + 1, tool, params, default_action, facts);
        }
    }
}

/// Rules appended after the last one change no decision that a rule made:
/// when some rule fires, the evaluation stays what it was.
pub proof fn appended_rules_keep_decision(
    r1: Seq<RuleView>,
    extra: Seq<RuleView>,
    tool: Seq<char>,
    params: Seq<char>,
    default_action: Decision,
    facts: FactsView,
)
    requires
        evaluate_rules(r1, 0, tool, params, default_action, facts) matches EvalStep::Decided(v)
            && v.matched_rule is Some,
    ensures
        evaluate_rules(r1 + extra, 0, tool, params, default_action, facts) == evaluate_rules(
            r1,
            0,
            tool,
            params,
            default_action,
            facts,
        ),
{
    lemma_append_from(r1, extra, 0, tool, params, default_action, facts);
}

proof fn lemma_insert_from(
    p: Seq<RuleView>,
    x: Seq<RuleView>,
    s: Seq<RuleView>,
    k: int,
    tool: Seq<char>,
    params: Seq<char>,
    default_action: Decision,
    facts: FactsView,
)
    requires
        0 <= k <= p.len(),
        forall|j: int| 0 <= j < x.len() ==> !regex_is_match((#[trigger] x[j]).tool_pattern, tool),
    ensures
        evaluate_rules(p + x + s, k, tool, params, default_action, facts) == evaluate_rules(
            p + s,
            k,
            tool,
            params,
            default_action,
            facts,
        ),
    decreases p.len() - k,
{
    if k < p.len() {
        assert((p + x + s)[k] == p[k]);
        assert((p + s)[k] == p[k]);
        lemma_insert_from(p, x, s, k + 1, tool, params, default_action, facts);
    } else {
        assert(p + x + s == p + (x + s));
        lemma_shift(p, x + s, 0, tool, params, default_action, facts);
        lemma_shift(p, s, 0, tool, params, default_action, facts);
        assert forall|j: int| 0 <= j < x.len() implies #[trigger] rule_match(x[j], tool, params, facts)
            == RuleMatch::Fires(false) by {
            assert(!regex_is_match(x[j].tool_pattern, tool));
        }
        passed_over_prefix(x, s, tool, params, default_action, facts);
    }
}

/// Rules whose tool pattern does not match the tool change nothing, wherever
/// they are inserted.
pub proof fn nonmatching_rules_change_nothing(
    p: Seq<RuleView>,
    x: Seq<RuleView>,
    s: Seq<RuleView>,
    tool: Seq<char>,
    params: Seq<char>,
    default_action: Decision,
    facts: FactsView,
)
    requires
        forall|j: int| 0 <= j < x.len() ==> !regex_is_match((#[trigger] x[j]).tool_pattern, tool),
    ensures
        evaluate_rules(p + x + s, 0, tool, params, default_action, facts) == evaluate_rules(
            p + s,
            0,
            tool,
            params,
            default_action,
            facts,
        ),
{
    lemma_insert_from(p, x, s, 0, tool, params, default_action, facts);
}


pub(crate) proof fn lemma_call_mismatch(c: Seq<char>, name: Seq<char>, i: int)
    requires
        trim(c) == c,
        0 <= i < c.len(),
        i < name.len(),
        c[i] != name[i],
    ensures
        strip_call(c, name) is None,
{
    if starts_with(c, name) {
        assert(c.subrange(0, name.len() as int)[i] == c[i]);
    }
}

pub(crate) proof fn lemma_first_comma(f: Seq<char>, rest: Seq<char>)
    requires
        !f.contains(','),
        rest.len() > 0,
        rest[0] == ',',
    ensures
        crate::text::first_index(f + rest, ',') == f.len(),
{
    let s = f + rest;
    crate::text::lemma_find_from(s, ',', 0);
    let i = crate::text::first_index(s, ',');
    assert(s[f.len() as int] == ',');
    if i != f.len() {
        assert(i != -1);
        assert(s[i] == f[i]);
    }
}

/// The text test `name` on `f` and `'v'`, as the condition reads it.
proof fn lemma_param_text_call(name: Seq<char>, f: Seq<char>, v: Seq<char>)
    requires
        name.len() > 0,
        !is_ws(name[0]),
        f.len() > 0,
        !f.contains(','),
        trim(f) == f,
    ensures
        strip_call(name + "("@ + f + ", '"@ + v + "')"@, name) == Some(f + ", '"@ + v + "'"@),
        crate::condition::comma_split(f + ", '"@ + v + "'"@) == Some((f, " '"@ + v + "'"@)),
        crate::syntax::unquote(" '"@ + v + "'"@) == crate::syntax::Unquoted::Text(v),
{
    reveal_strlit("(");
    reveal_strlit(", '");
    reveal_strlit("')");
    reveal_strlit("'");
    reveal_strlit(" '");
    let c = name + "("@ + f + ", '"@ + v + "')"@;
    assert(c.last() == ')');
    assert(c.subrange(0, name.len() as int) =~= name);
    let tail = c.subrange(name.len() as int, c.len() as int);
    assert(tail =~= "("@ + f + ", '"@ + v + "')"@);
    assert(tail[0] == '(');
    assert(tail.last() == ')');
    lemma_trim_fixed(tail);
    assert(tail.subrange(1, tail.len() - 1) =~= f + ", '"@ + v + "'"@);
    assert(c[0] == name[0]);
    lemma_trim_fixed(c);
    let args = f + ", '"@ + v + "'"@;
    assert(args =~= f + (", '"@ + v + "'"@));
    lemma_first_comma(f, ", '"@ + v + "'"@);
    assert(args.subrange(0, f.len() as int) =~= f);
    assert(args.subrange(f.len() as int + 1, args.len() as int) =~= " '"@ + v + "'"@);
    let b = " '"@ + v + "'"@;
    assert(is_ws(b[0]));
    assert(b.drop_first() =~= "'"@ + v + "'"@);
    let q = b.drop_first();
    assert(trim_start(q) == q);
    assert(trim_start(b) == q);
    assert(trim_end(q) == q);
    assert(q.subrange(1, q.len() - 1) =~= v);
}

/// `param_eq(f, 'v')` holds exactly when the string value of the field `f`
/// (the empty string when it is missing or not a string) is `v`;
/// `param_ne(f, 'v')` exactly when it is not.
pub proof fn param_eq_and_param_ne(f: Seq<char>, v: Seq<char>, params: Seq<char>, facts: FactsView)
    requires
        f.len() > 0,
        !f.contains(','),
        trim(f) == f,
    ensures
        eval_condition("param_eq("@ + f + ", '"@ + v + "')"@, params, facts) == CondStep::Done(
            Ok(json_field_str(params, f) == v),
        ),
        eval_condition("param_ne("@ + f + ", '"@ + v + "')"@, params, facts) == CondStep::Done(
            Ok(json_field_str(params, f) != v),
        ),
{
    reveal_strlit("param_eq(");
    reveal_strlit("param_ne(");
    reveal_strlit("param_eq");
    reveal_strlit("param_ne");
    reveal_strlit("param_gt");
    reveal_strlit("param_lt");
    reveal_strlit("contains");
    reveal_strlit("spend_gt");
    reveal_strlit("spend_plus_amount_gt");
    reveal_strlit("')");
    reveal_strlit("(");
    reveal_strlit(", '");
    let rest = "("@ + f + ", '"@ + v + "')"@;
    let ce = "param_eq("@ + f + ", '"@ + v + "')"@;
    let cn = "param_ne("@ + f + ", '"@ + v + "')"@;
    assert(ce =~= "param_eq"@ + "("@ + f + ", '"@ + v + "')"@);
    assert(cn =~= "param_ne"@ + "("@ + f + ", '"@ + v + "')"@);
    assert(ce[0] == 'p' && cn[0] == 'p' && ce[6] == 'e' && cn[6] == 'n');
    assert(ce.last() == ')' && cn.last() == ')');
    lemma_trim_fixed(ce);
    lemma_trim_fixed(cn);
    lemma_param_text_call("param_eq"@, f, v);
    lemma_param_text_call("param_ne"@, f, v);
    lemma_call_mismatch(ce, "contains"@, 0);
    lemma_call_mismatch(cn, "contains"@, 0);
    lemma_call_mismatch(cn, "param_eq"@, 6);
    lemma_call_mismatch(cn, "param_gt"@, 6);
    lemma_call_mismatch(cn, "spend_gt"@, 0);
    lemma_call_mismatch(cn, "spend_plus_amount_gt"@, 0);
    lemma_call_mismatch(cn, "param_lt"@, 6);
    assert(eval_leaf(ce, params, facts) == Some(CondStep::Done(Ok(json_field_str(params, f) == v))));
    assert(eval_leaf(cn, params, facts) == Some(CondStep::Done(Ok(json_field_str(params, f) != v))));
}

/// `param_contains(f, 'v')` holds exactly when the string value of the field
/// `f` (the empty string when it is missing or not a string) contains `v`.
pub proof fn param_contains_tests_the_field(f: Seq<char>, v: Seq<char>, params: Seq<char>, facts: FactsView)
    requires
        f.len() > 0,
        !f.contains(','),
        trim(f) == f,
    ensures
        eval_condition("param_contains("@ + f + ", '"@ + v + "')"@, params, facts) == CondStep::Done(
            Ok(seq_contains(json_field_str(params, f), v)),
        ),
{
    reveal_strlit("param_contains(");
    reveal_strlit("param_contains");
    reveal_strlit("param_eq");
    reveal_strlit("param_ne");
    reveal_strlit("param_gt");
    reveal_strlit("param_lt");
    reveal_strlit("contains");
    reveal_strlit("spend_gt");
    reveal_strlit("spend_plus_amount_gt");
    reveal_strlit("')");
    reveal_strlit("(");
    reveal_strlit(", '");
    let c = "param_contains("@ + f + ", '"@ + v + "')"@;
    assert(c =~= "param_contains"@ + "("@ + f + ", '"@ + v + "')"@);
    assert(c[0] == 'p' && c[6] == 'c');
    assert(c.last() == ')');
    lemma_trim_fixed(c);
    lemma_param_text_call("param_contains"@, f, v);
    lemma_call_mismatch(c, "contains"@, 0);
    lemma_call_mismatch(c, "param_eq"@, 6);
    lemma_call_mismatch(c, "param_gt"@, 6);
    lemma_call_mismatch(c, "spend_gt"@, 0);
    lemma_call_mismatch(c, "spend_plus_amount_gt"@, 0);
    lemma_call_mismatch(c, "param_lt"@, 6);
    lemma_call_mismatch(c, "param_ne"@, 6);
    assert(eval_leaf(c, params, facts) == Some(CondStep::Done(Ok(seq_contains(json_field_str(params, f), v)))));
}


/// The parenthesis depth at the end of `s`, counted from 0 (`(` opens, `)`
/// closes, never below 0).
pub open spec fn depth_of(s: Seq<char>) -> nat
    decreases s.len(),
{
    if s.len() == 0 {
        0
    } else {
        depth_after(depth_of(s.drop_last()), s.last())
    }
}

proof fn lemma_scan_prefix(a: Seq<char>, args: Seq<char>, k: int)
    requires
        args.len() >= a.len() + 4,
        args.subrange(0, a.len() as int) == a,
        args.subrange(a.len() as int, a.len() as int + 4) == " || "@,
        !a.contains('|'),
        0 <= k <= a.len(),
    ensures
        scan_top(args, " || "@, 0, 0) == scan_top(args, " || "@, k, depth_of(args.take(k))),
    decreases k,
{
    reveal_strlit(" || ");
    if k == 0 {
        assert(args.take(0).len() == 0);
    } else {
        lemma_scan_prefix(a, args, k - 1);
        let p = k - 1;
        assert(args.take(k).drop_last() =~= args.take(p));
        assert(args.take(k).last() == args[p]);
        let sep = " || "@;
        if starts_with(args.subrange(p, args.len() as int), sep) {
            assert(args.subrange(p, args.len() as int).subrange(0, 4)[1] == args[k]);
            if k < a.len() {
                assert(args[k] == args.subrange(0, a.len() as int)[k]);
                assert(a[k] == '|');
            } else {
                assert(args[k] == args.subrange(a.len() as int, a.len() as int + 4)[0]);
            }
        }
    }
}

proof fn lemma_scan_none(b: Seq<char>, k: int, depth: nat)
    requires
        !b.contains('|'),
        0 <= k,
    ensures
        scan_top(b, " || "@, k, depth) == TopSplit::NotFound,
    decreases b.len() - k,
{
    reveal_strlit(" || ");
    let sep = " || "@;
    if k < b.len() && k + sep.len() <= b.len() {
        if starts_with(b.subrange(k, b.len() as int), sep) {
            assert(b.subrange(k, b.len() as int).subrange(0, 4)[1] == b[k + 1]);
        }
        lemma_scan_none(b, k + 1, depth_after(depth, b[k]));
    }
}

/// `or(a || b)` is evaluated left to right with short circuit: when `a`
/// holds, so does the `or` and `b` is not looked at; when `a` does not
/// hold, the `or` is `b`; an error or a request for a fact in `a` stops
/// there. (`a` and `b` have no `|`, and `a` closes its parentheses.)
#[verifier::spinoff_prover]
#[verifier::rlimit(40)]
pub proof fn or_left_to_right(a: Seq<char>, b: Seq<char>, params: Seq<char>, facts: FactsView)
    requires
        !a.contains('|'),
        !b.contains('|'),
        depth_of(a) == 0,
    ensures
        eval_condition("or("@ + a + " || "@ + b + ")"@, params, facts) == match eval_condition(
            a,
            params,
            facts,
        ) {
            CondStep::Done(Ok(true)) => CondStep::Done(Ok(true)),
            CondStep::Done(Ok(false)) => eval_condition(b, params, facts),
            other => other,
        },
{
    lemma_eval_trimmed(a, params, facts);
    lemma_eval_trimmed(b, params, facts);
    reveal_strlit("or(");
    reveal_strlit("or");
    reveal_strlit("not");
    reveal_strlit("(");
    reveal_strlit(")");
    reveal_strlit(" || ");
    reveal_strlit("contains");
    reveal_strlit("param_eq");
    reveal_strlit("param_gt");
    reveal_strlit("spend_gt");
    reveal_strlit("spend_plus_amount_gt");
    reveal_strlit("param_lt");
    reveal_strlit("param_ne");
    reveal_strlit("param_contains");
    reveal_strlit("matches");
    reveal_strlit("has_credential");
    reveal_strlit("has_recent_action");
    let sep = " || "@;
    let c = "or("@ + a + sep + b + ")"@;
    assert(c[0] == 'o');
    assert(c.last() == ')');
    lemma_trim_fixed(c);
    lemma_call_mismatch(c, "contains"@, 0);
    lemma_call_mismatch(c, "param_eq"@, 0);
    lemma_call_mismatch(c, "param_gt"@, 0);
    lemma_call_mismatch(c, "spend_gt"@, 0);
    lemma_call_mismatch(c, "spend_plus_amount_gt"@, 0);
    lemma_call_mismatch(c, "param_lt"@, 0);
    lemma_call_mismatch(c, "param_ne"@, 0);
    lemma_call_mismatch(c, "param_contains"@, 0);
    lemma_call_mismatch(c, "matches"@, 0);
    lemma_call_mismatch(c, "has_credential"@, 0);
    lemma_call_mismatch(c, "has_recent_action"@, 0);
    lemma_call_mismatch(c, "not"@, 0);
    assert(eval_leaf(c, params, facts) is None);
    assert(c.subrange(0, 2) =~= "or"@);
    let tail = c.subrange(2, c.len() as int);
    assert(tail =~= "("@ + a + sep + b + ")"@);
    assert(tail[0] == '(');
    assert(tail.last() == ')');
    lemma_trim_fixed(tail);
    let args = a + sep + b;
    assert(tail.subrange(1, tail.len() - 1) =~= args);
    assert(strip_call(c, "or"@) == Some(args));
    assert(args.subrange(0, a.len() as int) =~= a);
    assert(args.subrange(a.len() as int, a.len() as int + 4) =~= sep);
    assert(seq_contains(args, sep)) by {
        assert(args.subrange(a.len() as int, a.len() as int + sep.len()) =~= sep);
    }
    assert(crate::condition::or_separator(args) == sep);
    lemma_scan_prefix(a, args, a.len() as int);
    assert(args.take(a.len() as int) =~= a);
    assert(args[a.len() as int] == ' ');
    assert(args.subrange(a.len() as int, args.len() as int).subrange(0, 4) =~= sep);
    assert(crate::syntax::split_top(args, sep) == TopSplit::At(a.len() as int));
    assert(args.subrange(a.len() as int + 4, args.len() as int) =~= b);
    lemma_scan_none(b, 0, 0);
    assert(crate::syntax::split_top(b, sep) == TopSplit::NotFound);
    assert(crate::condition::eval_or(b, sep, params, facts) == eval_condition(trim(b), params, facts));
    let k = a.len() as int;
    assert(args.subrange(0, k) == a);
    assert(args.subrange(k + sep.len(), args.len() as int) == b);
    assert(crate::condition::eval_or(args, sep, params, facts) == match eval_condition(trim(a), params, facts) {
        CondStep::Done(Ok(true)) => CondStep::Done(Ok(true)),
        CondStep::Done(Ok(false)) => crate::condition::eval_or(b, sep, params, facts),
        other => other,
    });
    assert(eval_condition(c, params, facts) == crate::condition::eval_or(args, sep, params, facts));
}


proof fn lemma_scan_prefix_comma(a: Seq<char>, args: Seq<char>, k: int)
    requires
        args.len() >= a.len() + 2,
        args.subrange(0, a.len() as int) == a,
        !a.contains(','),
        0 <= k <= a.len(),
    ensures
        scan_top(args, ", "@, 0, 0) == scan_top(args, ", "@, k, depth_of(args.take(k))),
    decreases k,
{
    reveal_strlit(", ");
    if k == 0 {
        assert(args.take(0).len() == 0);
    } else {
        lemma_scan_prefix_comma(a, args, k - 1);
        let p = k - 1;
        assert(args.take(k).drop_last() =~= args.take(p));
        assert(args.take(k).last() == args[p]);
        if starts_with(args.subrange(p, args.len() as int), ", "@) {
            assert(args.subrange(p, args.len() as int).subrange(0, 2)[0] == args[p]);
            assert(args[p] == args.subrange(0, a.len() as int)[p]);
            assert(a[p] == ',');
        }
    }
}

proof fn lemma_scan_none_comma(b: Seq<char>, k: int, depth: nat)
    requires
        !b.contains(','),
        0 <= k,
    ensures
        scan_top(b, ", "@, k, depth) == TopSplit::NotFound,
    decreases b.len() - k,
{
    reveal_strlit(", ");
    if k < b.len() && k + 2 <= b.len() {
        if starts_with(b.subrange(k, b.len() as int), ", "@) {
            assert(b.subrange(k, b.len() as int).subrange(0, 2)[0] == b[k]);
        }
        lemma_scan_none_comma(b, k + 1, depth_after(depth, b[k]));
    }
}

/// `or(a, b)`, the comma form of `or`, is evaluated as `or(a || b)` is: left
/// to right with short circuit, an error or a request for a fact in `a`
/// stopping there. (`a` and `b` have no `,` or `|`, and `a` closes its
/// parentheses.)
#[verifier::spinoff_prover]
#[verifier::rlimit(40)]
pub proof fn or_with_commas_left_to_right(a: Seq<char>, b: Seq<char>, params: Seq<char>, facts: FactsView)
    requires
        !a.contains(','),
        !b.contains(','),
        !a.contains('|'),
        !b.contains('|'),
        depth_of(a) == 0,
    ensures
        eval_condition("or("@ + a + ", "@ + b + ")"@, params, facts) == match eval_condition(a, params, facts) {
            CondStep::Done(Ok(true)) => CondStep::Done(Ok(true)),
            CondStep::Done(Ok(false)) => eval_condition(b, params, facts),
            other => other,
        },
{
    lemma_eval_trimmed(a, params, facts);
    lemma_eval_trimmed(b, params, facts);
    reveal_strlit("or(");
    reveal_strlit("or");
    reveal_strlit("not");
    reveal_strlit("(");
    reveal_strlit(")");
    reveal_strlit(", ");
    reveal_strlit(" || ");
    reveal_strlit("contains");
    reveal_strlit("param_eq");
    reveal_strlit("param_gt");
    reveal_strlit("spend_gt");
    reveal_strlit("spend_plus_amount_gt");
    reveal_strlit("param_lt");
    reveal_strlit("param_ne");
    reveal_strlit("param_contains");
    reveal_strlit("matches");
    reveal_strlit("has_credential");
    reveal_strlit("has_recent_action");
    let sep = ", "@;
    let c = "or("@ + a + sep + b + ")"@;
    assert(c[0] == 'o');
    assert(c.last() == ')');
    lemma_trim_fixed(c);
    lemma_call_mismatch(c, "contains"@, 0);
    lemma_call_mismatch(c, "param_eq"@, 0);
    lemma_call_mismatch(c, "param_gt"@, 0);
    lemma_call_mismatch(c, "spend_gt"@, 0);
    lemma_call_mismatch(c, "spend_plus_amount_gt"@, 0);
    lemma_call_mismatch(c, "param_lt"@, 0);
    lemma_call_mismatch(c, "param_ne"@, 0);
    lemma_call_mismatch(c, "param_contains"@, 0);
    lemma_call_mismatch(c, "matches"@, 0);
    lemma_call_mismatch(c, "has_credential"@, 0);
    lemma_call_mismatch(c, "has_recent_action"@, 0);
    lemma_call_mismatch(c, "not"@, 0);
    assert(eval_leaf(c, params, facts) is None);
    assert(c.subrange(0, 2) =~= "or"@);
    let tail = c.subrange(2, c.len() as int);
    assert(tail =~= "("@ + a + sep + b + ")"@);
    assert(tail[0] == '(');
    assert(tail.last() == ')');
    lemma_trim_fixed(tail);
    let args = a + sep + b;
    assert(tail.subrange(1, tail.len() - 1) =~= args);
    assert(strip_call(c, "or"@) == Some(args));
    let k = a.len() as int;
    assert forall|i: int| 0 <= i < args.len() implies args[i] != '|' by {
        if i < k {
            assert(args[i] == a[i]);
        } else if i >= k + 2 {
            assert(args[i] == b[i - k - 2]);
        }
    }
    assert(!seq_contains(args, " || "@)) by {
        if seq_contains(args, " || "@) {
            let i = choose|i: int| 0 <= i && i + 4 <= args.len() && #[trigger] args.subrange(i, i + 4) == " || "@;
            assert(args.subrange(i, i + 4)[1] == args[i + 1]);
        }
    }
    assert(crate::condition::or_separator(args) == sep);
    assert(args.subrange(0, k) =~= a);
    lemma_scan_prefix_comma(a, args, k);
    assert(args.take(k) =~= a);
    assert(args[k] == ',');
    assert(args.subrange(k, args.len() as int).subrange(0, 2) =~= sep);
    assert(crate::syntax::split_top(args, sep) == TopSplit::At(k));
    assert(args.subrange(k + 2, args.len() as int) =~= b);
    lemma_scan_none_comma(b, 0, 0);
    assert(crate::syntax::split_top(b, sep) == TopSplit::NotFound);
    assert(crate::condition::eval_or(b, sep, params, facts) == eval_condition(trim(b), params, facts));
    assert(args.subrange(k + sep.len(), args.len() as int) == b);
    assert(crate::condition::eval_or(args, sep, params, facts) == match eval_condition(trim(a), params, facts) {
        CondStep::Done(Ok(true)) => CondStep::Done(Ok(true)),
        CondStep::Done(Ok(false)) => crate::condition::eval_or(b, sep, params, facts),
        other => other,
    });
    assert(eval_condition(c, params, facts) == crate::condition::eval_or(args, sep, params, facts));
}


proof fn lemma_trim_start_head(s: Seq<char>)
    ensures
        trim_start(s).len() == 0 || !is_ws(trim_start(s)[0]),
    decreases s.len(),
{
    if s.len() > 0 && is_ws(s[0]) {
        lemma_trim_start_head(s.drop_first());
    }
}

proof fn lemma_trim_end_prefix(u: Seq<char>)
    ensures
        trim_end(u).len() <= u.len(),
        trim_end(u) == u.subrange(0, trim_end(u).len() as int),
        trim_end(u).len() == 0 || !is_ws(trim_end(u).last()),
    decreases u.len(),
{
    if u.len() > 0 && is_ws(u.last()) {
        lemma_trim_end_prefix(u.drop_last());
        assert(u.drop_last().subrange(0, trim_end(u).len() as int) =~= u.subrange(0, trim_end(u).len() as int));
    } else {
        assert(u.subrange(0, u.len() as int) =~= u);
    }
}

/// `trim` of a trimmed text changes nothing.
proof fn lemma_trim_twice(s: Seq<char>)
    ensures
        trim(trim(s)) == trim(s),
{
    let u = trim_start(s);
    lemma_trim_start_head(s);
    lemma_trim_end_prefix(u);
    let v = trim_end(u);
    if v.len() > 0 {
        assert(v[0] == u[0]);
        lemma_trim_fixed(v);
    } else {
        assert(trim_start(v) == v);
        assert(trim_end(v) == v);
    }
}

/// A condition and its trimmed text evaluate alike.
pub(crate) proof fn lemma_eval_trimmed(c: Seq<char>, params: Seq<char>, facts: FactsView)
    ensures
        eval_condition(trim(c), params, facts) == eval_condition(c, params, facts),
{
    lemma_trim_twice(c);
}

/// Rule order cannot be bypassed: once a rule decides, appending rules
/// after the last one and inserting rules whose tool pattern does not match
/// the tool leave the evaluation as it was.
pub proof fn decided_evaluation_is_stable(
    p: Seq<RuleView>,
    s: Seq<RuleView>,
    x: Seq<RuleView>,
    extra: Seq<RuleView>,
    tool: Seq<char>,
    params: Seq<char>,
    default_action: Decision,
    facts: FactsView,
)
    requires
        evaluate_rules(p + s, 0, tool, params, default_action, facts) matches EvalStep::Decided(v)
            && v.matched_rule is Some,
        forall|j: int| 0 <= j < x.len() ==> !regex_is_match((#[trigger] x[j]).tool_pattern, tool),
    ensures
        evaluate_rules(p + x + s + extra, 0, tool, params, default_action, facts) == evaluate_rules(
            p + s,
            0,
            tool,
            params,
            default_action,
            facts,
        ),
{
    assert(p + x + s + extra =~= p + x + (s + extra));
    nonmatching_rules_change_nothing(p, x, s + extra, tool, params, default_action, facts);
    assert(p + (s + extra) =~= (p + s) + extra);
    appended_rules_keep_decision(p + s, extra, tool, params, default_action, facts);
}

/// Evaluation is deterministic: two results that both report the
/// evaluation of the same call, policy and facts agree on everything but
/// their timing.
pub proof fn evaluation_is_deterministic(
    r1: crate::facts::Pending<crate::model::EvaluationResult>,
    r2: crate::facts::Pending<crate::model::EvaluationResult>,
    s: EvalStep,
)
    requires
        crate::engine::evaluation_matches(r1, s),
        crate::engine::evaluation_matches(r2, s),
    ensures
        match (r1, r2) {
            (crate::facts::Pending::Ready(a), crate::facts::Pending::Ready(b)) => {
                &&& a.decision == b.decision
                &&& crate::model::opt_view(a.matched_rule) == crate::model::opt_view(b.matched_rule)
                &&& a.matched_locked == b.matched_locked
                &&& crate::model::opt_view(a.reason) == crate::model::opt_view(b.reason)
                &&& crate::model::opt_ensure_view(a.ensure_config) == crate::model::opt_ensure_view(
                    b.ensure_config,
                )
            },
            (crate::facts::Pending::NeedsFact(q1), crate::facts::Pending::NeedsFact(q2)) => q1@ == q2@,
            _ => false,
        },
{
}


/// With a vault, a GATE rule asks the host whether its prerequisite is among
/// the last `within` allowed actions, for its own `within`, and decides by
/// the answer: allowed when it is; when it is not (or the answer is an
/// error), denied with the reason "Gate: '<prior>' not found in last
/// <within> allowed actions. " followed by the rule's own reason.
pub proof fn gate_checks_its_own_window(rule: RuleView, facts: FactsView)
    requires
        rule.action == Decision::Gate,
        rule.gate is Some,
        facts.vault_available,
    ensures
        answer_of(facts, QueryView::RecentAllowedAction(rule.gate->0.requires_prior, rule.gate->0.within)) is None
            ==> rule_verdict(rule, facts) == EvalStep::Ask(
            QueryView::RecentAllowedAction(rule.gate->0.requires_prior, rule.gate->0.within),
        ),
        answer_of(facts, QueryView::RecentAllowedAction(rule.gate->0.requires_prior, rule.gate->0.within))
            == Some(Ok::<bool, Seq<char>>(true)) ==> (rule_verdict(rule, facts) matches EvalStep::Decided(v)
            && v.decision == Decision::Allow && v.matched_rule == Some(rule.name)),
        (answer_of(facts, QueryView::RecentAllowedAction(rule.gate->0.requires_prior, rule.gate->0.within)) is Some
            && answer_of(facts, QueryView::RecentAllowedAction(rule.gate->0.requires_prior, rule.gate->0.within))
            != Some(Ok::<bool, Seq<char>>(true))) ==> (rule_verdict(rule, facts) matches EvalStep::Decided(v)
            && v.decision == Decision::Deny && v.matched_rule == Some(rule.name) && v.reason is Some
            && starts_with(
            v.reason->0,
            "Gate: '"@ + rule.gate->0.requires_prior + "' not found in last "@ + decimal(rule.gate->0.within as nat)
                + " allowed actions. "@,
        )),
{
    let g = rule.gate->0;
    let head = "Gate: '"@ + g.requires_prior + "' not found in last "@ + decimal(g.within as nat)
        + " allowed actions. "@;
    let reason = crate::engine::composed_reason(rule);
    let full = crate::engine::gate_denial(g, reason);
    let tail = match reason {
        Some(r) => r,
        None => Seq::<char>::empty(),
    };
    assert(full == head + tail);
    assert(full.subrange(0, head.len() as int) =~= head);
}


/// `has_credential('n')` asks about the name between the quotes: with a
/// vault, it is the host's answer to whether a credential named exactly `n`
/// exists (or a request for that answer); without a vault it is false.
pub proof fn has_credential_asks_for_the_quoted_name(n: Seq<char>, params: Seq<char>, facts: FactsView)
    ensures
        facts.vault_available ==> eval_condition("has_credential('"@ + n + "')"@, params, facts) == match answer_of(
            facts,
            QueryView::CredentialExists(n),
        ) {
            Some(a) => CondStep::Done(a),
            None => CondStep::Ask(QueryView::CredentialExists(n)),
        },
        !facts.vault_available ==> eval_condition("has_credential('"@ + n + "')"@, params, facts)
            == CondStep::Done(Ok(false)),
{
    reveal_strlit("has_credential('");
    reveal_strlit("has_credential");
    reveal_strlit("')");
    reveal_strlit("'");
    reveal_strlit("contains");
    reveal_strlit("param_eq");
    reveal_strlit("param_gt");
    reveal_strlit("spend_gt");
    reveal_strlit("spend_plus_amount_gt");
    reveal_strlit("param_lt");
    reveal_strlit("param_ne");
    reveal_strlit("param_contains");
    reveal_strlit("matches");
    let c = "has_credential('"@ + n + "')"@;
    assert(c[0] == 'h');
    assert(c.last() == ')');
    lemma_trim_fixed(c);
    lemma_call_mismatch(c, "contains"@, 0);
    lemma_call_mismatch(c, "param_eq"@, 0);
    lemma_call_mismatch(c, "param_gt"@, 0);
    lemma_call_mismatch(c, "spend_gt"@, 0);
    lemma_call_mismatch(c, "spend_plus_amount_gt"@, 0);
    lemma_call_mismatch(c, "param_lt"@, 0);
    lemma_call_mismatch(c, "param_ne"@, 0);
    lemma_call_mismatch(c, "param_contains"@, 0);
    lemma_call_mismatch(c, "matches"@, 0);
    let name = "has_credential"@;
    assert(c.subrange(0, 14) =~= name);
    let tail = c.subrange(14, c.len() as int);
    let args = "'"@ + n + "'"@;
    assert(tail =~= "("@ + args + ")"@) by {
        reveal_strlit("(");
        reveal_strlit(")");
    }
    assert(tail[0] == '(');
    assert(tail.last() == ')');
    lemma_trim_fixed(tail);
    assert(tail.subrange(1, tail.len() - 1) =~= args);
    assert(strip_call(c, name) == Some(args));
    assert(args[0] == '\'');
    assert(args.last() == '\'');
    lemma_trim_fixed(args);
    assert(args.subrange(1, args.len() - 1) =~= n);
    assert(crate::syntax::unquote(args) == crate::syntax::Unquoted::Text(n));
}


proof fn lemma_conditions_diags_contain(label: Seq<char>, conds: Seq<Seq<char>>, j: int)
    requires
        0 <= j < conds.len(),
    ensures
        forall|k: int|
            0 <= k < condition_diags(label, conds[j]).len() ==> conditions_diags(label, conds).contains(
                #[trigger] condition_diags(label, conds[j])[k],
            ),
    decreases conds.len(),
{
    let a = conditions_diags(label, conds.drop_last());
    let b = condition_diags(label, conds.last());
    assert(conditions_diags(label, conds) == a + b);
    if j < conds.len() - 1 {
        lemma_conditions_diags_contain(label, conds.drop_last(), j);
        assert(conds.drop_last()[j] == conds[j]);
        assert forall|k: int| 0 <= k < condition_diags(label, conds[j]).len() implies conditions_diags(label, conds).contains(
            #[trigger] condition_diags(label, conds[j])[k],
        ) by {
            let x = condition_diags(label, conds[j])[k];
            assert(a.contains(x));
            let w = choose|w: int| 0 <= w < a.len() && a[w] == x;
            assert((a + b)[w] == x);
        }
    } else {
        assert forall|k: int| 0 <= k < condition_diags(label, conds[j]).len() implies conditions_diags(label, conds).contains(
            #[trigger] condition_diags(label, conds[j])[k],
        ) by {
            assert((a + b)[a.len() + k] == b[k]);
        }
    }
}

proof fn lemma_policy_diags_contain(rules: Seq<RuleView>, probes: Seq<ProbeView>, i: int)
    requires
        0 <= i < rules.len(),
    ensures
        forall|k: int|
            0 <= k < rule_diags(i, rules[i], probes).len() ==> policy_diags(rules, probes).contains(
                #[trigger] rule_diags(i, rules[i], probes)[k],
            ),
    decreases rules.len(),
{
    let pre = rules.drop_last();
    let a = policy_diags(pre, probes);
    let b = rule_diags(rules.len() - 1, rules.last(), probes);
    assert(policy_diags(rules, probes) == a + b);
    if i < rules.len() - 1 {
        lemma_policy_diags_contain(pre, probes, i);
        assert(pre[i] == rules[i]);
        assert forall|k: int| 0 <= k < rule_diags(i, rules[i], probes).len() implies policy_diags(rules, probes).contains(
            #[trigger] rule_diags(i, rules[i], probes)[k],
        ) by {
            let x = rule_diags(i, rules[i], probes)[k];
            assert(a.contains(x));
            let w = choose|w: int| 0 <= w < a.len() && a[w] == x;
            assert((a + b)[w] == x);
        }
    } else {
        assert(rules.last() == rules[i]);
        assert forall|k: int| 0 <= k < rule_diags(i, rules[i], probes).len() implies policy_diags(rules, probes).contains(
            #[trigger] rule_diags(i, rules[i], probes)[k],
        ) by {
            assert((a + b)[a.len() + k] == b[k]);
        }
    }
}

/// Validation checks every condition of every rule: a condition written as
/// a call `f(..)` whose function name `f` (the trimmed text before the first
/// `(`) is not one the language knows is reported, under the rule's label,
/// as the error "Unknown condition function 'f'", which repair does not fix.
pub proof fn validation_reports_every_unknown_function(
    rules: Seq<RuleView>,
    probes: Seq<ProbeView>,
    i: int,
    j: int,
)
    requires
        0 <= i < rules.len(),
        0 <= j < rules[i].conditions.len(),
        crate::text::first_index(trim(rules[i].conditions[j]), '(') >= 0,
        !known_condition_fns().contains(
            trim(
                trim(rules[i].conditions[j]).subrange(
                    0,
                    crate::text::first_index(trim(rules[i].conditions[j]), '('),
                ),
            ),
        ),
    ensures
        exists|k: int|
            0 <= k < policy_diags(rules, probes).len() && (#[trigger] policy_diags(rules, probes)[k]).rule_name
                == rule_label(i, rules[i]) && policy_diags(rules, probes)[k].severity == DiagnosticSeverity::Error
                && policy_diags(rules, probes)[k].error == "Unknown condition function '"@ + trim(
                trim(rules[i].conditions[j]).subrange(
                    0,
                    crate::text::first_index(trim(rules[i].conditions[j]), '('),
                ),
            ) + "'"@ && !policy_diags(rules, probes)[k].auto_fixable,
{
    let r = rules[i];
    let label = rule_label(i, r);
    let cd = condition_diags(label, r.conditions[j]);
    assert(cd.len() == 1);
    let x = cd[0];
    lemma_conditions_diags_contain(label, r.conditions, j);
    let b = conditions_diags(label, r.conditions);
    assert(b.contains(x));
    let wb = choose|w: int| 0 <= w < b.len() && b[w] == x;
    let a = crate::validate::regex_diags(label, r);
    let ds = rule_diags(i, r, probes);
    let c = crate::validate::gate_diags(label, r);
    let e = crate::validate::ensure_diags(label, r, probes);
    assert(ds == a + b + c + e);
    assert(ds[a.len() + wb] == x);
    lemma_policy_diags_contain(rules, probes, i);
    assert(policy_diags(rules, probes).contains(ds[a.len() + wb]));
}

/// Validation of `rules` reports, under the label of rule `i`, the error
/// `error`, as one that repair can fix.
pub open spec fn reports_fixable_error(
    rules: Seq<RuleView>,
    probes: Seq<ProbeView>,
    i: int,
    error: Seq<char>,
) -> bool {
    exists|k: int|
        0 <= k < policy_diags(rules, probes).len() && (#[trigger] policy_diags(rules, probes)[k]).rule_name
            == rule_label(i, rules[i]) && policy_diags(rules, probes)[k].severity == DiagnosticSeverity::Error
            && policy_diags(rules, probes)[k].error == error && policy_diags(rules, probes)[k].auto_fixable
}

proof fn lemma_rule_diag_reported(rules: Seq<RuleView>, probes: Seq<ProbeView>, i: int, k: int)
    requires
        0 <= i < rules.len(),
        0 <= k < rule_diags(i, rules[i], probes).len(),
        rule_diags(i, rules[i], probes)[k].rule_name == rule_label(i, rules[i]),
        rule_diags(i, rules[i], probes)[k].severity == DiagnosticSeverity::Error,
        rule_diags(i, rules[i], probes)[k].auto_fixable,
    ensures
        reports_fixable_error(rules, probes, i, rule_diags(i, rules[i], probes)[k].error),
{
    lemma_policy_diags_contain(rules, probes, i);
    let x = rule_diags(i, rules[i], probes)[k];
    let pd = policy_diags(rules, probes);
    assert(pd.contains(x));
    let w = choose|w: int| 0 <= w < pd.len() && pd[w] == x;
    assert(pd[w] == x);
}

/// Validation reports every broken rule under the rule's label, as an error
/// that repair can fix: a tool pattern that does not compile; a Gate rule
/// without a gate configuration, with an empty prerequisite, or with a
/// window outside 1 to 500; an Ensure rule without an ensure configuration,
/// with an unsafe script name, or with a timeout outside 1 to 30 seconds.
pub proof fn validation_reports_broken_rules(rules: Seq<RuleView>, probes: Seq<ProbeView>, i: int)
    requires
        0 <= i < rules.len(),
    ensures
        !crate::engine::pattern_compiles(rules[i].tool_pattern) ==> reports_fixable_error(
            rules,
            probes,
            i,
            "Invalid regex '"@ + rules[i].tool_pattern + "'"@,
        ),
        rules[i].action == Decision::Gate && rules[i].gate is None ==> reports_fixable_error(
            rules,
            probes,
            i,
            "Action GATE requires 'gate' config"@,
        ),
        rules[i].action == Decision::Gate && rules[i].gate is Some && rules[i].gate->0.requires_prior.len() == 0
            ==> reports_fixable_error(rules, probes, i, "gate.requires_prior cannot be empty"@),
        rules[i].action == Decision::Gate && rules[i].gate is Some && (rules[i].gate->0.within < 1
            || rules[i].gate->0.within > 500) ==> reports_fixable_error(
            rules,
            probes,
            i,
            "gate.within must be 1-500, got "@ + decimal(rules[i].gate->0.within as nat),
        ),
        rules[i].action == Decision::Ensure && rules[i].ensure is None ==> reports_fixable_error(
            rules,
            probes,
            i,
            "Action ENSURE requires 'ensure' config"@,
        ),
        rules[i].action == Decision::Ensure && rules[i].ensure is Some && crate::validate::check_name_error(
            rules[i].ensure->0.check,
        ) is Some ==> reports_fixable_error(
            rules,
            probes,
            i,
            crate::validate::check_name_error(rules[i].ensure->0.check)->0,
        ),
        rules[i].action == Decision::Ensure && rules[i].ensure is Some && (rules[i].ensure->0.timeout < 1
            || rules[i].ensure->0.timeout > 30) ==> reports_fixable_error(
            rules,
            probes,
            i,
            "ensure.timeout must be 1-30, got "@ + decimal(rules[i].ensure->0.timeout as nat),
        ),
{
    let r = rules[i];
    let label = rule_label(i, r);
    let a = crate::validate::regex_diags(label, r);
    let b = conditions_diags(label, r.conditions);
    let c = crate::validate::gate_diags(label, r);
    let e = crate::validate::ensure_diags(label, r, probes);
    let ds = rule_diags(i, r, probes);
    assert(ds == a + b + c + e);
    if !crate::engine::pattern_compiles(r.tool_pattern) {
        assert(ds[0] == a[0]);
        lemma_rule_diag_reported(rules, probes, i, 0);
    }
    let gate_at: int = (a.len() + b.len()) as int;
    if r.action == Decision::Gate {
        match r.gate {
            None => {
                assert(ds[gate_at] == c[0]);
                lemma_rule_diag_reported(rules, probes, i, gate_at);
            },
            Some(g) => {
                let off: int = if g.requires_prior.len() == 0 {
                    1
                } else {
                    0
                };
                if g.requires_prior.len() == 0 {
                    assert(ds[gate_at] == c[0]);
                    lemma_rule_diag_reported(rules, probes, i, gate_at);
                }
                if g.within < 1 || g.within > 500 {
                    assert(ds[gate_at + off] == c[off]);
                    lemma_rule_diag_reported(rules, probes, i, gate_at + off);
                }
            },
        }
    }
    let ensure_at: int = (a.len() + b.len() + c.len()) as int;
    if r.action == Decision::Ensure {
        match r.ensure {
            None => {
                assert(ds[ensure_at] == e[0]);
                lemma_rule_diag_reported(rules, probes, i, ensure_at);
            },
            Some(en) => {
                let off: int = if crate::validate::check_name_error(en.check) is Some {
                    1
                } else {
                    0
                };
                if crate::validate::check_name_error(en.check) is Some {
                    assert(ds[ensure_at] == e[0]);
                    lemma_rule_diag_reported(rules, probes, i, ensure_at);
                }
                if en.timeout < 1 || en.timeout > 30 {
                    assert(ds[ensure_at + off] == e[off]);
                    lemma_rule_diag_reported(rules, probes, i, ensure_at + off);
                }
            },
        }
    }
}


/// The leaf forms and `not` do not read a text that starts with `c0`, for a
/// first character `c0` that begins none of their names.
pub(crate) proof fn lemma_no_leaf(c: Seq<char>, params: Seq<char>, facts: FactsView)
    requires
        c.len() > 0,
        trim(c) == c,
        c[0] != 'c' && c[0] != 'p' && c[0] != 's' && c[0] != 'm' && c[0] != 'h' && c[0] != 'n',
    ensures
        eval_leaf(c, params, facts) is None,
        strip_call(c, "not"@) is None,
{
    reveal_strlit("contains");
    reveal_strlit("param_eq");
    reveal_strlit("param_gt");
    reveal_strlit("spend_gt");
    reveal_strlit("spend_plus_amount_gt");
    reveal_strlit("param_lt");
    reveal_strlit("param_ne");
    reveal_strlit("param_contains");
    reveal_strlit("matches");
    reveal_strlit("has_credential");
    reveal_strlit("has_recent_action");
    reveal_strlit("not");
    lemma_call_mismatch(c, "contains"@, 0);
    lemma_call_mismatch(c, "param_eq"@, 0);
    lemma_call_mismatch(c, "param_gt"@, 0);
    lemma_call_mismatch(c, "spend_gt"@, 0);
    lemma_call_mismatch(c, "spend_plus_amount_gt"@, 0);
    lemma_call_mismatch(c, "param_lt"@, 0);
    lemma_call_mismatch(c, "param_ne"@, 0);
    lemma_call_mismatch(c, "param_contains"@, 0);
    lemma_call_mismatch(c, "matches"@, 0);
    lemma_call_mismatch(c, "has_credential"@, 0);
    lemma_call_mismatch(c, "has_recent_action"@, 0);
    lemma_call_mismatch(c, "not"@, 0);
}

/// `or(args)` with ` || ` in its arguments walks them split at ` || `.
pub(crate) proof fn lemma_or_entry(args: Seq<char>, params: Seq<char>, facts: FactsView)
    requires
        seq_contains(args, " || "@),
    ensures
        eval_condition("or("@ + args + ")"@, params, facts) == crate::condition::eval_or(args, " || "@, params, facts),
{
    reveal_strlit("or(");
    reveal_strlit("or");
    reveal_strlit("(");
    reveal_strlit(")");
    let c = "or("@ + args + ")"@;
    assert(c[0] == 'o');
    assert(c.last() == ')');
    lemma_trim_fixed(c);
    lemma_no_leaf(c, params, facts);
    assert(c.subrange(0, 2) =~= "or"@);
    let tail = c.subrange(2, c.len() as int);
    assert(tail =~= "("@ + args + ")"@);
    assert(tail[0] == '(');
    assert(tail.last() == ')');
    lemma_trim_fixed(tail);
    assert(tail.subrange(1, tail.len() - 1) =~= args);
    assert(strip_call(c, "or"@) == Some(args));
    assert(crate::condition::or_separator(args) == " || "@);
}

/// A text with ` || ` in it contains ` || `.
pub(crate) proof fn lemma_has_sep(a: Seq<char>, rest: Seq<char>)
    ensures
        seq_contains(a + " || "@ + rest, " || "@),
{
    let args = a + " || "@ + rest;
    assert(args.subrange(a.len() as int, a.len() as int + " || "@.len()) =~= " || "@);
}

/// One step of the walk of `or`: the branch before the first ` || ` first.
pub(crate) proof fn lemma_or_step(a: Seq<char>, rest: Seq<char>, params: Seq<char>, facts: FactsView)
    requires
        !a.contains('|'),
        depth_of(a) == 0,
    ensures
        crate::condition::eval_or(a + " || "@ + rest, " || "@, params, facts) == match eval_condition(
            trim(a),
            params,
            facts,
        ) {
            CondStep::Done(Ok(true)) => CondStep::Done(Ok(true)),
            CondStep::Done(Ok(false)) => crate::condition::eval_or(rest, " || "@, params, facts),
            other => other,
        },
{
    reveal_strlit(" || ");
    let sep = " || "@;
    let args = a + sep + rest;
    assert(args.subrange(0, a.len() as int) =~= a);
    assert(args.subrange(a.len() as int, a.len() as int + 4) =~= sep);
    lemma_scan_prefix(a, args, a.len() as int);
    assert(args.take(a.len() as int) =~= a);
    assert(args[a.len() as int] == ' ');
    assert(args.subrange(a.len() as int, args.len() as int).subrange(0, 4) =~= sep);
    assert(crate::syntax::split_top(args, sep) == TopSplit::At(a.len() as int));
    assert(args.subrange(a.len() as int + 4, args.len() as int) =~= rest);
}

/// The last branch of `or`.
pub(crate) proof fn lemma_or_last(b: Seq<char>, params: Seq<char>, facts: FactsView)
    requires
        !b.contains('|'),
    ensures
        crate::condition::eval_or(b, " || "@, params, facts) == eval_condition(trim(b), params, facts),
{
    lemma_scan_none(b, 0, 0);
    assert(crate::syntax::split_top(b, " || "@) == TopSplit::NotFound);
}

/// `contains(parameters, 'w')` holds exactly when the parameters' JSON text
/// contains `w`.
pub proof fn contains_tests_the_parameters(w: Seq<char>, params: Seq<char>, facts: FactsView)
    ensures
        eval_condition("contains(parameters, '"@ + w + "')"@, params, facts) == CondStep::Done(
            Ok(seq_contains(params, w)),
        ),
{
    reveal_strlit("contains(parameters, '");
    reveal_strlit("contains");
    reveal_strlit("(");
    reveal_strlit(")");
    reveal_strlit("')");
    reveal_strlit("'");
    reveal_strlit("parameters, '");
    let c = "contains(parameters, '"@ + w + "')"@;
    assert(c[0] == 'c');
    assert(c.last() == ')');
    lemma_trim_fixed(c);
    assert(c.subrange(0, 8) =~= "contains"@);
    let tail = c.subrange(8, c.len() as int);
    let args = "parameters, '"@ + w + "'"@;
    assert(tail =~= "("@ + args + ")"@);
    assert(tail[0] == '(');
    assert(tail.last() == ')');
    lemma_trim_fixed(tail);
    assert(tail.subrange(1, tail.len() - 1) =~= args);
    assert(strip_call(c, "contains"@) == Some(args));
    let pre = "parameters"@;
    reveal_strlit("parameters");
    reveal_strlit(", '");
    assert(args =~= pre + (", '"@ + w + "'"@));
    assert(!pre.contains(','));
    lemma_first_comma(pre, ", '"@ + w + "'"@);
    let b = " '"@ + w + "'"@;
    reveal_strlit(" '");
    assert(args.subrange(pre.len() as int + 1, args.len() as int) =~= b);
    assert(crate::syntax::after_first_comma(args) == b);
    assert(is_ws(b[0]));
    let q = b.drop_first();
    assert(q =~= "'"@ + w + "'"@);
    assert(trim_start(q) == q);
    assert(trim_start(b) == q);
    assert(trim_end(q) == q);
    assert(q.subrange(1, q.len() - 1) =~= w);
    assert(crate::syntax::unquote(b) == crate::syntax::Unquoted::Text(w));
}

/// `contains_word(parameters, 'w')` is the word test of `w` on the
/// parameters (`eval_word`: the word between word boundaries, case aside,
/// after escaped control characters have become spaces).
pub proof fn contains_word_tests_the_word(w: Seq<char>, params: Seq<char>, facts: FactsView)
    ensures
        eval_condition("contains_word(parameters, '"@ + w + "')"@, params, facts) == crate::condition::eval_word(
            w,
            params,
        ),
{
    reveal_strlit("contains_word(parameters, '");
    reveal_strlit("contains_word");
    reveal_strlit("contains");
    reveal_strlit("any_of");
    reveal_strlit("true");
    reveal_strlit("false");
    reveal_strlit("(");
    reveal_strlit(")");
    reveal_strlit("')");
    reveal_strlit("'");
    reveal_strlit("not");
    reveal_strlit("or");
    let c = "contains_word(parameters, '"@ + w + "')"@;
    assert(c[0] == 'c');
    assert(c.last() == ')');
    lemma_trim_fixed(c);
    // not `contains(..)`: after the name comes `_`
    let t8 = c.subrange(8, c.len() as int);
    assert(t8[0] == '_');
    assert(t8.last() == ')');
    lemma_trim_fixed(t8);
    assert(strip_call(c, "contains"@) is None);
    reveal_strlit("param_eq");
    reveal_strlit("param_gt");
    reveal_strlit("spend_gt");
    reveal_strlit("spend_plus_amount_gt");
    reveal_strlit("param_lt");
    reveal_strlit("param_ne");
    reveal_strlit("param_contains");
    reveal_strlit("matches");
    reveal_strlit("has_credential");
    reveal_strlit("has_recent_action");
    lemma_call_mismatch(c, "param_eq"@, 0);
    lemma_call_mismatch(c, "param_gt"@, 0);
    lemma_call_mismatch(c, "spend_gt"@, 0);
    lemma_call_mismatch(c, "spend_plus_amount_gt"@, 0);
    lemma_call_mismatch(c, "param_lt"@, 0);
    lemma_call_mismatch(c, "param_ne"@, 0);
    lemma_call_mismatch(c, "param_contains"@, 0);
    lemma_call_mismatch(c, "matches"@, 0);
    lemma_call_mismatch(c, "has_credential"@, 0);
    lemma_call_mismatch(c, "has_recent_action"@, 0);
    lemma_call_mismatch(c, "not"@, 0);
    lemma_call_mismatch(c, "or"@, 0);
    lemma_call_mismatch(c, "any_of"@, 0);
    assert(eval_leaf(c, params, facts) is None);
    assert(c != "true"@) by {
        if c == "true"@ {
            assert(c[0] == 't');
        }
    }
    assert(c != "false"@) by {
        if c == "false"@ {
            assert(c[0] == 'f');
        }
    }
    assert(c.subrange(0, 13) =~= "contains_word"@);
    let tail = c.subrange(13, c.len() as int);
    let args = "parameters, '"@ + w + "'"@;
    assert(tail =~= "("@ + args + ")"@) by {
        reveal_strlit("parameters, '");
    }
    assert(tail[0] == '(');
    assert(tail.last() == ')');
    lemma_trim_fixed(tail);
    assert(tail.subrange(1, tail.len() - 1) =~= args);
    assert(strip_call(c, "contains_word"@) == Some(args));
    let pre = "parameters"@;
    reveal_strlit("parameters");
    reveal_strlit(", '");
    reveal_strlit("parameters, '");
    assert(args =~= pre + (", '"@ + w + "'"@));
    assert(!pre.contains(','));
    lemma_first_comma(pre, ", '"@ + w + "'"@);
    let b = " '"@ + w + "'"@;
    reveal_strlit(" '");
    assert(args.subrange(pre.len() as int + 1, args.len() as int) =~= b);
    assert(crate::syntax::after_first_comma(args) == b);
    assert(is_ws(b[0]));
    let q = b.drop_first();
    assert(q =~= "'"@ + w + "'"@);
    assert(trim_start(q) == q);
    assert(trim_start(b) == q);
    assert(trim_end(q) == q);
    assert(q.subrange(1, q.len() - 1) =~= w);
    assert(crate::syntax::unquote(b) == crate::syntax::Unquoted::Text(w));
}


proof fn lemma_disk_rule_text()
    ensures
        system_default_spec()[2].name == "block_destructive_disk"@,
        system_default_spec()[2].tool_pattern == "^Bash$"@,
        system_default_spec()[2].action == Decision::Deny,
        !system_default_spec()[2].locked,
        system_default_spec()[2].conditions.len() == 1,
        system_default_spec()[2].conditions[0] == "or("@ + ("contains_word(parameters, 'mkfs')"@ + " || "@ + (
        "contains(parameters, 'dd if=')"@ + " || "@ + ("contains(parameters, 'diskutil erase')"@ + " || "@
            + "contains(parameters, 'wipefs')"@))) + ")"@,
{
    reveal_strlit("or(contains_word(parameters, 'mkfs') || contains(parameters, 'dd if=') || contains(parameters, 'diskutil erase') || contains(parameters, 'wipefs'))");
    reveal_strlit("contains_word(parameters, 'mkfs')");
    reveal_strlit("contains(parameters, 'dd if=')");
    reveal_strlit("contains(parameters, 'diskutil erase')");
    reveal_strlit("contains(parameters, 'wipefs')");
    reveal_strlit(" || ");
    reveal_strlit("or(");
    reveal_strlit(")");
    assert("or(contains_word(parameters, 'mkfs') || contains(parameters, 'dd if=') || contains(parameters, 'diskutil erase') || contains(parameters, 'wipefs'))"@
        =~= "or("@ + ("contains_word(parameters, 'mkfs')"@ + " || "@ + ("contains(parameters, 'dd if=')"@ + " || "@ + (
    "contains(parameters, 'diskutil erase')"@ + " || "@ + "contains(parameters, 'wipefs')"@))) + ")"@);
}

proof fn lemma_disk_branches()
    ensures
        "contains_word(parameters, 'mkfs')"@ == "contains_word(parameters, '"@ + "mkfs"@ + "')"@,
        "contains(parameters, 'dd if=')"@ == "contains(parameters, '"@ + "dd if="@ + "')"@,
        "contains(parameters, 'diskutil erase')"@ == "contains(parameters, '"@ + "diskutil erase"@ + "')"@,
        "contains(parameters, 'wipefs')"@ == "contains(parameters, '"@ + "wipefs"@ + "')"@,
        !"contains_word(parameters, 'mkfs')"@.contains('|'),
        !"contains(parameters, 'dd if=')"@.contains('|'),
        !"contains(parameters, 'diskutil erase')"@.contains('|'),
        !"contains(parameters, 'wipefs')"@.contains('|'),
{
    reveal_strlit("contains_word(parameters, 'mkfs')");
    reveal_strlit("contains(parameters, 'dd if=')");
    reveal_strlit("contains(parameters, 'diskutil erase')");
    reveal_strlit("contains(parameters, 'wipefs')");
    reveal_strlit("contains_word(parameters, '");
    reveal_strlit("contains(parameters, '");
    reveal_strlit("')");
    reveal_strlit("mkfs");
    reveal_strlit("dd if=");
    reveal_strlit("diskutil erase");
    reveal_strlit("wipefs");
    assert("contains_word(parameters, 'mkfs')"@ =~= "contains_word(parameters, '"@ + "mkfs"@ + "')"@);
    assert("contains(parameters, 'dd if=')"@ =~= "contains(parameters, '"@ + "dd if="@ + "')"@);
    assert("contains(parameters, 'diskutil erase')"@ =~= "contains(parameters, '"@ + "diskutil erase"@ + "')"@);
    assert("contains(parameters, 'wipefs')"@ =~= "contains(parameters, '"@ + "wipefs"@ + "')"@);
}

proof fn lemma_depth_plain(s: Seq<char>, t: Seq<char>)
    requires
        !t.contains('('),
        !t.contains(')'),
    ensures
        depth_of(s + t) == depth_of(s),
    decreases t.len(),
{
    if t.len() == 0 {
        assert(s + t =~= s);
    } else {
        let u = t.drop_last();
        assert(!u.contains('(') && !u.contains(')')) by {
            if u.contains('(') {
                let i = choose|i: int| 0 <= i < u.len() && u[i] == '(';
                assert(t[i] == '(');
            }
            if u.contains(')') {
                let i = choose|i: int| 0 <= i < u.len() && u[i] == ')';
                assert(t[i] == ')');
            }
        }
        lemma_depth_plain(s, u);
        assert((s + t).drop_last() =~= s + u);
        assert((s + t).last() == t.last());
        assert(t.last() == t[t.len() - 1]);
    }
}

/// A call `p(q)` with no parentheses in `p` or `q` ends at depth 0.
pub(crate) proof fn lemma_depth_call(p: Seq<char>, q: Seq<char>)
    requires
        !p.contains('('),
        !p.contains(')'),
        !q.contains('('),
        !q.contains(')'),
    ensures
        depth_of(p + "("@ + q + ")"@) == 0,
{
    reveal_strlit("(");
    reveal_strlit(")");
    let e = Seq::<char>::empty();
    lemma_depth_plain(e, p);
    assert(e + p =~= p);
    let p1 = p + "("@;
    assert(p1.drop_last() =~= p);
    assert(depth_of(p1) == 1);
    lemma_depth_plain(p1, q);
    let p2 = p1 + q + ")"@;
    assert(p2.drop_last() =~= p1 + q);
    assert(p + "("@ + q + ")"@ =~= p2);
}

proof fn lemma_disk_depths()
    ensures
        depth_of("contains_word(parameters, 'mkfs')"@) == 0,
        depth_of("contains(parameters, 'dd if=')"@) == 0,
        depth_of("contains(parameters, 'diskutil erase')"@) == 0,
{
    reveal_strlit("contains_word(parameters, 'mkfs')");
    reveal_strlit("contains(parameters, 'dd if=')");
    reveal_strlit("contains(parameters, 'diskutil erase')");
    reveal_strlit("contains_word");
    reveal_strlit("contains");
    reveal_strlit("parameters, 'mkfs'");
    reveal_strlit("parameters, 'dd if='");
    reveal_strlit("parameters, 'diskutil erase'");
    reveal_strlit("(");
    reveal_strlit(")");
    lemma_depth_call("contains_word"@, "parameters, 'mkfs'"@);
    lemma_depth_call("contains"@, "parameters, 'dd if='"@);
    lemma_depth_call("contains"@, "parameters, 'diskutil erase'"@);
    assert("contains_word(parameters, 'mkfs')"@ =~= "contains_word"@ + "("@ + "parameters, 'mkfs'"@ + ")"@);
    assert("contains(parameters, 'dd if=')"@ =~= "contains"@ + "("@ + "parameters, 'dd if='"@ + ")"@);
    assert("contains(parameters, 'diskutil erase')"@ =~= "contains"@ + "("@ + "parameters, 'diskutil erase'"@ + ")"@);
}

/// The safe default `block_destructive_disk` is an unlocked DENY rule for
/// the tool `Bash` whose one condition holds when the parameters contain
/// the word `mkfs`, or the text `dd if=`, `diskutil erase` or `wipefs`; the
/// word test comes first, and an error in it stops the `or`.
#[verifier::spinoff_prover]
pub proof fn destructive_disk_rule_blocks_disk_tools(params: Seq<char>, facts: FactsView)
    ensures
        system_default_spec()[2].name == "block_destructive_disk"@,
        system_default_spec()[2].tool_pattern == "^Bash$"@,
        system_default_spec()[2].action == Decision::Deny,
        !system_default_spec()[2].locked,
        system_default_spec()[2].conditions.len() == 1,
        eval_condition(system_default_spec()[2].conditions[0], params, facts) == match crate::condition::eval_word(
            "mkfs"@,
            params,
        ) {
            CondStep::Done(Ok(true)) => CondStep::Done(Ok(true)),
            CondStep::Done(Ok(false)) => CondStep::Done(
                Ok(
                    seq_contains(params, "dd if="@) || seq_contains(params, "diskutil erase"@)
                        || seq_contains(params, "wipefs"@),
                ),
            ),
            other => other,
        },
{
    let sep = " || "@;
    let a = "contains_word(parameters, 'mkfs')"@;
    let b = "contains(parameters, 'dd if=')"@;
    let c = "contains(parameters, 'diskutil erase')"@;
    let d = "contains(parameters, 'wipefs')"@;
    lemma_disk_rule_text();
    lemma_disk_branches();
    lemma_disk_depths();
    let r3 = c + sep + d;
    let r2 = b + sep + r3;
    let args = a + sep + r2;
    assert(seq_contains(args, sep)) by {
        assert(args.subrange(a.len() as int, a.len() as int + sep.len()) =~= sep);
    }
    lemma_or_entry(args, params, facts);
    lemma_or_step(a, r2, params, facts);
    lemma_or_step(b, r3, params, facts);
    lemma_or_step(c, d, params, facts);
    lemma_or_last(d, params, facts);
    lemma_eval_trimmed(a, params, facts);
    lemma_eval_trimmed(b, params, facts);
    lemma_eval_trimmed(c, params, facts);
    lemma_eval_trimmed(d, params, facts);
    contains_word_tests_the_word("mkfs"@, params, facts);
    contains_tests_the_parameters("dd if="@, params, facts);
    contains_tests_the_parameters("diskutil erase"@, params, facts);
    contains_tests_the_parameters("wipefs"@, params, facts);
}


/// The argument text `'w1', 'w2', ...` of `any_of` after `parameters,`:
/// each word quoted, after a space, separated by commas.
pub open spec fn quoted_words(ws: Seq<Seq<char>>) -> Seq<char>
    decreases ws.len(),
{
    if ws.len() <= 1 {
        if ws.len() == 0 {
            Seq::empty()
        } else {
            " '"@ + ws[0] + "'"@
        }
    } else {
        " '"@ + ws[0] + "'"@ + ","@ + quoted_words(ws.drop_first())
    }
}

/// Some word of `ws` occurs in the parameters.
pub open spec fn some_word_in(ws: Seq<Seq<char>>, params: Seq<char>) -> bool {
    exists|i: int| 0 <= i < ws.len() && seq_contains(params, #[trigger] ws[i])
}

pub(crate) proof fn lemma_quoted_piece(w: Seq<char>)
    ensures
        crate::syntax::unquote(" '"@ + w + "'"@) == crate::syntax::Unquoted::Text(w),
        !(" '"@ + w + "'"@).contains(',') <== !w.contains(','),
{
    reveal_strlit(" '");
    reveal_strlit("'");
    let b = " '"@ + w + "'"@;
    assert(is_ws(b[0]));
    let q = b.drop_first();
    assert(q =~= "'"@ + w + "'"@);
    assert(trim_start(q) == q);
    assert(trim_start(b) == q);
    assert(trim_end(q) == q);
    assert(q.subrange(1, q.len() - 1) =~= w);
    if !w.contains(',') && b.contains(',') {
        let i = choose|i: int| 0 <= i < b.len() && b[i] == ',';
        assert(i >= 2 && i < b.len() - 1);
        assert(w[i - 2] == b[i]);
    }
}

proof fn lemma_any_of_words(ws: Seq<Seq<char>>, params: Seq<char>)
    requires
        ws.len() > 0,
        forall|i: int| 0 <= i < ws.len() ==> !(#[trigger] ws[i]).contains(','),
    ensures
        crate::condition::any_of_words(quoted_words(ws), params) == Some(some_word_in(ws, params)),
    decreases ws.len(),
{
    reveal_strlit(",");
    let w = ws[0];
    let piece = " '"@ + w + "'"@;
    lemma_quoted_piece(w);
    if ws.len() == 1 {
        crate::text::lemma_find_from(piece, ',', 0);
        assert(crate::text::first_index(piece, ',') == -1) by {
            let f = crate::text::first_index(piece, ',');
            if f != -1 {
                assert(piece[f] == ',');
            }
        }
        assert(quoted_words(ws) == piece);
        if seq_contains(params, w) {
            assert(seq_contains(params, ws[0]));
        }
    } else {
        let rest = ws.drop_first();
        assert forall|i: int| 0 <= i < rest.len() implies !(#[trigger] rest[i]).contains(',') by {
            assert(rest[i] == ws[i + 1]);
        }
        lemma_any_of_words(rest, params);
        let text = quoted_words(ws);
        assert(text == piece + (","@ + quoted_words(rest)));
        lemma_first_comma(piece, ","@ + quoted_words(rest));
        assert(text.subrange(0, piece.len() as int) =~= piece);
        assert(text.subrange(piece.len() as int + 1, text.len() as int) =~= quoted_words(rest));
        if some_word_in(rest, params) {
            let j = choose|j: int| 0 <= j < rest.len() && seq_contains(params, #[trigger] rest[j]);
            assert(ws[j + 1] == rest[j]);
        }
        if some_word_in(ws, params) && !seq_contains(params, w) {
            let j = choose|j: int| 0 <= j < ws.len() && seq_contains(params, #[trigger] ws[j]);
            assert(j != 0);
            assert(rest[j - 1] == ws[j]);
        }
        if seq_contains(params, w) {
            assert(seq_contains(params, ws[0]));
        }
    }
}

/// `any_of(parameters, 'w1', 'w2', ...)` holds exactly when one of the
/// words occurs in the parameters' JSON text (words without commas).
pub proof fn any_of_tests_each_word(ws: Seq<Seq<char>>, params: Seq<char>, facts: FactsView)
    requires
        ws.len() > 0,
        forall|i: int| 0 <= i < ws.len() ==> !(#[trigger] ws[i]).contains(','),
    ensures
        eval_condition("any_of(parameters,"@ + quoted_words(ws) + ")"@, params, facts) == CondStep::Done(
            Ok(some_word_in(ws, params)),
        ),
{
    reveal_strlit("any_of(parameters,");
    reveal_strlit("any_of");
    reveal_strlit("parameters,");
    reveal_strlit("parameters");
    reveal_strlit("(");
    reveal_strlit(")");
    reveal_strlit("true");
    reveal_strlit("false");
    reveal_strlit("or");
    let c = "any_of(parameters,"@ + quoted_words(ws) + ")"@;
    assert(c[0] == 'a');
    assert(c.last() == ')');
    lemma_trim_fixed(c);
    lemma_no_leaf(c, params, facts);
    lemma_call_mismatch(c, "or"@, 0);
    assert(c != "true"@) by {
        if c == "true"@ {
            assert(c[0] == 't');
        }
    }
    assert(c != "false"@) by {
        if c == "false"@ {
            assert(c[0] == 'f');
        }
    }
    assert(c.subrange(0, 6) =~= "any_of"@);
    let args = "parameters,"@ + quoted_words(ws);
    let tail = c.subrange(6, c.len() as int);
    assert(tail =~= "("@ + args + ")"@);
    assert(tail[0] == '(');
    assert(tail.last() == ')');
    lemma_trim_fixed(tail);
    assert(tail.subrange(1, tail.len() - 1) =~= args);
    assert(strip_call(c, "any_of"@) == Some(args));
    let pre = "parameters"@;
    assert(args =~= pre + (","@ + quoted_words(ws))) by {
        reveal_strlit(",");
    }
    assert(!pre.contains(','));
    reveal_strlit(",");
    lemma_first_comma(pre, ","@ + quoted_words(ws));
    assert(args.subrange(pre.len() as int + 1, args.len() as int) =~= quoted_words(ws));
    lemma_any_of_words(ws, params);
}


/// `matches(f, 'p')` holds exactly when the regex `p` matches the string
/// value of the field `f` (the empty string when it is missing or not a
/// string); a pattern that does not compile gives the error
/// "regex: <message>".
pub proof fn matches_tests_the_field(f: Seq<char>, pat: Seq<char>, params: Seq<char>, facts: FactsView)
    requires
        f.len() > 0,
        !f.contains(','),
        trim(f) == f,
    ensures
        eval_condition("matches("@ + f + ", '"@ + pat + "')"@, params, facts) == match crate::pattern::regex_new_outcome(
            pat,
        ) {
            Err(e) => CondStep::Done(Err("regex: "@ + e)),
            Ok(_) => CondStep::Done(Ok(regex_is_match(pat, json_field_str(params, f)))),
        },
{
    reveal_strlit("matches(");
    reveal_strlit("matches");
    reveal_strlit("contains");
    reveal_strlit("param_eq");
    reveal_strlit("param_gt");
    reveal_strlit("spend_gt");
    reveal_strlit("spend_plus_amount_gt");
    reveal_strlit("param_lt");
    reveal_strlit("param_ne");
    reveal_strlit("param_contains");
    reveal_strlit("(");
    reveal_strlit(", '");
    reveal_strlit("')");
    let c = "matches("@ + f + ", '"@ + pat + "')"@;
    assert(c =~= "matches"@ + "("@ + f + ", '"@ + pat + "')"@);
    assert(c[0] == 'm');
    assert(c.last() == ')');
    lemma_trim_fixed(c);
    lemma_param_text_call("matches"@, f, pat);
    lemma_call_mismatch(c, "contains"@, 0);
    lemma_call_mismatch(c, "param_eq"@, 0);
    lemma_call_mismatch(c, "param_gt"@, 0);
    lemma_call_mismatch(c, "spend_gt"@, 0);
    lemma_call_mismatch(c, "spend_plus_amount_gt"@, 0);
    lemma_call_mismatch(c, "param_lt"@, 0);
    lemma_call_mismatch(c, "param_ne"@, 0);
    lemma_call_mismatch(c, "param_contains"@, 0);
}

} // verus!
