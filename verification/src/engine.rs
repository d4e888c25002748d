//! Compiling a policy and evaluating a tool call against it: the first rule
//! whose tool pattern matches and whose conditions all hold decides;
//! otherwise the policy's default action applies.

use vstd::prelude::*;
use crate::model::{
    Decision, PolicyConfig, PolicyRule, CompiledRule, CompiledPolicy, EvaluationResult, ToolCall,
    RuleView, GateView, EnsureView, rules_view, compiled_rules_view, opt_view, opt_ensure_view,
    clone_strings, clone_opt_string, clone_opt_gate, clone_opt_ensure, GateConfig,
};
use crate::pattern::{regex_new_outcome, regex_is_match, compile_pattern};
use crate::facts::{QueryView, FactsView, answer_of, HostFacts, HostQuery, Pending};
use crate::condition::{
    eval_condition, CondStep, CondOut, evaluate_condition_step, out_matches, concat, WordPatterns,
    contains_word_arguments,
};
use crate::text::{decimal, decimal_string, to_chars};
use crate::clock;

verus! {

/// The tool pattern compiles as a regex.
pub open spec fn pattern_compiles(pattern: Seq<char>) -> bool {
    regex_new_outcome(pattern) is Ok
}

/// The rules of a configuration that survive compilation, in order: those
/// whose tool pattern compiles.
pub open spec fn compilable(rules: Seq<RuleView>) -> Seq<RuleView> {
    rules.filter(|r: RuleView| pattern_compiles(r.tool_pattern))
}

fn compile_rule(r: &PolicyRule) -> (c: Option<CompiledRule>)
    ensures
        match c {
            Some(cr) => pattern_compiles(r@.tool_pattern) && cr@ == r@,
            None => !pattern_compiles(r@.tool_pattern),
        },
{
    match compile_pattern(r.tool_pattern.as_str()) {
        Err(_) => None,
        Ok(regex) => Some(
            CompiledRule {
                name: r.name.clone(),
                tool_regex: regex,
                conditions: clone_strings(&r.conditions),
                action: r.action,
                reason: clone_opt_string(&r.reason),
                alternative: clone_opt_string(&r.alternative),
                locked: r.locked,
                gate: clone_opt_gate(&r.gate),
                ensure: clone_opt_ensure(&r.ensure),
            },
        ),
    }
}

impl CompiledPolicy {
    /// Compiles each rule's tool pattern; rules whose pattern does not
    /// compile are left out.
    pub fn from_config(config: &PolicyConfig) -> (p: Self)
        ensures
            compiled_rules_view(p.rules@) == compilable(rules_view(config.rules@)),
            p.default_action == config.default_action,
    {
        let mut rules: Vec<CompiledRule> = Vec::new();
        let mut i: usize = 0;
        while i < config.rules.len()
            invariant
                i <= config.rules.len(),
                compiled_rules_view(rules@) == compilable(rules_view(config.rules@).take(i as int)),
            decreases config.rules.len() - i,
        {
            proof {
                let all = rules_view(config.rules@);
                assert(all.take(i + 1).drop_last() =~= all.take(i as int));
                assert(all.take(i + 1).last() == config.rules@[i as int]@);
                reveal(Seq::filter);
            }
            let c = compile_rule(&config.rules[i]);
            match c {
                Some(cr) => {
                    let ghost prev = rules@;
                    rules.push(cr);
                    assert(rules@ =~= prev.push(cr));
                    assert(compiled_rules_view(rules@) =~= compiled_rules_view(prev).push(cr@));
                },
                None => {},
            }
            i += 1;
        }
        assert(rules_view(config.rules@).take(config.rules.len() as int) =~= rules_view(config.rules@));
        let mut conditions: Vec<String> = Vec::new();
        let mut k: usize = 0;
        while k < rules.len()
            decreases rules.len() - k,
        {
            let conds = &rules[k].conditions;
            let mut m: usize = 0;
            while m < conds.len()
                decreases conds.len() - m,
            {
                conditions.push(conds[m].clone());
                m += 1;
            }
            k += 1;
        }
        let words = contains_word_arguments(&conditions);
        let word_patterns = WordPatterns::for_words(&words);
        CompiledPolicy { rules, default_action: config.default_action, word_patterns }
    }
}


/// Whether a rule fires, or what stops evaluation first.
pub enum RuleMatch {
    Fires(bool),
    Ask(QueryView),
    Fault,
}

/// The conditions from `i` on all hold. A condition that is false or
/// erroneous stops the rule.
pub open spec fn conditions_match(conds: Seq<Seq<char>>, i: int, params: Seq<char>, facts: FactsView) -> RuleMatch
    decreases conds.len() - i,
{
    if i < 0 || i >= conds.len() {
        RuleMatch::Fires(true)
    } else {
        match eval_condition(conds[i], params, facts) {
            CondStep::Done(Ok(true)) => conditions_match(conds, i + 1, params, facts),
            CondStep::Done(_) => RuleMatch::Fires(false),
            CondStep::Ask(q) => RuleMatch::Ask(q),
            CondStep::Fault => RuleMatch::Fault,
        }
    }
}

/// A rule fires when its tool pattern matches the tool name and all its
/// conditions hold.
pub open spec fn rule_match(rule: RuleView, tool: Seq<char>, params: Seq<char>, facts: FactsView) -> RuleMatch {
    if !regex_is_match(rule.tool_pattern, tool) {
        RuleMatch::Fires(false)
    } else {
        conditions_match(rule.conditions, 0, params, facts)
    }
}

/// The reason reported for a rule: its reason, followed by its alternative
/// when it has both.
pub open spec fn composed_reason(rule: RuleView) -> Option<Seq<char>> {
    match (rule.reason, rule.alternative) {
        (Some(r), Some(alt)) => Some(r + " Instead: "@ + alt),
        (r, _) => r,
    }
}

/// Whether a Gate's prerequisite was seen, or the fact needed to tell. No
/// vault: never.
pub enum GateStep {
    Passed(bool),
    Ask(QueryView),
}

pub open spec fn gate_query(g: GateView) -> QueryView {
    QueryView::RecentAllowedAction(g.requires_prior, g.within)
}

pub open spec fn gate_check(g: GateView, facts: FactsView) -> GateStep {
    if !facts.vault_available {
        GateStep::Passed(false)
    } else {
        match answer_of(facts, gate_query(g)) {
            Some(Ok(b)) => GateStep::Passed(b),
            Some(Err(_)) => GateStep::Passed(false),
            None => GateStep::Ask(gate_query(g)),
        }
    }
}

/// The reason given when a Gate's prerequisite is missing.
pub open spec fn gate_denial(g: GateView, reason: Option<Seq<char>>) -> Seq<char> {
    "Gate: '"@ + g.requires_prior + "' not found in last "@ + decimal(g.within as nat)
        + " allowed actions. "@ + match reason {
        Some(r) => r,
        None => Seq::empty(),
    }
}

/// The decided part of an evaluation result (all but the timing).
pub struct Verdict {
    pub decision: Decision,
    pub matched_rule: Option<Seq<char>>,
    pub matched_locked: bool,
    pub reason: Option<Seq<char>>,
    pub ensure_config: Option<EnsureView>,
}

pub enum EvalStep {
    Decided(Verdict),
    Ask(QueryView),
    Fault,
}

/// What the rule that fired decides. A Gate resolves to Allow or Deny (Deny
/// without its configuration); an Ensure carries its configuration for the
/// host to run.
pub open spec fn rule_verdict(rule: RuleView, facts: FactsView) -> EvalStep {
    let reason = composed_reason(rule);
    if rule.action == Decision::Gate {
        match rule.gate {
            Some(g) => match gate_check(g, facts) {
                GateStep::Ask(q) => EvalStep::Ask(q),
                GateStep::Passed(passed) => EvalStep::Decided(
                    Verdict {
                        decision: if passed {
                            Decision::Allow
                        } else {
                            Decision::Deny
                        },
                        matched_rule: Some(rule.name),
                        matched_locked: rule.locked,
                        reason: if passed {
                            reason
                        } else {
                            Some(gate_denial(g, reason))
                        },
                        ensure_config: None,
                    },
                ),
            },
            None => EvalStep::Decided(
                Verdict {
                    decision: Decision::Deny,
                    matched_rule: Some(rule.name),
                    matched_locked: rule.locked,
                    reason: Some("Gate rule missing gate config"@),
                    ensure_config: None,
                },
            ),
        }
    } else {
        EvalStep::Decided(
            Verdict {
                decision: rule.action,
                matched_rule: Some(rule.name),
                matched_locked: rule.locked,
                reason,
                ensure_config: if rule.action == Decision::Ensure {
                    rule.ensure
                } else {
                    None
                },
            },
        )
    }
}

/// The verdict when no rule fires.
pub open spec fn default_verdict(default_action: Decision) -> Verdict {
    Verdict {
        decision: default_action,
        matched_rule: None,
        matched_locked: false,
        reason: Some("No matching rules, using default action"@),
        ensure_config: None,
    }
}

/// First match wins over the rules from `i` on.
pub open spec fn evaluate_rules(
    rules: Seq<RuleView>,
    i: int,
    tool: Seq<char>,
    params: Seq<char>,
    default_action: Decision,
    facts: FactsView,
) -> EvalStep
    decreases rules.len() - i,
{
    if i < 0 || i >= rules.len() {
        EvalStep::Decided(default_verdict(default_action))
    } else {
        match rule_match(rules[i], tool, params, facts) {
            RuleMatch::Fault => EvalStep::Fault,
            RuleMatch::Ask(q) => EvalStep::Ask(q),
            RuleMatch::Fires(false) => evaluate_rules(rules, i + 1, tool, params, default_action, facts),
            RuleMatch::Fires(true) => rule_verdict(rules[i], facts),
        }
    }
}

/// The evaluation of `call` against `policy`.
pub open spec fn evaluation(call: ToolCall, policy: CompiledPolicy, facts: FactsView) -> EvalStep {
    evaluate_rules(
        compiled_rules_view(policy.rules@),
        0,
        call.tool_name@,
        call.parameters@,
        policy.default_action,
        facts,
    )
}

/// An evaluation result that reports the verdict (its timing aside).
pub open spec fn result_matches(r: EvaluationResult, v: Verdict) -> bool {
    &&& r.decision == v.decision
    &&& opt_view(r.matched_rule) == v.matched_rule
    &&& r.matched_locked == v.matched_locked
    &&& opt_view(r.reason) == v.reason
    &&& opt_ensure_view(r.ensure_config) == v.ensure_config
}

pub open spec fn evaluation_matches(r: Pending<EvaluationResult>, s: EvalStep) -> bool {
    match (r, s) {
        (Pending::Ready(res), EvalStep::Decided(v)) => result_matches(res, v),
        (Pending::NeedsFact(q), EvalStep::Ask(v)) => q@ == v,
        _ => false,
    }
}

enum StepOut {
    Decided(EvaluationResult),
    Ask(HostQuery),
    Fault,
}

spec fn step_out_matches(r: StepOut, s: EvalStep) -> bool {
    match (r, s) {
        (StepOut::Decided(res), EvalStep::Decided(v)) => result_matches(res, v),
        (StepOut::Ask(q), EvalStep::Ask(v)) => q@ == v,
        (StepOut::Fault, EvalStep::Fault) => true,
        _ => false,
    }
}

enum MatchOut {
    Fires(bool),
    Ask(HostQuery),
    Fault,
}

spec fn match_out_matches(r: MatchOut, s: RuleMatch) -> bool {
    match (r, s) {
        (MatchOut::Fires(a), RuleMatch::Fires(b)) => a == b,
        (MatchOut::Ask(q), RuleMatch::Ask(v)) => q@ == v,
        (MatchOut::Fault, RuleMatch::Fault) => true,
        _ => false,
    }
}

fn match_rule(
    rule: &CompiledRule,
    call: &ToolCall,
    pv: &Vec<char>,
    facts: &HostFacts,
    policy_words: &WordPatterns,
) -> (r: MatchOut)
    requires
        pv@ == call.parameters@,
    ensures
        match_out_matches(r, rule_match(rule@, call.tool_name@, call.parameters@, facts@)),
{
    if !rule.tool_regex.is_match(call.tool_name.as_str()) {
        return MatchOut::Fires(false);
    }
    let ghost conds = rule@.conditions;
    let mut j: usize = 0;
    while j < rule.conditions.len()
        invariant
            j <= rule.conditions.len(),
            pv@ == call.parameters@,
            regex_is_match(rule@.tool_pattern, call.tool_name@),
            conds == crate::model::strings_view(rule.conditions@),
            conditions_match(conds, j as int, call.parameters@, facts@) == conditions_match(
                conds,
                0,
                call.parameters@,
                facts@,
            ),
        decreases rule.conditions.len() - j,
    {
        assert(conds[j as int] == rule.conditions@[j as int]@);
        match evaluate_condition_step(rule.conditions[j].as_str(), call, pv, facts, &policy_words) {
            CondOut::Done(Ok(true)) => {},
            CondOut::Done(_) => {
                return MatchOut::Fires(false);
            },
            CondOut::Ask(q) => {
                return MatchOut::Ask(q);
            },
            CondOut::Fault => {
                return MatchOut::Fault;
            },
        }
        j += 1;
    }
    MatchOut::Fires(true)
}

fn elapsed_us(start: &std::time::Instant) -> u64 {
    let d = clock::elapsed(start);
    let us = clock::as_micros(&d);
    #[verifier::truncate]
    (us as u64)
}

enum GateOut {
    Passed(bool),
    Ask(HostQuery),
}

/// Whether a Gate's prerequisite is among the recent allowed actions; never
/// without a vault.
fn resolve_gate(g: &GateConfig, facts: &HostFacts) -> (r: GateOut)
    ensures
        match (r, gate_check(g@, facts@)) {
            (GateOut::Passed(a), GateStep::Passed(b)) => a == b,
            (GateOut::Ask(q), GateStep::Ask(v)) => q@ == v,
            _ => false,
        },
{
    if !facts.vault_available {
        return GateOut::Passed(false);
    }
    let q = HostQuery::RecentAllowedAction { search: g.requires_prior.clone(), within: g.within };
    match facts.lookup(&q) {
        Some(Ok(b)) => GateOut::Passed(b),
        Some(Err(_)) => GateOut::Passed(false),
        None => GateOut::Ask(q),
    }
}

fn verdict_of(rule: &CompiledRule, facts: &HostFacts, start: &std::time::Instant) -> (r: StepOut)
    ensures
        step_out_matches(r, rule_verdict(rule@, facts@)),
{
    let reason = match (&rule.reason, &rule.alternative) {
        (Some(r), Some(alt)) => {
            let head = concat(r.as_str(), " Instead: ");
            Some(concat(head.as_str(), alt.as_str()))
        },
        (r, _) => clone_opt_string(r),
    };
    if rule.action == Decision::Gate {
        match &rule.gate {
            Some(g) => {
                let passed = match resolve_gate(g, facts) {
                    GateOut::Passed(b) => b,
                    GateOut::Ask(q) => {
                        return StepOut::Ask(q);
                    },
                };
                let elapsed = elapsed_us(start);
                let reason = if passed {
                    reason
                } else {
                    Some(gate_denial_text(g, &reason))
                };
                StepOut::Decided(
                    EvaluationResult {
                        decision: if passed {
                            Decision::Allow
                        } else {
                            Decision::Deny
                        },
                        matched_rule: Some(rule.name.clone()),
                        matched_locked: rule.locked,
                        reason,
                        evaluation_time_us: elapsed,
                        ensure_config: None,
                    },
                )
            },
            None => StepOut::Decided(
                EvaluationResult {
                    decision: Decision::Deny,
                    matched_rule: Some(rule.name.clone()),
                    matched_locked: rule.locked,
                    reason: Some("Gate rule missing gate config".to_owned()),
                    evaluation_time_us: elapsed_us(start),
                    ensure_config: None,
                },
            ),
        }
    } else {
        let ensure_config = if rule.action == Decision::Ensure {
            clone_opt_ensure(&rule.ensure)
        } else {
            None
        };
        StepOut::Decided(
            EvaluationResult {
                decision: rule.action,
                matched_rule: Some(rule.name.clone()),
                matched_locked: rule.locked,
                reason,
                evaluation_time_us: elapsed_us(start),
                ensure_config,
            },
        )
    }
}

fn gate_denial_text(g: &GateConfig, reason: &Option<String>) -> (r: String)
    ensures
        r@ == gate_denial(g@, opt_view(*reason)),
{
    let a = concat("Gate: '", g.requires_prior.as_str());
    let b = concat(a.as_str(), "' not found in last ");
    let n = decimal_string(g.within as u64);
    let c = concat(b.as_str(), n.as_str());
    let d = concat(c.as_str(), " allowed actions. ");
    match reason {
        Some(r) => concat(d.as_str(), r.as_str()),
        None => d,
    }
}

fn evaluate_step(call: &ToolCall, policy: &CompiledPolicy, facts: &HostFacts) -> (r: StepOut)
    ensures
        step_out_matches(r, evaluation(*call, *policy, facts@)),
{
    let start = clock::now();
    let pv = to_chars(call.parameters.as_str());
    let ghost rules = compiled_rules_view(policy.rules@);
    let mut i: usize = 0;
    while i < policy.rules.len()
        invariant
            i <= policy.rules.len(),
            pv@ == call.parameters@,
            rules == compiled_rules_view(policy.rules@),
            evaluate_rules(rules, i as int, call.tool_name@, call.parameters@, policy.default_action, facts@)
                == evaluation(*call, *policy, facts@),
        decreases policy.rules.len() - i,
    {
        let rule = &policy.rules[i];
        assert(rules[i as int] == rule@);
        match match_rule(rule, call, &pv, facts, &policy.word_patterns) {
            MatchOut::Fault => {
                return StepOut::Fault;
            },
            MatchOut::Ask(q) => {
                return StepOut::Ask(q);
            },
            MatchOut::Fires(true) => {
                return verdict_of(rule, facts, &start);
            },
            MatchOut::Fires(false) => {},
        }
        i += 1;
    }
    StepOut::Decided(
        EvaluationResult {
            decision: policy.default_action,
            matched_rule: None,
            matched_locked: false,
            reason: Some("No matching rules, using default action".to_owned()),
            evaluation_time_us: elapsed_us(&start),
            ensure_config: None,
        },
    )
}

/// Evaluates a tool call against a compiled policy: the first rule whose
/// tool pattern matches and whose conditions all hold decides; when none
/// does, the default action. Evaluation may first need a fact from the host.
pub fn evaluate(call: &ToolCall, policy: &CompiledPolicy, facts: &HostFacts) -> (r: Pending<EvaluationResult>)
    requires
        !(evaluation(*call, *policy, facts@) is Fault),
    ensures
        evaluation_matches(r, evaluation(*call, *policy, facts@)),
{
    match evaluate_step(call, policy, facts) {
        StepOut::Decided(res) => Pending::Ready(res),
        StepOut::Ask(q) => Pending::NeedsFact(q),
        StepOut::Fault => {
            assert(false);
            Pending::NeedsFact(HostQuery::CredentialExists { name: String::new() })
        },
    }
}

/// Whether evaluating the call reaches a condition that takes a lone quote
/// as a quoted literal (see `CondStep::Fault`); `evaluate` is defined on all
/// other inputs.
pub fn evaluation_faults(call: &ToolCall, policy: &CompiledPolicy, facts: &HostFacts) -> (b: bool)
    ensures
        b == (evaluation(*call, *policy, facts@) is Fault),
{
    match evaluate_step(call, policy, facts) {
        StepOut::Fault => true,
        _ => false,
    }
}

} // verus!
