//! The policy data model: decisions, rules, configurations, compiled
//! policies, tool calls and evaluation results, with their spec views.

use vstd::prelude::*;
use crate::pattern::CompiledPattern;
use crate::condition::WordPatterns;

verus! {

/// What a rule decides for a tool call.
#[derive(Debug, Clone, Copy, PartialEq, Eq, Structural)]
pub enum Decision {
    Allow,
    Deny,
    Ask,
    Gate,
    Ensure,
}

/// The lower-case name of a decision.
pub open spec fn decision_name(d: Decision) -> Seq<char> {
    match d {
        Decision::Allow => "allow"@,
        Decision::Deny => "deny"@,
        Decision::Ask => "ask"@,
        Decision::Gate => "gate"@,
        Decision::Ensure => "ensure"@,
    }
}

impl Decision {
    pub fn as_lowercase(&self) -> (r: &'static str)
        ensures
            r@ == decision_name(*self),
    {
        match self {
            Decision::Allow => "allow",
            Decision::Deny => "deny",
            Decision::Ask => "ask",
            Decision::Gate => "gate",
            Decision::Ensure => "ensure",
        }
    }
}

/// The view of an optional string.
pub open spec fn opt_view(o: Option<String>) -> Option<Seq<char>> {
    match o {
        Some(s) => Some(s@),
        None => None,
    }
}

/// The views of a vector of strings.
pub open spec fn strings_view(v: Seq<String>) -> Seq<Seq<char>> {
    v.map_values(|s: String| s@)
}

pub fn clone_opt_string(o: &Option<String>) -> (r: Option<String>)
    ensures
        opt_view(r) == opt_view(*o),
{
    match o {
        Some(s) => Some(s.clone()),
        None => None,
    }
}

pub fn clone_strings(v: &Vec<String>) -> (r: Vec<String>)
    ensures
        strings_view(r@) == strings_view(v@),
{
    let mut r: Vec<String> = Vec::new();
    let mut i: usize = 0;
    while i < v.len()
        invariant
            i <= v.len(),
            r.len() == i,
            forall|j: int| 0 <= j < i ==> #[trigger] r@[j]@ == v@[j]@,
        decreases v.len() - i,
    {
        r.push(v[i].clone());
        i += 1;
    }
    assert(strings_view(r@) =~= strings_view(v@));
    r
}

/// A Gate action: the call is allowed only if `requires_prior` was among the
/// last `within` allowed actions.
#[derive(Debug)]
pub struct GateConfig {
    pub requires_prior: String,
    pub within: u32,
}

pub struct GateView {
    pub requires_prior: Seq<char>,
    pub within: u32,
}

impl View for GateConfig {
    type V = GateView;

    open spec fn view(&self) -> GateView {
        GateView { requires_prior: self.requires_prior@, within: self.within }
    }
}

impl Clone for GateConfig {
    fn clone(&self) -> (r: Self)
        ensures
            r@ == self@,
    {
        GateConfig { requires_prior: self.requires_prior.clone(), within: self.within }
    }
}

/// An Ensure action: an external check script decides.
#[derive(Debug)]
pub struct EnsureConfig {
    pub check: String,
    pub timeout: u32,
    pub message: String,
}

pub struct EnsureView {
    pub check: Seq<char>,
    pub timeout: u32,
    pub message: Seq<char>,
}

impl View for EnsureConfig {
    type V = EnsureView;

    open spec fn view(&self) -> EnsureView {
        EnsureView { check: self.check@, timeout: self.timeout, message: self.message@ }
    }
}

impl Clone for EnsureConfig {
    fn clone(&self) -> (r: Self)
        ensures
            r@ == self@,
    {
        EnsureConfig {
            check: self.check.clone(),
            timeout: self.timeout,
            message: self.message.clone(),
        }
    }
}

pub open spec fn opt_gate_view(o: Option<GateConfig>) -> Option<GateView> {
    match o {
        Some(g) => Some(g@),
        None => None,
    }
}

pub open spec fn opt_ensure_view(o: Option<EnsureConfig>) -> Option<EnsureView> {
    match o {
        Some(e) => Some(e@),
        None => None,
    }
}

pub fn clone_opt_gate(o: &Option<GateConfig>) -> (r: Option<GateConfig>)
    ensures
        opt_gate_view(r) == opt_gate_view(*o),
{
    match o {
        Some(g) => Some(g.clone()),
        None => None,
    }
}

pub fn clone_opt_ensure(o: &Option<EnsureConfig>) -> (r: Option<EnsureConfig>)
    ensures
        opt_ensure_view(r) == opt_ensure_view(*o),
{
    match o {
        Some(e) => Some(e.clone()),
        None => None,
    }
}

/// One rule of a policy.
#[derive(Debug)]
pub struct PolicyRule {
    pub name: String,
    pub tool_pattern: String,
    pub conditions: Vec<String>,
    pub action: Decision,
    pub reason: Option<String>,
    pub alternative: Option<String>,
    pub locked: bool,
    pub gate: Option<GateConfig>,
    pub ensure: Option<EnsureConfig>,
}

pub struct RuleView {
    pub name: Seq<char>,
    pub tool_pattern: Seq<char>,
    pub conditions: Seq<Seq<char>>,
    pub action: Decision,
    pub reason: Option<Seq<char>>,
    pub alternative: Option<Seq<char>>,
    pub locked: bool,
    pub gate: Option<GateView>,
    pub ensure: Option<EnsureView>,
}

impl View for PolicyRule {
    type V = RuleView;

    open spec fn view(&self) -> RuleView {
        RuleView {
            name: self.name@,
            tool_pattern: self.tool_pattern@,
            conditions: strings_view(self.conditions@),
            action: self.action,
            reason: opt_view(self.reason),
            alternative: opt_view(self.alternative),
            locked: self.locked,
            gate: opt_gate_view(self.gate),
            ensure: opt_ensure_view(self.ensure),
        }
    }
}

impl Clone for PolicyRule {
    fn clone(&self) -> (r: Self)
        ensures
            r@ == self@,
    {
        PolicyRule {
            name: self.name.clone(),
            tool_pattern: self.tool_pattern.clone(),
            conditions: clone_strings(&self.conditions),
            action: self.action,
            reason: clone_opt_string(&self.reason),
            alternative: clone_opt_string(&self.alternative),
            locked: self.locked,
            gate: clone_opt_gate(&self.gate),
            ensure: clone_opt_ensure(&self.ensure),
        }
    }
}

/// The views of a sequence of rules.
pub open spec fn rules_view(v: Seq<PolicyRule>) -> Seq<RuleView> {
    v.map_values(|r: PolicyRule| r@)
}

/// A policy as written in a configuration file.
#[derive(Debug)]
pub struct PolicyConfig {
    pub version: u32,
    pub rules: Vec<PolicyRule>,
    pub default_action: Decision,
}

/// Default `version` of a configuration that does not give one.
pub fn default_version() -> (r: u32)
    ensures
        r == 1,
{
    1
}

/// Default `default_action` of a configuration that does not give one.
pub fn default_allow() -> (r: Decision)
    ensures
        r == Decision::Allow,
{
    Decision::Allow
}

/// Default `gate.within` when a rule does not give one.
pub fn default_gate_within() -> (r: u32)
    ensures
        r == 50,
{
    50
}

/// Default `ensure.timeout` when a rule does not give one.
pub fn default_ensure_timeout() -> (r: u32)
    ensures
        r == 5,
{
    5
}

#[derive(Debug, Clone, Copy, PartialEq, Eq, Structural)]
pub enum DiagnosticSeverity {
    Error,
    Warning,
}

/// One finding of policy validation.
#[derive(Debug)]
pub struct ValidationDiagnostic {
    pub rule_name: String,
    pub severity: DiagnosticSeverity,
    pub error: String,
    pub fix_hint: String,
    pub auto_fixable: bool,
}

/// What an automatic repair of a policy did.
#[derive(Debug)]
pub struct PolicyFix {
    pub description: String,
    pub rules_removed: Vec<String>,
    pub rules_modified: Vec<String>,
}

/// A rule whose tool pattern has been compiled.
#[derive(Debug)]
pub struct CompiledRule {
    pub name: String,
    pub tool_regex: CompiledPattern,
    pub conditions: Vec<String>,
    pub action: Decision,
    pub reason: Option<String>,
    pub alternative: Option<String>,
    pub locked: bool,
    pub gate: Option<GateConfig>,
    pub ensure: Option<EnsureConfig>,
}

impl View for CompiledRule {
    type V = RuleView;

    /// The rule as it was written, its pattern being the compiled regex's source.
    open spec fn view(&self) -> RuleView {
        RuleView {
            name: self.name@,
            tool_pattern: self.tool_regex@,
            conditions: strings_view(self.conditions@),
            action: self.action,
            reason: opt_view(self.reason),
            alternative: opt_view(self.alternative),
            locked: self.locked,
            gate: opt_gate_view(self.gate),
            ensure: opt_ensure_view(self.ensure),
        }
    }
}

pub open spec fn compiled_rules_view(v: Seq<CompiledRule>) -> Seq<RuleView> {
    v.map_values(|r: CompiledRule| r@)
}

/// A policy ready for evaluation.
#[derive(Debug)]
pub struct CompiledPolicy {
    pub rules: Vec<CompiledRule>,
    pub default_action: Decision,
    /// The `contains_word` patterns of the rules' conditions, compiled ahead.
    pub word_patterns: WordPatterns,
}

/// Result of evaluating a tool call against a policy.
#[derive(Debug)]
pub struct EvaluationResult {
    pub decision: Decision,
    pub matched_rule: Option<String>,
    pub matched_locked: bool,
    pub reason: Option<String>,
    pub evaluation_time_us: u64,
    pub ensure_config: Option<EnsureConfig>,
}

/// A tool call being evaluated. `parameters` is the compact JSON text of the
/// call's parameters (what `serde_json::Value::to_string` gives).
#[derive(Debug)]
pub struct ToolCall {
    pub tool_name: String,
    pub parameters: String,
}

} // verus!
