//! Deterministic policy engine for agent tool calls: rules are matched
//! first-match-wins against a tool call, with regex tool patterns and a
//! small condition language.

pub mod text;
pub mod pattern;
pub mod json;
pub mod clock;
pub mod model;
pub mod syntax;
pub mod facts;
pub mod condition;
pub mod engine;
pub mod validate;
pub mod fix;
pub mod defaults;
pub mod laws;
pub mod repair_laws;
pub mod builtin_laws;
pub mod query_laws;

pub use crate::model::{
    Decision, GateConfig, EnsureConfig, PolicyRule, PolicyConfig, DiagnosticSeverity,
    ValidationDiagnostic, PolicyFix, CompiledRule, CompiledPolicy, EvaluationResult, ToolCall,
    default_version, default_allow, default_gate_within, default_ensure_timeout,
};
pub use crate::facts::{HostQuery, HostFacts, Pending};
pub use crate::condition::{evaluate_condition, condition_faults};
pub use crate::engine::{evaluate, evaluation_faults};
pub use crate::validate::{
    validate_policy, validate_ensure_check_name, resolve_ensure_script_path, ScriptProbe,
};
pub use crate::fix::fix_policy;
pub use crate::defaults::{
    self_protection_rules, system_default_rules, persistent_task_store_rule, default_policy, sample_yaml, merge_rules,
    merged_config, baseline_config,
};
