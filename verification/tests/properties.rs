//! The library's laws on concrete values, and the outside calls seen
//! through public functions.

use serde_json::Value;
use signet_eval::syntax::{split_at_top_level, TopSplitAt};
use signet_eval::{
    evaluate, evaluate_condition, fix_policy, merged_config, CompiledPolicy, Decision, EnsureConfig,
    EvaluationResult, GateConfig, HostFacts, Pending, PolicyConfig, PolicyRule, ScriptProbe, ToolCall,
};

fn params(pairs: &[(&str, &str)]) -> Value {
    let mut m = serde_json::Map::new();
    for (k, v) in pairs {
        m.insert(k.to_string(), Value::String(v.to_string()));
    }
    Value::Object(m)
}

fn call(tool: &str, pairs: &[(&str, &str)]) -> ToolCall {
    ToolCall { tool_name: tool.into(), parameters: params(pairs).to_string() }
}

fn rule(name: &str, pattern: &str, conditions: &[&str], action: Decision, locked: bool) -> PolicyRule {
    PolicyRule {
        name: name.into(),
        tool_pattern: pattern.into(),
        conditions: conditions.iter().map(|c| c.to_string()).collect(),
        action,
        reason: None,
        alternative: None,
        locked,
        gate: None,
        ensure: None,
    }
}

fn compile(rules: Vec<PolicyRule>) -> CompiledPolicy {
    CompiledPolicy::from_config(&PolicyConfig { version: 1, default_action: Decision::Allow, rules })
}

fn ready(r: Pending<EvaluationResult>) -> EvaluationResult {
    match r {
        Pending::Ready(r) => r,
        Pending::NeedsFact(q) => panic!("unexpected request for a fact: {:?}", q),
    }
}

fn cond_ready(condition: &str, c: &ToolCall) -> Result<bool, String> {
    match evaluate_condition(condition, c, &HostFacts::without_vault()) {
        Pending::Ready(r) => r,
        Pending::NeedsFact(q) => panic!("unexpected request for a fact: {:?}", q),
    }
}

#[test]
fn no_rule_fires_gives_default_and_reason() {
    let policy = CompiledPolicy::from_config(&PolicyConfig {
        version: 1,
        default_action: Decision::Ask,
        rules: vec![rule("only_write", "^Write$", &[], Decision::Deny, false)],
    });
    let r = ready(evaluate(&call("Bash", &[("command", "ls")]), &policy, &HostFacts::without_vault()));
    assert_eq!(r.decision, Decision::Ask);
    assert_eq!(r.matched_rule, None);
    assert!(!r.matched_locked);
    assert_eq!(r.reason.as_deref(), Some("No matching rules, using default action"));
}

#[test]
fn locked_system_rule_beats_user_allow() {
    let system = PolicyConfig {
        version: 1,
        default_action: Decision::Allow,
        rules: vec![
            rule("sys_default", ".*", &["contains(parameters, 'secret')"], Decision::Ask, false),
            rule("sys_locked", ".*", &["contains(parameters, 'secret')"], Decision::Deny, true),
        ],
    };
    let user = vec![rule("user_allow", ".*", &["contains(parameters, 'secret')"], Decision::Allow, false)];
    let merged = merged_config(Some(system), &user);
    let names: Vec<&str> = merged.rules.iter().map(|r| r.name.as_str()).collect();
    assert_eq!(names, vec!["sys_locked", "user_allow", "sys_default"]);
    let policy = CompiledPolicy::from_config(&merged);
    let r = ready(evaluate(&call("Bash", &[("command", "cat secret")]), &policy, &HostFacts::without_vault()));
    assert_eq!(r.decision, Decision::Deny);
    assert_eq!(r.matched_rule.as_deref(), Some("sys_locked"));
    assert!(r.matched_locked);
    let r = ready(evaluate(&call("Bash", &[("command", "ls")]), &policy, &HostFacts::without_vault()));
    assert_eq!(r.decision, Decision::Allow);
    assert_eq!(r.matched_rule, None);
}

#[test]
fn compiling_merged_rules_drops_bad_patterns_in_order() {
    let system = PolicyConfig {
        version: 1,
        default_action: Decision::Allow,
        rules: vec![
            rule("sys_bad", "[oops", &[], Decision::Deny, true),
            rule("sys_tail", "^Bash$", &[], Decision::Ask, false),
        ],
    };
    let user = vec![rule("user_bad", "(", &[], Decision::Deny, false), rule("user_ok", "^Read$", &[], Decision::Deny, false)];
    let policy = CompiledPolicy::from_config(&merged_config(Some(system), &user));
    let r = ready(evaluate(&call("Read", &[("file_path", "/tmp/a")]), &policy, &HostFacts::without_vault()));
    assert_eq!(r.matched_rule.as_deref(), Some("user_ok"));
    let r = ready(evaluate(&call("Bash", &[("command", "ls")]), &policy, &HostFacts::without_vault()));
    assert_eq!(r.matched_rule.as_deref(), Some("sys_tail"));
    assert_eq!(r.decision, Decision::Ask);
}

#[test]
fn not_negates_and_keeps_errors() {
    let c = call("Bash", &[("command", "rm -rf /")]);
    assert_eq!(cond_ready("not(contains(parameters, 'rm'))", &c), Ok(false));
    assert_eq!(cond_ready("not(not(contains(parameters, 'rm')))", &c), Ok(true));
    assert!(cond_ready("not(bogus(parameters))", &c).is_err());
}

#[test]
fn ensure_config_only_on_ensure_rules() {
    let ensure = Some(EnsureConfig { check: "guard.sh".into(), timeout: 5, message: "m".into() });
    let deny = PolicyRule { ensure: ensure.clone(), ..rule("deny_with_ensure", ".*", &[], Decision::Deny, false) };
    let r = ready(evaluate(&call("Bash", &[("command", "ls")]), &compile(vec![deny]), &HostFacts::without_vault()));
    assert_eq!(r.decision, Decision::Deny);
    assert!(r.ensure_config.is_none());
    let ens = PolicyRule { ensure, ..rule("ensure_it", ".*", &[], Decision::Ensure, false) };
    let r = ready(evaluate(&call("Bash", &[("command", "ls")]), &compile(vec![ens]), &HostFacts::without_vault()));
    assert_eq!(r.decision, Decision::Ensure);
    assert_eq!(r.ensure_config.map(|e| e.check), Some("guard.sh".to_string()));
}

#[test]
fn gate_without_vault_reports_missing_prerequisite() {
    let gate = PolicyRule {
        gate: Some(GateConfig { requires_prior: "EnterPlanMode".into(), within: 7 }),
        reason: Some("Plan first.".into()),
        ..rule("plan_gate", "^Write$", &[], Decision::Gate, false)
    };
    let r = ready(evaluate(&call("Write", &[("file_path", "/a")]), &compile(vec![gate]), &HostFacts::without_vault()));
    assert_eq!(r.decision, Decision::Deny);
    assert_eq!(r.reason.as_deref(), Some("Gate: 'EnterPlanMode' not found in last 7 allowed actions. Plan first."));
}

#[test]
fn fix_twice_changes_nothing_the_second_time() {
    let gate = PolicyRule {
        gate: Some(GateConfig { requires_prior: "X".into(), within: 900 }),
        ..rule("wide_gate", ".*", &[], Decision::Gate, false)
    };
    let timeout = PolicyRule {
        ensure: Some(EnsureConfig { check: "ok.sh".into(), timeout: 0, message: String::new() }),
        ..rule("zero_timeout", ".*", &[], Decision::Ensure, false)
    };
    let mut c = PolicyConfig {
        version: 1,
        default_action: Decision::Allow,
        rules: vec![
            gate,
            rule("bad_regex", "[x", &[], Decision::Deny, false),
            timeout,
            rule("locked_bad", "(", &[], Decision::Deny, true),
        ],
    };
    let probes: Vec<ScriptProbe> = Vec::new();
    let first = fix_policy(&mut c, &probes);
    assert_eq!(first.rules_removed, vec!["bad_regex".to_string()]);
    assert_eq!(first.rules_modified.len(), 2);
    let after_first = c.rules.clone();
    let second = fix_policy(&mut c, &probes);
    assert!(second.rules_removed.is_empty());
    assert!(second.rules_modified.is_empty());
    assert_eq!(second.description, "No auto-fixable issues found.");
    assert_eq!(c.rules.len(), after_first.len());
    assert_eq!(c.rules[0].gate.as_ref().map(|g| g.within), Some(500));
    assert_eq!(c.rules[1].ensure.as_ref().map(|e| e.timeout), Some(1));
    assert_eq!(c.rules[2].name, "locked_bad");
}

#[test]
fn contains_word_escapes_regex_metacharacters() {
    let c = call("Bash", &[("command", "echo axb")]);
    assert_eq!(cond_ready("contains_word(parameters, 'a.b')", &c), Ok(false));
    let c = call("Bash", &[("command", "echo a.b")]);
    assert_eq!(cond_ready("contains_word(parameters, 'a.b')", &c), Ok(true));
}

#[test]
fn escaped_control_characters_separate_words() {
    let c = call("Bash", &[("command", "pkill\u{0001}signet")]);
    assert_eq!(cond_ready("contains_word(parameters, 'signet')", &c), Ok(true));
    let c = call("Bash", &[("command", "pkillsignet")]);
    assert_eq!(cond_ready("contains_word(parameters, 'signet')", &c), Ok(false));
}

#[test]
fn param_text_reads_the_named_field() {
    let c = call("Write", &[("file_path", "/etc/hosts"), ("content", "x")]);
    assert_eq!(cond_ready("param_eq(file_path, '/etc/hosts')", &c), Ok(true));
    assert_eq!(cond_ready("param_eq(content, '/etc/hosts')", &c), Ok(false));
    assert_eq!(cond_ready("param_eq(missing, '')", &c), Ok(true));
}

#[test]
fn decisions_have_lowercase_names() {
    assert_eq!(Decision::Allow.as_lowercase(), "allow");
    assert_eq!(Decision::Deny.as_lowercase(), "deny");
    assert_eq!(Decision::Ask.as_lowercase(), "ask");
    assert_eq!(Decision::Gate.as_lowercase(), "gate");
    assert_eq!(Decision::Ensure.as_lowercase(), "ensure");
}

#[test]
fn default_policy_denies_session_task_tools() {
    let policy = signet_eval::default_policy();
    for tool in ["TaskCreate", "TaskUpdate", "TaskList", "TaskGet", "TaskOutput", "TaskStop"] {
        let r = ready(evaluate(&call(tool, &[("subject", "x")]), &policy, &HostFacts::without_vault()));
        assert_eq!(r.decision, Decision::Deny, "{tool}");
        assert_eq!(r.matched_rule.as_deref(), Some("prefer_persistent_task_store"));
        assert!(r.matched_locked);
    }
    let r = ready(evaluate(&call("Tasks", &[]), &policy, &HostFacts::without_vault()));
    assert_eq!(r.decision, Decision::Allow);
    let rule = signet_eval::persistent_task_store_rule();
    assert!(rule.locked);
}

#[test]
fn fix_keeps_locked_rule_sharing_a_broken_rules_name() {
    let mut c = PolicyConfig {
        version: 1,
        default_action: Decision::Allow,
        rules: vec![rule("same", "[bad", &[], Decision::Deny, false), rule("same", ".*", &[], Decision::Deny, true)],
    };
    let f = fix_policy(&mut c, &Vec::new());
    assert_eq!(f.rules_removed, vec!["same".to_string()]);
    assert_eq!(c.rules.len(), 1);
    assert!(c.rules[0].locked);
    assert_eq!(c.rules[0].tool_pattern, ".*");
}

#[test]
fn fix_removes_broken_nameless_rule() {
    let mut c = PolicyConfig {
        version: 1,
        default_action: Decision::Allow,
        rules: vec![rule("", "(unclosed", &[], Decision::Deny, false), rule("ok", ".*", &[], Decision::Ask, false)],
    };
    let f = fix_policy(&mut c, &Vec::new());
    assert_eq!(f.rules_removed, vec!["rule[0]".to_string()]);
    assert_eq!(f.description, "Removed 1 broken rule(s): rule[0]");
    assert_eq!(c.rules.len(), 1);
    assert_eq!(c.rules[0].name, "ok");
    let again = fix_policy(&mut c, &Vec::new());
    assert!(again.rules_removed.is_empty());
}

#[test]
fn top_level_split_on_non_ascii_text() {
    let s: Vec<char> = "'é', 'x'".chars().collect();
    let sep: Vec<char> = ", ".chars().collect();
    match split_at_top_level(&s, 0, s.len(), &sep) {
        TopSplitAt::At(i) => {
            assert_eq!(s[..i].iter().collect::<String>(), "'é'");
            assert_eq!(s[i + sep.len()..].iter().collect::<String>(), "'x'");
        }
        TopSplitAt::NotFound => panic!("separator not found"),
    }
    let empty: Vec<char> = Vec::new();
    assert!(matches!(split_at_top_level(&s, 0, s.len(), &empty), TopSplitAt::NotFound));
    let c = call("Bash", &[("command", "café")]);
    assert_eq!(cond_ready("or('é' || contains(parameters, 'café'))", &c), Ok(true));
    assert_eq!(cond_ready("or(contains(parameters, 'zz'), 'é')", &c), Ok(true));
}

#[test]
fn fix_reports_a_shared_name_once() {
    let mut c = PolicyConfig {
        version: 1,
        default_action: Decision::Allow,
        rules: vec![
            rule("dup", "[bad", &[], Decision::Deny, false),
            rule("keep", ".*", &[], Decision::Ask, false),
            rule("dup", "(bad", &[], Decision::Deny, false),
        ],
    };
    let f = fix_policy(&mut c, &Vec::new());
    assert_eq!(f.rules_removed, vec!["dup".to_string()]);
    assert_eq!(f.description, "Removed 1 broken rule(s): dup");
    assert_eq!(c.rules.len(), 1);
    assert_eq!(c.rules[0].name, "keep");
}
