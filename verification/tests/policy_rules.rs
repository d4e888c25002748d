//! Validation, repair, merge order and the built-in rules.

use signet_eval::{
    default_policy, fix_policy, merge_rules, merged_config, sample_yaml, self_protection_rules,
    system_default_rules, validate_ensure_check_name, validate_policy, evaluate, CompiledPolicy,
    Decision, DiagnosticSeverity, EnsureConfig, EvaluationResult, GateConfig, HostFacts, Pending,
    PolicyConfig, PolicyRule, ToolCall, resolve_ensure_script_path, ScriptProbe,
};

fn rule(name: &str, pattern: &str, conditions: &[&str], action: Decision, locked: bool) -> PolicyRule {
    PolicyRule {
        name: name.into(),
        tool_pattern: pattern.into(),
        conditions: conditions.iter().map(|c| c.to_string()).collect(),
        action,
        reason: None,
        alternative: None,
        locked,
        gate: None,
        ensure: None,
    }
}

fn config(rules: Vec<PolicyRule>) -> PolicyConfig {
    PolicyConfig { version: 1, default_action: Decision::Allow, rules }
}

fn no_probes() -> Vec<ScriptProbe> {
    Vec::new()
}

fn eval(tool: &str, key: &str, value: &str, policy: &CompiledPolicy) -> EvaluationResult {
    let mut m = serde_json::Map::new();
    m.insert(key.to_string(), serde_json::Value::String(value.to_string()));
    let call = ToolCall { tool_name: tool.into(), parameters: serde_json::Value::Object(m).to_string() };
    match evaluate(&call, policy, &HostFacts::without_vault()) {
        Pending::Ready(r) => r,
        Pending::NeedsFact(q) => panic!("unexpected question {q:?}"),
    }
}

#[test]
fn test_validate_policy_valid() {
    let c = config(vec![rule("test", ".*", &["contains(parameters, 'x')"], Decision::Deny, false)]);
    assert!(validate_policy(&c, &no_probes()).is_empty());
}

#[test]
fn test_validate_policy_bad_regex() {
    let c = config(vec![rule("bad", "[invalid", &[], Decision::Deny, false)]);
    let errors = validate_policy(&c, &no_probes());
    assert_eq!(errors.len(), 1);
    assert!(errors[0].error.contains("Invalid regex"));
    assert_eq!(errors[0].severity, DiagnosticSeverity::Error);
    assert!(errors[0].auto_fixable);
    assert!(!errors[0].fix_hint.is_empty());
}

#[test]
fn test_validate_policy_unknown_fn() {
    let c = config(vec![rule("bad", ".*", &["bogus_fn(x)"], Decision::Deny, false)]);
    let errors = validate_policy(&c, &no_probes());
    assert_eq!(errors.len(), 1);
    assert!(errors[0].error.contains("Unknown condition function"));
    assert!(!errors[0].auto_fixable);
}

#[test]
fn test_validate_ensure_check_name_valid() {
    assert!(validate_ensure_check_name("gh-identity-matches-remote").is_ok());
    assert!(validate_ensure_check_name("check_foo").is_ok());
    assert!(validate_ensure_check_name("my-script.sh").is_ok());
}

#[test]
fn test_validate_ensure_check_name_rejects_slashes() {
    assert!(validate_ensure_check_name("../evil").is_err());
    assert!(validate_ensure_check_name("/etc/passwd").is_err());
    assert!(validate_ensure_check_name("foo/bar").is_err());
    assert!(validate_ensure_check_name("foo\\bar").is_err());
}

#[test]
fn test_validate_ensure_check_name_rejects_null_bytes() {
    assert!(validate_ensure_check_name("foo\x00bar").is_err());
}

#[test]
fn test_validate_ensure_check_name_rejects_control_chars() {
    assert!(validate_ensure_check_name("foo\x01bar").is_err());
    assert!(validate_ensure_check_name("foo\nbar").is_err());
}

#[test]
fn test_validate_ensure_check_name_rejects_empty() {
    assert!(validate_ensure_check_name("").is_err());
}

#[test]
fn test_validate_policy_gate_missing_config() {
    let c = config(vec![rule("bad", ".*", &[], Decision::Gate, false)]);
    let errors = validate_policy(&c, &no_probes());
    assert!(errors.iter().any(|e| e.error.contains("GATE requires 'gate' config")));
}

#[test]
fn test_validate_policy_ensure_missing_config() {
    let c = config(vec![rule("bad", ".*", &[], Decision::Ensure, false)]);
    let errors = validate_policy(&c, &no_probes());
    assert!(errors.iter().any(|e| e.error.contains("ENSURE requires 'ensure' config")));
}

fn ensure_rule(name: &str, check: &str, timeout: u32) -> PolicyRule {
    PolicyRule {
        ensure: Some(EnsureConfig { check: check.into(), timeout, message: String::new() }),
        ..rule(name, ".*", &[], Decision::Ensure, false)
    }
}

#[test]
fn test_validate_policy_ensure_bad_check_name() {
    let c = config(vec![ensure_rule("bad", "../evil", 5)]);
    let errors = validate_policy(&c, &no_probes());
    assert!(errors.iter().any(|e| e.error.contains("path separators")));
}

#[test]
fn test_validate_policy_ensure_bad_timeout() {
    let c = config(vec![ensure_rule("bad", "valid-script", 60)]);
    let errors = validate_policy(&c, &no_probes());
    assert!(errors.iter().any(|e| e.error.contains("ensure.timeout must be 1-30")));
}

#[test]
fn test_github_identity_guard_not_in_default() {
    let policy = default_policy();
    let guard = policy.rules.iter().find(|r| r.name == "github_identity_guard");
    assert!(guard.is_none(), "github_identity_guard should NOT be in default_policy");
}

#[test]
fn test_validate_has_recent_action_accepted() {
    let c = config(vec![rule("test", ".*", &["has_recent_action('EnterPlanMode', 50)"], Decision::Ask, false)]);
    let errors = validate_policy(&c, &no_probes());
    assert!(errors.iter().all(|e| e.severity != DiagnosticSeverity::Error), "has_recent_action should be a known function");
}

#[test]
fn test_fix_removes_bad_regex_rule() {
    let mut c = config(vec![
        rule("good", ".*", &[], Decision::Deny, false),
        rule("broken", "[invalid", &[], Decision::Deny, false),
    ]);
    let result = fix_policy(&mut c, &no_probes());
    assert_eq!(c.rules.len(), 1);
    assert_eq!(c.rules[0].name, "good");
    assert!(result.rules_removed.contains(&"broken".to_string()));
}

#[test]
fn test_fix_clamps_timeout() {
    let mut c = config(vec![ensure_rule("slow", "valid-script", 60)]);
    let result = fix_policy(&mut c, &no_probes());
    assert_eq!(c.rules[0].ensure.as_ref().unwrap().timeout, 30);
    assert!(!result.rules_modified.is_empty());
}

#[test]
fn test_fix_skips_locked_rules() {
    let mut c = config(vec![rule("locked_bad", "[invalid", &[], Decision::Deny, true)]);
    let result = fix_policy(&mut c, &no_probes());
    assert_eq!(c.rules.len(), 1, "locked rules should not be removed");
    assert!(result.rules_removed.is_empty());
}

#[test]
fn test_fix_no_changes_on_valid() {
    let mut c = config(vec![rule("good", ".*", &["contains(parameters, 'x')"], Decision::Deny, false)]);
    let result = fix_policy(&mut c, &no_probes());
    assert!(result.rules_removed.is_empty());
    assert!(result.rules_modified.is_empty());
}

#[test]
fn test_protect_checks_dir_is_first() {
    let rules = self_protection_rules();
    assert_eq!(rules[0].name, "protect_checks_dir");
    assert!(rules[0].locked);
    assert_eq!(rules[0].action, Decision::Deny);
}

#[test]
fn test_protect_checks_dir_blocks_write() {
    let policy = default_policy();
    let result = eval("Write", "file_path", "/home/user/.signet/checks/evil-script", &policy);
    assert_eq!(result.decision, Decision::Deny);
    assert!(result.matched_locked);
}

#[test]
fn test_protect_checks_dir_blocks_bash() {
    let policy = default_policy();
    let result = eval("Bash", "command", "echo 'exit 0' > ~/.signet/checks/bypass", &policy);
    assert_eq!(result.decision, Decision::Deny);
    assert!(result.matched_locked);
}

#[test]
fn test_merge_rules_order() {
    let system = vec![
        rule("locked1", ".*", &[], Decision::Deny, true),
        rule("sys_default", "^Bash$", &["contains(parameters, 'rm ')"], Decision::Deny, false),
    ];
    let user = vec![rule("user_rule", ".*", &[], Decision::Ask, false)];
    let merged = merge_rules(&system, &user);
    assert_eq!(merged.len(), 3);
    assert_eq!(merged[0].name, "locked1");
    assert_eq!(merged[1].name, "user_rule");
    assert_eq!(merged[2].name, "sys_default");
}

#[test]
fn test_user_rule_overrides_system_default() {
    let system = vec![
        rule("protect", ".*", &["contains(parameters, '.signet/')"], Decision::Deny, true),
        PolicyRule { reason: Some("System default".into()), ..rule("block_rm", "^Bash$", &["contains(parameters, 'rm ')"], Decision::Deny, false) },
    ];
    let user = vec![PolicyRule {
        reason: Some("User override".into()),
        ..rule("block_rm_override", "^Bash$", &["contains(parameters, 'rm ')"], Decision::Ask, false)
    }];
    let merged = merge_rules(&system, &user);
    let policy = CompiledPolicy::from_config(&config(merged));
    let result = eval("Bash", "command", "rm foo.txt", &policy);
    assert_eq!(result.decision, Decision::Ask, "User override should take precedence");
    assert_eq!(result.matched_rule.as_deref(), Some("block_rm_override"));
}

#[test]
fn test_system_default_rules_count() {
    let defaults = system_default_rules();
    assert_eq!(defaults.len(), 6, "Should have exactly 6 universal safe defaults");
    assert!(defaults.iter().all(|r| !r.locked), "System defaults should all be unlocked");
}

#[test]
fn test_default_policy_no_opinionated_rules() {
    let policy = default_policy();
    assert!(policy.rules.iter().all(|r| r.name != "require_plan_before_code"), "require_plan_before_code should not be in defaults");
    assert!(policy.rules.iter().all(|r| r.name != "protect_core_files"), "protect_core_files should not be in defaults");
    assert!(policy.rules.iter().all(|r| r.name != "github_identity_guard"), "github_identity_guard should not be in defaults");
}

#[test]
fn test_sample_yaml_parseable() {
    let yaml = sample_yaml();
    let rules: serde_yaml::Value = serde_yaml::from_str(&yaml).unwrap();
    let rules = rules.as_sequence().unwrap();
    assert_eq!(rules.len(), 3);
    assert_eq!(rules[0]["name"].as_str(), Some("require_plan_before_code"));
    assert_eq!(rules[1]["name"].as_str(), Some("protect_core_files"));
    assert_eq!(rules[2]["name"].as_str(), Some("github_identity_guard"));
}

#[test]
fn test_default_policy_has_locked_rules() {
    let rules = self_protection_rules();
    assert_eq!(rules.len(), 8);
    assert!(rules.iter().all(|r| r.locked));
    assert!(!rules.iter().any(|r| r.name == "github_identity_guard"));
}

// --- Merging, script checks, labels and clamping ---

#[test]
fn merged_config_without_system_policy_keeps_user_rules() {
    let user = vec![rule("my_rule", "^Bash$", &[], Decision::Ask, false)];
    let c = merged_config(None, &user);
    assert_eq!(c.version, 1);
    assert_eq!(c.default_action, Decision::Allow);
    assert_eq!(c.rules.len(), 8 + 1 + 1 + 6);
    assert_eq!(c.rules[0].name, "protect_checks_dir");
    assert_eq!(c.rules[8].name, "prefer_persistent_task_store");
    assert_eq!(c.rules[9].name, "my_rule");
    assert_eq!(c.rules[10].name, "block_rm");
}

#[test]
fn merged_config_with_system_policy() {
    let system = PolicyConfig {
        version: 3,
        default_action: Decision::Deny,
        rules: vec![rule("locked", ".*", &[], Decision::Deny, true), rule("sys", ".*", &[], Decision::Allow, false)],
    };
    let user = vec![rule("my_rule", "^Bash$", &[], Decision::Ask, false)];
    let c = merged_config(Some(system), &user);
    assert_eq!(c.version, 3);
    assert_eq!(c.default_action, Decision::Deny);
    let names: Vec<&str> = c.rules.iter().map(|r| r.name.as_str()).collect();
    assert_eq!(names, vec!["locked", "my_rule", "sys"]);
}

#[test]
fn check_name_error_messages() {
    assert_eq!(validate_ensure_check_name(""), Err("ensure.check cannot be empty".to_string()));
    assert_eq!(
        validate_ensure_check_name("a/b"),
        Err("ensure.check must not contain path separators: 'a/b'".to_string())
    );
    assert_eq!(validate_ensure_check_name("a..b"), Err("ensure.check must not contain '..': 'a..b'".to_string()));
    assert_eq!(validate_ensure_check_name("a\0b"), Err("ensure.check must not contain null bytes".to_string()));
    assert_eq!(validate_ensure_check_name("a\x1fb"), Err("ensure.check must not contain control characters".to_string()));
    assert_eq!(validate_ensure_check_name("tab\there"), Ok(()));
}

fn probe(check: &str, script: Result<&str, &str>, dir: Option<&str>, exists: bool, not_executable: bool) -> ScriptProbe {
    ScriptProbe {
        check: check.into(),
        canonical_script: script.map(|s| s.to_string()).map_err(|e| e.to_string()),
        canonical_checks_dir: dir.map(|d| d.to_string()),
        exists,
        not_executable,
    }
}

#[test]
fn resolve_script_containment() {
    let p = probe("ok", Ok("/home/u/.signet/checks/ok"), Some("/home/u/.signet/checks"), true, false);
    assert_eq!(resolve_ensure_script_path("ok", &p), Ok("/home/u/.signet/checks/ok".to_string()));
    let p = probe("ok", Ok("/etc/passwd"), Some("/home/u/.signet/checks"), true, false);
    assert_eq!(
        resolve_ensure_script_path("ok", &p),
        Err("Script path escapes checks directory: /etc/passwd".to_string())
    );
    let p = probe("ok", Ok("/home/u/.signet/checksum"), Some("/home/u/.signet/checks"), true, false);
    assert!(resolve_ensure_script_path("ok", &p).is_err());
    let p = probe("ok", Err("Cannot resolve script 'x': gone"), None, false, false);
    assert_eq!(resolve_ensure_script_path("ok", &p), Err("Cannot resolve script 'x': gone".to_string()));
    assert!(resolve_ensure_script_path("../x", &p).is_err());
}

#[test]
fn validate_reports_script_state() {
    let c = config(vec![ensure_rule("e", "s", 5)]);
    let probes = vec![probe("s", Ok("/c/s"), Some("/c"), true, true)];
    let d = validate_policy(&c, &probes);
    assert_eq!(d.len(), 1);
    assert_eq!(d[0].severity, DiagnosticSeverity::Warning);
    assert_eq!(d[0].error, "Ensure script not executable: /c/s");
    assert_eq!(d[0].fix_hint, "Run: chmod +x /c/s");
    let probes = vec![probe("s", Ok("/c/s"), Some("/c"), false, false)];
    let d = validate_policy(&c, &probes);
    assert_eq!(d[0].error, "Ensure script not found: /c/s");
    assert_eq!(d[0].fix_hint, "Install the script: touch /c/s && chmod +x /c/s");
    let d = validate_policy(&c, &no_probes());
    assert_eq!(d[0].error, "Cannot resolve ensure script 's' (checks directory may not exist)");
}

#[test]
fn validate_labels_and_gate_window() {
    let c = config(vec![PolicyRule {
        gate: Some(GateConfig { requires_prior: String::new(), within: 0 }),
        ..rule("", ".*", &["nope(x)"], Decision::Gate, false)
    }]);
    let d = validate_policy(&c, &no_probes());
    assert_eq!(d.len(), 3);
    assert!(d.iter().all(|x| x.rule_name == "rule[0]"));
    assert_eq!(d[0].error, "Unknown condition function 'nope'");
    assert_eq!(
        d[0].fix_hint,
        "Known functions: contains, contains_word, param_eq, param_gt, param_lt, param_ne, param_contains, matches, spend_gt, spend_plus_amount_gt, any_of, has_credential, has_recent_action, not, or. Remove or replace this condition."
    );
    assert_eq!(d[1].error, "gate.requires_prior cannot be empty");
    assert_eq!(d[2].error, "gate.within must be 1-500, got 0");
    assert_eq!(
        d[2].fix_hint,
        "Set gate.within to a value between 1 and 500 (default: 50). Will clamp to 1 on auto-fix."
    );
}

#[test]
fn fix_clamps_gate_window_and_reports() {
    let mut c = config(vec![
        PolicyRule {
            gate: Some(GateConfig { requires_prior: "plan".into(), within: 900 }),
            ..rule("wide", ".*", &[], Decision::Gate, false)
        },
        rule("broken", "(", &[], Decision::Deny, false),
        rule("kept", ".*", &[], Decision::Allow, false),
    ]);
    let f = fix_policy(&mut c, &no_probes());
    assert_eq!(c.rules.len(), 2);
    assert_eq!(c.rules[0].gate.as_ref().unwrap().within, 500);
    assert_eq!(f.rules_modified, vec!["wide: clamped gate.within 900 -> 500".to_string()]);
    assert_eq!(f.rules_removed, vec!["broken".to_string()]);
    assert_eq!(
        f.description,
        "Removed 1 broken rule(s): broken. Fixed 1 rule(s): wide: clamped gate.within 900 -> 500"
    );
    let again = fix_policy(&mut c, &no_probes());
    assert!(again.rules_removed.is_empty() && again.rules_modified.is_empty());
    assert_eq!(again.description, "No auto-fixable issues found.");
}
