//! The locked self-protection rules of the default policy.

use serde_json::Value;
use signet_eval::{
    default_policy, evaluate, Decision, EvaluationResult, HostFacts, Pending,
    ToolCall,
};

fn params(pairs: &[(&str, &str)]) -> Value {
    let mut m = serde_json::Map::new();
    for (k, v) in pairs {
        m.insert(k.to_string(), Value::String(v.to_string()));
    }
    Value::Object(m)
}

fn make_call(tool: &str, p: &Value) -> ToolCall {
    ToolCall { tool_name: tool.into(), parameters: p.to_string() }
}

/// Evaluates against the default policy without a vault; the built-in rules
/// never need a fact from the host.
fn eval_default(tool: &str, pairs: &[(&str, &str)]) -> EvaluationResult {
    let policy = default_policy();
    let call = make_call(tool, &params(pairs));
    match evaluate(&call, &policy, &HostFacts::without_vault()) {
        Pending::Ready(r) => r,
        Pending::NeedsFact(q) => panic!("unexpected request for a fact: {:?}", q),
    }
}

#[test]
fn test_blocks_write_to_signet_dir() {
    let result = eval_default("Write", &[("file_path", "/home/user/.signet/policy.yaml"), ("content", "hacked")]);
    assert_eq!(result.decision, Decision::Deny);
    assert_eq!(result.matched_rule.as_deref(), Some("protect_signet_dir"));
}

#[test]
fn test_blocks_edit_signet_dir() {
    let result = eval_default(
        "Edit",
        &[("file_path", "/home/user/.signet/policy.yaml"), ("old_string", "DENY"), ("new_string", "ALLOW")],
    );
    assert_eq!(result.decision, Decision::Deny);
    assert_eq!(result.matched_rule.as_deref(), Some("protect_signet_dir"));
}

#[test]
fn test_blocks_bash_signet_dir() {
    let result = eval_default("Bash", &[("command", "cat /dev/null > ~/.signet/policy.yaml")]);
    assert_eq!(result.decision, Decision::Deny);
    assert_eq!(result.matched_rule.as_deref(), Some("protect_signet_dir"));
}

#[test]
fn test_blocks_signet_binary_tampering() {
    let result = eval_default("Bash", &[("command", "cp /dev/null /opt/homebrew/bin/signet-eval")]);
    assert_eq!(result.decision, Decision::Deny);
    assert_eq!(result.matched_rule.as_deref(), Some("protect_signet_binary"));
}

#[test]
fn test_asks_settings_json_write() {
    let result = eval_default("Write", &[("file_path", "/home/user/.config/agent/settings.json"), ("content", "{}")]);
    assert_eq!(result.decision, Decision::Ask);
    assert_eq!(result.matched_rule.as_deref(), Some("protect_hook_config"));
}

#[test]
fn test_asks_settings_local_json_edit() {
    let result = eval_default(
        "Edit",
        &[
            ("file_path", "/home/user/.config/agent/settings.local.json"),
            ("old_string", "\"hooks\""),
            ("new_string", ""),
        ],
    );
    assert_eq!(result.decision, Decision::Ask);
    assert_eq!(result.matched_rule.as_deref(), Some("protect_hook_config"));
}

#[test]
fn test_blocks_kill_signet() {
    let result = eval_default("Bash", &[("command", "pkill signet")]);
    assert_eq!(result.decision, Decision::Deny);
    assert_eq!(result.matched_rule.as_deref(), Some("protect_signet_process"));
}

#[test]
fn test_blocks_killall_signet() {
    let result = eval_default("Bash", &[("command", "killall signet")]);
    assert_eq!(result.decision, Decision::Deny);
    assert_eq!(result.matched_rule.as_deref(), Some("protect_signet_process"));
}

#[test]
fn test_blocks_symlink_to_signet() {
    let result = eval_default("Bash", &[("command", "ln -s ~/.signet /tmp/x")]);
    assert_eq!(result.decision, Decision::Deny);
    assert_eq!(result.matched_rule.as_deref(), Some("protect_signet_symlink"));
}

#[test]
fn test_blocks_symlink_to_signet_eval() {
    let result = eval_default("Bash", &[("command", "ln -sf /dev/null /opt/homebrew/bin/signet-eval")]);
    assert_eq!(result.decision, Decision::Deny);
}

#[test]
fn test_allows_normal_symlink() {
    let result = eval_default("Bash", &[("command", "ln -s /tmp/foo /tmp/bar")]);
    assert_ne!(result.matched_rule.as_deref(), Some("protect_signet_symlink"));
}

#[test]
fn test_allows_normal_kill() {
    let result = eval_default("Bash", &[("command", "kill 12345")]);
    assert_ne!(result.matched_rule.as_deref(), Some("protect_signet_process"));
}

#[test]
fn test_allows_normal_operations() {
    assert_eq!(eval_default("Bash", &[("command", "ls -la")]).decision, Decision::Allow);
    assert_eq!(
        eval_default("Write", &[("file_path", "/home/user/code/main.rs"), ("content", "fn main() {}")]).decision,
        Decision::Allow
    );
    assert_eq!(eval_default("Read", &[("file_path", "/tmp/foo")]).decision, Decision::Allow);
}

#[test]
fn test_blocks_vault_setup() {
    let result = eval_default("Bash", &[("command", "signet-eval setup")]);
    assert_eq!(result.decision, Decision::Deny);
    assert_eq!(result.matched_rule.as_deref(), Some("protect_vault_passphrase"));
}

#[test]
fn test_blocks_vault_unlock() {
    let result = eval_default("Bash", &[("command", "signet-eval unlock")]);
    assert_eq!(result.decision, Decision::Deny);
    assert_eq!(result.matched_rule.as_deref(), Some("protect_vault_passphrase"));
}

#[test]
fn test_skilled_signet_worker_not_blocked() {
    let result = eval_default("Bash", &[("command", "echo skilled signet worker")]);
    assert_ne!(result.matched_rule.as_deref(), Some("protect_signet_process"));
    assert_eq!(result.decision, Decision::Allow);
}

#[test]
fn preflight_tampering_is_denied() {
    let result = eval_default("Bash", &[("command", "sqlite3 db 'DELETE FROM preflights'")]);
    assert_eq!(result.decision, Decision::Deny);
    assert_eq!(result.matched_rule.as_deref(), Some("protect_preflight_storage"));
}
