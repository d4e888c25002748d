//! The built-in rules: locked self-protection rules that keep an agent from
//! disabling its own policy enforcement, unlocked safe defaults, the default
//! policy built from both, sample user rules, and the merge order of system
//! and user rules.

use vstd::prelude::*;
use crate::model::{
    Decision, PolicyRule, PolicyConfig, CompiledPolicy, RuleView, rules_view, strings_view,
    compiled_rules_view,
};
use crate::engine::compilable;

verus! {

/// A rule with a reason and an alternative, and no Gate or Ensure configuration.
pub open spec fn rule_spec(
    name: Seq<char>,
    tool_pattern: Seq<char>,
    conditions: Seq<Seq<char>>,
    action: Decision,
    reason: Seq<char>,
    alternative: Seq<char>,
    locked: bool,
) -> RuleView {
    RuleView {
        name,
        tool_pattern,
        conditions,
        action,
        reason: Some(reason),
        alternative: Some(alternative),
        locked,
        gate: None,
        ensure: None,
    }
}

fn make_rule(
    name: &str,
    tool_pattern: &str,
    conditions: Vec<String>,
    action: Decision,
    reason: &str,
    alternative: &str,
    locked: bool,
) -> (r: PolicyRule)
    ensures
        r@ == rule_spec(name@, tool_pattern@, strings_view(conditions@), action, reason@, alternative@, locked),
{
    PolicyRule {
        name: name.to_owned(),
        tool_pattern: tool_pattern.to_owned(),
        conditions,
        action,
        reason: Some(reason.to_owned()),
        alternative: Some(alternative.to_owned()),
        locked,
        gate: None,
        ensure: None,
    }
}

/// The locked self-protection rules, in evaluation order.
pub open spec fn self_protection_spec() -> Seq<RuleView> {
    seq![
        rule_spec("protect_checks_dir"@, ".*"@, seq!["any_of(parameters, '.signet/checks', '.Signet/checks', '.SIGNET/checks')"@], Decision::Deny, "Self-protection: the checks directory is protected."@, "Check scripts must be installed manually by the user, not by AI agents. Ask the user to place scripts in the checks directory."@, true),
        rule_spec("protect_signet_dir"@, ".*"@, seq!["any_of(parameters, '.signet/', '.signet\\\\', '.Signet/', '.Signet\\\\', '.SIGNET/', '.SIGNET\\\\')"@], Decision::Deny, "Self-protection: the policy directory is protected."@, "Refer to it as 'the policy directory'. To check policy status, use signet_status via MCP."@, true),
        rule_spec("protect_vault_passphrase"@, ".*"@, seq!["any_of(parameters, 'signet-eval setup', 'signet-eval unlock', 'signet_eval setup', 'signet_eval unlock')"@], Decision::Deny, "Self-protection: vault passphrase operations are reserved for humans only."@, "Ask the user to run 'signet-eval setup' or 'signet-eval unlock' directly in their terminal."@, true),
        rule_spec("protect_signet_binary"@, ".*"@, seq!["any_of(parameters, 'signet-eval', 'signet_eval', 'Signet-Eval', 'SIGNET-EVAL', 'SIGNET_EVAL')"@], Decision::Deny, "Self-protection: the permissions tool binary is protected."@, "Refer to it as 'the permissions tool'. To inspect rules, use signet_list_rules via MCP."@, true),
        rule_spec("protect_hook_config"@, ".*"@, seq!["any_of(parameters, 'settings.json', 'settings.local.json')"@], Decision::Ask, "Self-protection: hook config changes require user confirmation."@, "Describe the settings change you need and ask the user to apply it, or use the /update-config skill."@, true),
        rule_spec("protect_signet_symlink"@, ".*"@, seq!["any_of(parameters, 'ln ', 'ln\t', 'symlink', 'mklink')"@, "any_of(parameters, '.signet', '.Signet', '.SIGNET', 'signet-eval', 'signet_eval', 'settings.json', 'settings.local.json')"@], Decision::Deny, "Self-protection: symlink creation targeting the permissions tool is blocked."@, "Use absolute paths in code or configuration rather than symlinks."@, true),
        rule_spec("protect_signet_process"@, ".*"@, seq!["or(contains_word(parameters, 'kill') || contains_word(parameters, 'pkill') || contains_word(parameters, 'killall'))"@, "contains_word(parameters, 'signet')"@], Decision::Deny, "Self-protection: cannot terminate processes for the permissions tool."@, "If the permissions tool appears hung, ask the user to restart it."@, true),
        rule_spec("protect_preflight_storage"@, ".*"@, seq!["or(contains(parameters, 'preflights') || contains(parameters, 'preflight_violations'))"@, "or(contains_word(parameters, 'DELETE') || contains_word(parameters, 'UPDATE') || contains_word(parameters, 'DROP') || contains_word(parameters, 'sqlite3'))"@], Decision::Deny, "Self-protection: preflight records are tamper-protected."@, "Use signet_preflight_active or signet_preflight_violations to read your preflight data."@, true),
    ]
}

/// The unlocked safe defaults, in evaluation order.
pub open spec fn system_default_spec() -> Seq<RuleView> {
    seq![
        rule_spec("block_rm"@, "^Bash$"@, seq!["contains(parameters, 'rm ')"@], Decision::Deny, "File deletion blocked."@, "Use 'trash <file>' (recoverable) or 'mv <file> /tmp/'."@, false),
        rule_spec("block_force_push"@, "^Bash$"@, seq!["any_of(parameters, 'push --force', 'push -f')"@], Decision::Ask, "Force push can overwrite others' work."@, "Use 'git push --force-with-lease' or push to a new branch."@, false),
        rule_spec("block_destructive_disk"@, "^Bash$"@, seq!["or(contains_word(parameters, 'mkfs') || contains(parameters, 'dd if=') || contains(parameters, 'diskutil erase') || contains(parameters, 'wipefs'))"@], Decision::Deny, "Destructive disk operations blocked."@, "Write to a temp file first: 'dd if=<src> of=/tmp/staging.img'. Ask the user to execute disk operations directly."@, false),
        rule_spec("block_piped_exec"@, "^Bash$"@, seq!["any_of(parameters, 'curl', 'wget')"@, "contains(parameters, '| sh')"@], Decision::Deny, "Piped remote execution blocked."@, "Download first: 'curl -o /tmp/script.sh <url>', then inspect with 'cat'. Let the user review."@, false),
        rule_spec("block_credential_writes"@, "^(Write|Edit)$"@, seq!["matches(file_path, '\\.(env|pem|key|secret|credentials)$')"@], Decision::Deny, "Writing to credential/secret files blocked."@, "Write to a '.example' file with placeholder values, then instruct the user to copy and fill in real credentials."@, false),
        rule_spec("block_chmod_777"@, "^Bash$"@, seq!["contains(parameters, 'chmod 777')"@], Decision::Ask, "chmod 777 grants world-readable/writable/executable access."@, "Use minimum permissions: 'chmod 755' for executables, 'chmod 644' for files, 'chmod 600' for secrets."@, false),
    ]
}

/// Self-protection rules that ship locked in every default policy. They
/// protect the checks directory (first), the policy directory, vault
/// passphrase operations, the binary, the hook configuration, symlinks to
/// any of them, the process, and the preflight records.
pub fn self_protection_rules() -> (v: Vec<PolicyRule>)
    ensures
        rules_view(v@) == self_protection_spec(),
{
    let mut v: Vec<PolicyRule> = Vec::new();
    assert(rules_view(v@) =~= Seq::<RuleView>::empty());
    {
        let mut c: Vec<String> = Vec::new();
        c.push("any_of(parameters, '.signet/checks', '.Signet/checks', '.SIGNET/checks')".to_owned());
        assert(strings_view(c@) =~= seq!["any_of(parameters, '.signet/checks', '.Signet/checks', '.SIGNET/checks')"@]);
        let ghost prev = v@;
        v.push(make_rule("protect_checks_dir", ".*", c, Decision::Deny, "Self-protection: the checks directory is protected.", "Check scripts must be installed manually by the user, not by AI agents. Ask the user to place scripts in the checks directory.", true));
        assert(rules_view(v@) =~= rules_view(prev).push(rules_view(v@).last()));
    }
    {
        let mut c: Vec<String> = Vec::new();
        c.push("any_of(parameters, '.signet/', '.signet\\\\', '.Signet/', '.Signet\\\\', '.SIGNET/', '.SIGNET\\\\')".to_owned());
        assert(strings_view(c@) =~= seq!["any_of(parameters, '.signet/', '.signet\\\\', '.Signet/', '.Signet\\\\', '.SIGNET/', '.SIGNET\\\\')"@]);
        let ghost prev = v@;
        v.push(make_rule("protect_signet_dir", ".*", c, Decision::Deny, "Self-protection: the policy directory is protected.", "Refer to it as 'the policy directory'. To check policy status, use signet_status via MCP.", true));
        assert(rules_view(v@) =~= rules_view(prev).push(rules_view(v@).last()));
    }
    {
        let mut c: Vec<String> = Vec::new();
        c.push("any_of(parameters, 'signet-eval setup', 'signet-eval unlock', 'signet_eval setup', 'signet_eval unlock')".to_owned());
        assert(strings_view(c@) =~= seq!["any_of(parameters, 'signet-eval setup', 'signet-eval unlock', 'signet_eval setup', 'signet_eval unlock')"@]);
        let ghost prev = v@;
        v.push(make_rule("protect_vault_passphrase", ".*", c, Decision::Deny, "Self-protection: vault passphrase operations are reserved for humans only.", "Ask the user to run 'signet-eval setup' or 'signet-eval unlock' directly in their terminal.", true));
        assert(rules_view(v@) =~= rules_view(prev).push(rules_view(v@).last()));
    }
    {
        let mut c: Vec<String> = Vec::new();
        c.push("any_of(parameters, 'signet-eval', 'signet_eval', 'Signet-Eval', 'SIGNET-EVAL', 'SIGNET_EVAL')".to_owned());
        assert(strings_view(c@) =~= seq!["any_of(parameters, 'signet-eval', 'signet_eval', 'Signet-Eval', 'SIGNET-EVAL', 'SIGNET_EVAL')"@]);
        let ghost prev = v@;
        v.push(make_rule("protect_signet_binary", ".*", c, Decision::Deny, "Self-protection: the permissions tool binary is protected.", "Refer to it as 'the permissions tool'. To inspect rules, use signet_list_rules via MCP.", true));
        assert(rules_view(v@) =~= rules_view(prev).push(rules_view(v@).last()));
    }
    {
        let mut c: Vec<String> = Vec::new();
        c.push("any_of(parameters, 'settings.json', 'settings.local.json')".to_owned());
        assert(strings_view(c@) =~= seq!["any_of(parameters, 'settings.json', 'settings.local.json')"@]);
        let ghost prev = v@;
        v.push(make_rule("protect_hook_config", ".*", c, Decision::Ask, "Self-protection: hook config changes require user confirmation.", "Describe the settings change you need and ask the user to apply it, or use the /update-config skill.", true));
        assert(rules_view(v@) =~= rules_view(prev).push(rules_view(v@).last()));
    }
    {
        let mut c: Vec<String> = Vec::new();
        c.push("any_of(parameters, 'ln ', 'ln\t', 'symlink', 'mklink')".to_owned());
        c.push("any_of(parameters, '.signet', '.Signet', '.SIGNET', 'signet-eval', 'signet_eval', 'settings.json', 'settings.local.json')".to_owned());
        assert(strings_view(c@) =~= seq!["any_of(parameters, 'ln ', 'ln\t', 'symlink', 'mklink')"@, "any_of(parameters, '.signet', '.Signet', '.SIGNET', 'signet-eval', 'signet_eval', 'settings.json', 'settings.local.json')"@]);
        let ghost prev = v@;
        v.push(make_rule("protect_signet_symlink", ".*", c, Decision::Deny, "Self-protection: symlink creation targeting the permissions tool is blocked.", "Use absolute paths in code or configuration rather than symlinks.", true));
        assert(rules_view(v@) =~= rules_view(prev).push(rules_view(v@).last()));
    }
    {
        let mut c: Vec<String> = Vec::new();
        c.push("or(contains_word(parameters, 'kill') || contains_word(parameters, 'pkill') || contains_word(parameters, 'killall'))".to_owned());
        c.push("contains_word(parameters, 'signet')".to_owned());
        assert(strings_view(c@) =~= seq!["or(contains_word(parameters, 'kill') || contains_word(parameters, 'pkill') || contains_word(parameters, 'killall'))"@, "contains_word(parameters, 'signet')"@]);
        let ghost prev = v@;
        v.push(make_rule("protect_signet_process", ".*", c, Decision::Deny, "Self-protection: cannot terminate processes for the permissions tool.", "If the permissions tool appears hung, ask the user to restart it.", true));
        assert(rules_view(v@) =~= rules_view(prev).push(rules_view(v@).last()));
    }
    {
        let mut c: Vec<String> = Vec::new();
        c.push("or(contains(parameters, 'preflights') || contains(parameters, 'preflight_violations'))".to_owned());
        c.push("or(contains_word(parameters, 'DELETE') || contains_word(parameters, 'UPDATE') || contains_word(parameters, 'DROP') || contains_word(parameters, 'sqlite3'))".to_owned());
        assert(strings_view(c@) =~= seq!["or(contains(parameters, 'preflights') || contains(parameters, 'preflight_violations'))"@, "or(contains_word(parameters, 'DELETE') || contains_word(parameters, 'UPDATE') || contains_word(parameters, 'DROP') || contains_word(parameters, 'sqlite3'))"@]);
        let ghost prev = v@;
        v.push(make_rule("protect_preflight_storage", ".*", c, Decision::Deny, "Self-protection: preflight records are tamper-protected.", "Use signet_preflight_active or signet_preflight_violations to read your preflight data.", true));
        assert(rules_view(v@) =~= rules_view(prev).push(rules_view(v@).last()));
    }
    assert(rules_view(v@) =~= self_protection_spec());
    v
}

/// Universal safe default rules (unlocked).
pub fn system_default_rules() -> (v: Vec<PolicyRule>)
    ensures
        rules_view(v@) == system_default_spec(),
{
    let mut v: Vec<PolicyRule> = Vec::new();
    assert(rules_view(v@) =~= Seq::<RuleView>::empty());
    {
        let mut c: Vec<String> = Vec::new();
        c.push("contains(parameters, 'rm ')".to_owned());
        assert(strings_view(c@) =~= seq!["contains(parameters, 'rm ')"@]);
        let ghost prev = v@;
        v.push(make_rule("block_rm", "^Bash$", c, Decision::Deny, "File deletion blocked.", "Use 'trash <file>' (recoverable) or 'mv <file> /tmp/'.", false));
        assert(rules_view(v@) =~= rules_view(prev).push(rules_view(v@).last()));
    }
    {
        let mut c: Vec<String> = Vec::new();
        c.push("any_of(parameters, 'push --force', 'push -f')".to_owned());
        assert(strings_view(c@) =~= seq!["any_of(parameters, 'push --force', 'push -f')"@]);
        let ghost prev = v@;
        v.push(make_rule("block_force_push", "^Bash$", c, Decision::Ask, "Force push can overwrite others' work.", "Use 'git push --force-with-lease' or push to a new branch.", false));
        assert(rules_view(v@) =~= rules_view(prev).push(rules_view(v@).last()));
    }
    {
        let mut c: Vec<String> = Vec::new();
        c.push("or(contains_word(parameters, 'mkfs') || contains(parameters, 'dd if=') || contains(parameters, 'diskutil erase') || contains(parameters, 'wipefs'))".to_owned());
        assert(strings_view(c@) =~= seq!["or(contains_word(parameters, 'mkfs') || contains(parameters, 'dd if=') || contains(parameters, 'diskutil erase') || contains(parameters, 'wipefs'))"@]);
        let ghost prev = v@;
        v.push(make_rule("block_destructive_disk", "^Bash$", c, Decision::Deny, "Destructive disk operations blocked.", "Write to a temp file first: 'dd if=<src> of=/tmp/staging.img'. Ask the user to execute disk operations directly.", false));
        assert(rules_view(v@) =~= rules_view(prev).push(rules_view(v@).last()));
    }
    {
        let mut c: Vec<String> = Vec::new();
        c.push("any_of(parameters, 'curl', 'wget')".to_owned());
        c.push("contains(parameters, '| sh')".to_owned());
        assert(strings_view(c@) =~= seq!["any_of(parameters, 'curl', 'wget')"@, "contains(parameters, '| sh')"@]);
        let ghost prev = v@;
        v.push(make_rule("block_piped_exec", "^Bash$", c, Decision::Deny, "Piped remote execution blocked.", "Download first: 'curl -o /tmp/script.sh <url>', then inspect with 'cat'. Let the user review.", false));
        assert(rules_view(v@) =~= rules_view(prev).push(rules_view(v@).last()));
    }
    {
        let mut c: Vec<String> = Vec::new();
        c.push("matches(file_path, '\\.(env|pem|key|secret|credentials)$')".to_owned());
        assert(strings_view(c@) =~= seq!["matches(file_path, '\\.(env|pem|key|secret|credentials)$')"@]);
        let ghost prev = v@;
        v.push(make_rule("block_credential_writes", "^(Write|Edit)$", c, Decision::Deny, "Writing to credential/secret files blocked.", "Write to a '.example' file with placeholder values, then instruct the user to copy and fill in real credentials.", false));
        assert(rules_view(v@) =~= rules_view(prev).push(rules_view(v@).last()));
    }
    {
        let mut c: Vec<String> = Vec::new();
        c.push("contains(parameters, 'chmod 777')".to_owned());
        assert(strings_view(c@) =~= seq!["contains(parameters, 'chmod 777')"@]);
        let ghost prev = v@;
        v.push(make_rule("block_chmod_777", "^Bash$", c, Decision::Ask, "chmod 777 grants world-readable/writable/executable access.", "Use minimum permissions: 'chmod 755' for executables, 'chmod 644' for files, 'chmod 600' for secrets.", false));
        assert(rules_view(v@) =~= rules_view(prev).push(rules_view(v@).last()));
    }
    assert(rules_view(v@) =~= system_default_spec());
    v
}

/// The locked rule that keeps the agent off the session-local `Task*` tools
/// (`TaskCreate`, `TaskUpdate`, `TaskList`, `TaskGet`, `TaskOutput`,
/// `TaskStop`) and points it to a persistent task store.
pub open spec fn task_store_spec() -> RuleView {
    rule_spec(
        "prefer_persistent_task_store"@,
        "^Task(Create|Update|List|Get|Output|Stop)$"@,
        Seq::empty(),
        Decision::Deny,
        "Session-local task tools do not persist across sessions."@,
        "Use a persistent task store, such as kindex's mcp__kindex__task_* tools."@,
        true,
    )
}

/// The locked rule that denies the session-local `Task*` tools.
pub fn persistent_task_store_rule() -> (r: PolicyRule)
    ensures
        r@ == task_store_spec(),
{
    let c: Vec<String> = Vec::new();
    assert(strings_view(c@) =~= Seq::<Seq<char>>::empty());
    make_rule(
        "prefer_persistent_task_store",
        "^Task(Create|Update|List|Get|Output|Stop)$",
        c,
        Decision::Deny,
        "Session-local task tools do not persist across sessions.",
        "Use a persistent task store, such as kindex's mcp__kindex__task_* tools.",
        true,
    )
}

/// The built-in rules: self-protection first, then the persistent task
/// store rule, then the safe defaults.
pub open spec fn baseline_rules() -> Seq<RuleView> {
    self_protection_spec() + seq![task_store_spec()] + system_default_spec()
}

/// The built-in configuration: version 1, default Allow, the baseline rules.
pub fn baseline_config() -> (c: PolicyConfig)
    ensures
        c.version == 1,
        c.default_action == Decision::Allow,
        rules_view(c.rules@) == baseline_rules(),
{
    let mut rules = self_protection_rules();
    let ghost a = rules@;
    let t = persistent_task_store_rule();
    rules.push(t);
    assert(rules_view(rules@) =~= rules_view(a) + seq![task_store_spec()]);
    let ghost a2 = rules@;
    let mut defaults = system_default_rules();
    let ghost b = defaults@;
    rules.append(&mut defaults);
    assert(rules_view(rules@) =~= rules_view(a2) + rules_view(b));
    PolicyConfig { version: 1, default_action: Decision::Allow, rules }
}

/// The built-in policy, compiled.
pub fn default_policy() -> (p: CompiledPolicy)
    ensures
        compiled_rules_view(p.rules@) == compilable(baseline_rules()),
        p.default_action == Decision::Allow,
{
    let config = baseline_config();
    CompiledPolicy::from_config(&config)
}

/// The sample user rules offered for copying into the user's rules file.
pub open spec fn sample_rules_text() -> Seq<char> {
    r#"# Sample rules for signet-eval
# Copy rules you want into ~/.signet/rules.yaml (or add via MCP signet_add_rule).
# User rules evaluate AFTER self-protection but BEFORE system defaults,
# so they can override system behavior.
#
# Format: bare YAML list of rules (no version/default_action wrapper needed).

# Workflow gate: require planning before writing code
- name: require_plan_before_code
  tool_pattern: "^(Edit|Write|NotebookEdit)$"
  conditions:
    - "not(has_recent_action('EnterPlanMode|TaskCreate', 500))"
  action: ASK
  reason: Present a plan before writing code.
  alternative: Use /plan to enter plan mode, or create tasks with TaskCreate first.

# Core file protection: confirm before modifying core/DSL files
- name: protect_core_files
  tool_pattern: "^(Edit|Write)$"
  conditions:
    - "or(matches(file_path, '/(core|dsl|models|schema|engine)/') || matches(file_path, '\\.(grammar|dsl|schema)$'))"
  action: ASK
  reason: Core/DSL file modification requires confirmation.
  alternative: Work on net-new files only, or confirm core changes are in scope.

# GitHub identity enforcement (ENSURE example)
# Requires a check script at ~/.signet/checks/gh-identity-matches-remote
# The script inspects the git remote URL and compares to the active gh user.
- name: github_identity_guard
  tool_pattern: "^Bash$"
  conditions:
    - "any_of(parameters, 'git push', 'git pull', 'git fetch', 'git clone')"
  action: ENSURE
  reason: Git remote operations must use the correct GitHub identity.
  alternative: "Run 'gh auth switch --user <correct_user>' to match the remote's org."
  ensure:
    check: gh-identity-matches-remote
    timeout: 15
    message: "GitHub identity mismatch. Run: gh auth switch --user <correct_user>"
"#@
}

/// Sample rules in YAML: opinionated examples users can copy.
pub fn sample_yaml() -> (s: String)
    ensures
        s@ == sample_rules_text(),
{
    r#"# Sample rules for signet-eval
# Copy rules you want into ~/.signet/rules.yaml (or add via MCP signet_add_rule).
# User rules evaluate AFTER self-protection but BEFORE system defaults,
# so they can override system behavior.
#
# Format: bare YAML list of rules (no version/default_action wrapper needed).

# Workflow gate: require planning before writing code
- name: require_plan_before_code
  tool_pattern: "^(Edit|Write|NotebookEdit)$"
  conditions:
    - "not(has_recent_action('EnterPlanMode|TaskCreate', 500))"
  action: ASK
  reason: Present a plan before writing code.
  alternative: Use /plan to enter plan mode, or create tasks with TaskCreate first.

# Core file protection: confirm before modifying core/DSL files
- name: protect_core_files
  tool_pattern: "^(Edit|Write)$"
  conditions:
    - "or(matches(file_path, '/(core|dsl|models|schema|engine)/') || matches(file_path, '\\.(grammar|dsl|schema)$'))"
  action: ASK
  reason: Core/DSL file modification requires confirmation.
  alternative: Work on net-new files only, or confirm core changes are in scope.

# GitHub identity enforcement (ENSURE example)
# Requires a check script at ~/.signet/checks/gh-identity-matches-remote
# The script inspects the git remote URL and compares to the active gh user.
- name: github_identity_guard
  tool_pattern: "^Bash$"
  conditions:
    - "any_of(parameters, 'git push', 'git pull', 'git fetch', 'git clone')"
  action: ENSURE
  reason: Git remote operations must use the correct GitHub identity.
  alternative: "Run 'gh auth switch --user <correct_user>' to match the remote's org."
  ensure:
    check: gh-identity-matches-remote
    timeout: 15
    message: "GitHub identity mismatch. Run: gh auth switch --user <correct_user>"
"#.to_owned()
}

/// The rules of `rules` that are locked (or not), in order.
pub open spec fn locked_rules(rules: Seq<RuleView>, locked: bool) -> Seq<RuleView> {
    rules.filter(|r: RuleView| r.locked == locked)
}

/// Evaluation order of merged rules: the locked system rules, then the user
/// rules, then the unlocked system rules.
pub open spec fn merged(system: Seq<RuleView>, user: Seq<RuleView>) -> Seq<RuleView> {
    locked_rules(system, true) + user + locked_rules(system, false)
}

fn push_with_lock(out: &mut Vec<PolicyRule>, system: &[PolicyRule], locked: bool)
    ensures
        rules_view(final(out)@) == rules_view(old(out)@) + locked_rules(rules_view(system@), locked),
{
    let ghost sv = rules_view(system@);
    let ghost start = rules_view(out@);
    let mut i: usize = 0;
    while i < system.len()
        invariant
            i <= system.len(),
            sv == rules_view(system@),
            rules_view(out@) == start + locked_rules(sv.take(i as int), locked),
        decreases system.len() - i,
    {
        proof {
            reveal(Seq::filter);
            assert(sv.take(i + 1).drop_last() =~= sv.take(i as int));
            assert(sv.take(i + 1).last() == system@[i as int]@);
        }
        if system[i].locked == locked {
            let r = system[i].clone();
            let ghost prev = out@;
            out.push(r);
            assert(rules_view(out@) =~= rules_view(prev).push(r@));
        }
        i += 1;
    }
    assert(sv.take(system.len() as int) =~= sv);
}

/// Merges system and user rules: locked system rules first, then user rules,
/// then unlocked system defaults.
pub fn merge_rules(system_rules: &[PolicyRule], user_rules: &[PolicyRule]) -> (v: Vec<PolicyRule>)
    ensures
        rules_view(v@) == merged(rules_view(system_rules@), rules_view(user_rules@)),
{
    let mut out: Vec<PolicyRule> = Vec::new();
    assert(rules_view(out@) =~= Seq::<RuleView>::empty());
    push_with_lock(&mut out, system_rules, true);
    let ghost mid = rules_view(out@);
    let mut i: usize = 0;
    while i < user_rules.len()
        invariant
            i <= user_rules.len(),
            rules_view(out@) == mid + rules_view(user_rules@).take(i as int),
        decreases user_rules.len() - i,
    {
        let r = user_rules[i].clone();
        let ghost prev = out@;
        out.push(r);
        assert(rules_view(out@) =~= rules_view(prev).push(r@));
        assert(rules_view(user_rules@).take(i + 1) =~= rules_view(user_rules@).take(i as int).push(user_rules@[i as int]@));
        i += 1;
    }
    assert(rules_view(user_rules@).take(user_rules.len() as int) =~= rules_view(user_rules@));
    push_with_lock(&mut out, system_rules, false);
    assert(rules_view(out@) =~= merged(rules_view(system_rules@), rules_view(user_rules@)));
    out
}

/// The configuration in force when the system policy is `system` (absent
/// when it is missing or malformed) and the user's rules are `user_rules`:
/// the system policy's version and default action (the built-in ones when it
/// is absent), and its rules (the built-in rules when it is absent) merged
/// with the user's.
pub fn merged_config(system: Option<PolicyConfig>, user_rules: &[PolicyRule]) -> (c: PolicyConfig)
    ensures
        match system {
            Some(s) => c.version == s.version && c.default_action == s.default_action
                && rules_view(c.rules@) == merged(rules_view(s.rules@), rules_view(user_rules@)),
            None => c.version == 1 && c.default_action == Decision::Allow
                && rules_view(c.rules@) == merged(baseline_rules(), rules_view(user_rules@)),
        },
{
    let base = match system {
        Some(s) => s,
        None => baseline_config(),
    };
    let rules = merge_rules(base.rules.as_slice(), user_rules);
    PolicyConfig { version: base.version, default_action: base.default_action, rules }
}

} // verus!
