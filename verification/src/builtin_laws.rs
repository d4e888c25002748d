//! What the built-in rules do: for each safe default and each
//! self-protection rule, the tool it applies to, its action, and when its
//! conditions hold, stated over what the call's parameters contain.

use vstd::prelude::*;
use crate::model::Decision;
use crate::facts::FactsView;
use crate::condition::{CondStep, eval_condition, eval_word};
use crate::defaults::{system_default_spec, self_protection_spec};
use crate::text::seq_contains;
use crate::json::json_field_str;
use crate::pattern::{regex_new_outcome, regex_is_match};
use crate::laws::{
    contains_tests_the_parameters, contains_word_tests_the_word, any_of_tests_each_word, quoted_words,
    some_word_in, matches_tests_the_field, lemma_or_entry, lemma_or_step, lemma_or_last, lemma_eval_trimmed,
    lemma_depth_call, depth_of,
};

verus! {

/// The safe default `block_rm` is an unlocked DENY rule for `Bash` whose
/// condition holds exactly when the parameters contain `rm `.
pub proof fn rm_rule_blocks_file_deletion(params: Seq<char>, facts: FactsView)
    ensures
        system_default_spec()[0].name == "block_rm"@,
        system_default_spec()[0].tool_pattern == "^Bash$"@,
        system_default_spec()[0].action == Decision::Deny,
        !system_default_spec()[0].locked,
        system_default_spec()[0].conditions.len() == 1,
        eval_condition(system_default_spec()[0].conditions[0], params, facts) == CondStep::Done(Ok(seq_contains(params, "rm "@))),
{
    assert(system_default_spec()[0].conditions[0] == "contains(parameters, 'rm ')"@);
    lemma_block_rm_condition_2(params, facts);
}

/// The safe default `block_force_push` is an unlocked ASK rule for `Bash`
/// whose condition holds exactly when the parameters contain `push --force`
/// or `push -f`.
pub proof fn force_push_rule_asks(params: Seq<char>, facts: FactsView)
    ensures
        system_default_spec()[1].name == "block_force_push"@,
        system_default_spec()[1].tool_pattern == "^Bash$"@,
        system_default_spec()[1].action == Decision::Ask,
        !system_default_spec()[1].locked,
        system_default_spec()[1].conditions.len() == 1,
        eval_condition(system_default_spec()[1].conditions[0], params, facts) == CondStep::Done(Ok(seq_contains(params, "push --force"@) || seq_contains(params, "push -f"@))),
{
    assert(system_default_spec()[1].conditions[0] == "any_of(parameters, 'push --force', 'push -f')"@);
    lemma_block_force_push_condition_4(params, facts);
}

/// The safe default `block_piped_exec` is an unlocked DENY rule for `Bash`
/// whose conditions hold exactly when the parameters contain `curl` or
/// `wget`, and `| sh`.
pub proof fn piped_exec_rule_blocks_curl_to_shell(params: Seq<char>, facts: FactsView)
    ensures
        system_default_spec()[3].name == "block_piped_exec"@,
        system_default_spec()[3].tool_pattern == "^Bash$"@,
        system_default_spec()[3].action == Decision::Deny,
        !system_default_spec()[3].locked,
        system_default_spec()[3].conditions.len() == 2,
        eval_condition(system_default_spec()[3].conditions[0], params, facts) == CondStep::Done(Ok(seq_contains(params, "curl"@) || seq_contains(params, "wget"@))),
        eval_condition(system_default_spec()[3].conditions[1], params, facts) == CondStep::Done(Ok(seq_contains(params, "| sh"@))),
{
    assert(system_default_spec()[3].conditions[0] == "any_of(parameters, 'curl', 'wget')"@);
    lemma_block_piped_exec_condition_7(params, facts);
    assert(system_default_spec()[3].conditions[1] == "contains(parameters, '| sh')"@);
    lemma_block_piped_exec_condition_8(params, facts);
}

/// The safe default `block_credential_writes` is an unlocked DENY rule for
/// `Write` and `Edit` whose condition holds exactly when the regex
/// `\.(env|pem|key|secret|credentials)$` matches the `file_path` field.
pub proof fn credential_writes_rule_blocks_secret_files(params: Seq<char>, facts: FactsView)
    ensures
        system_default_spec()[4].name == "block_credential_writes"@,
        system_default_spec()[4].tool_pattern == "^(Write|Edit)$"@,
        system_default_spec()[4].action == Decision::Deny,
        !system_default_spec()[4].locked,
        system_default_spec()[4].conditions.len() == 1,
        eval_condition(system_default_spec()[4].conditions[0], params, facts) == match regex_new_outcome("\\.(env|pem|key|secret|credentials)$"@) {
            Err(e) => CondStep::Done(Err("regex: "@ + e)),
            Ok(_) => CondStep::Done(Ok(regex_is_match("\\.(env|pem|key|secret|credentials)$"@, json_field_str(params, "file_path"@)))),
        },
{
    assert(system_default_spec()[4].conditions[0] == "matches(file_path, '\\.(env|pem|key|secret|credentials)$')"@);
    lemma_block_credential_writes_condition_10(params, facts);
}

/// The safe default `block_chmod_777` is an unlocked ASK rule for `Bash`
/// whose condition holds exactly when the parameters contain `chmod 777`.
pub proof fn chmod_rule_asks_for_world_access(params: Seq<char>, facts: FactsView)
    ensures
        system_default_spec()[5].name == "block_chmod_777"@,
        system_default_spec()[5].tool_pattern == "^Bash$"@,
        system_default_spec()[5].action == Decision::Ask,
        !system_default_spec()[5].locked,
        system_default_spec()[5].conditions.len() == 1,
        eval_condition(system_default_spec()[5].conditions[0], params, facts) == CondStep::Done(Ok(seq_contains(params, "chmod 777"@))),
{
    assert(system_default_spec()[5].conditions[0] == "contains(parameters, 'chmod 777')"@);
    lemma_block_chmod_777_condition_12(params, facts);
}

/// The self-protection rule `protect_checks_dir` is a locked DENY rule for
/// every tool whose condition holds exactly when the parameters name the
/// checks directory (`.signet/checks`, in any of three spellings).
pub proof fn checks_dir_rule_protects_checks(params: Seq<char>, facts: FactsView)
    ensures
        self_protection_spec()[0].name == "protect_checks_dir"@,
        self_protection_spec()[0].tool_pattern == ".*"@,
        self_protection_spec()[0].action == Decision::Deny,
        self_protection_spec()[0].locked,
        self_protection_spec()[0].conditions.len() == 1,
        eval_condition(self_protection_spec()[0].conditions[0], params, facts) == CondStep::Done(Ok(seq_contains(params, ".signet/checks"@) || seq_contains(params, ".Signet/checks"@) || seq_contains(params, ".SIGNET/checks"@))),
{
    assert(self_protection_spec()[0].conditions[0] == "any_of(parameters, '.signet/checks', '.Signet/checks', '.SIGNET/checks')"@);
    lemma_protect_checks_dir_condition_14(params, facts);
}

/// The self-protection rule `protect_signet_dir` is a locked DENY rule for
/// every tool whose condition holds exactly when the parameters name the
/// policy directory (`.signet/` or `.signet\\`, in any of three spellings).
pub proof fn signet_dir_rule_protects_policy_dir(params: Seq<char>, facts: FactsView)
    ensures
        self_protection_spec()[1].name == "protect_signet_dir"@,
        self_protection_spec()[1].tool_pattern == ".*"@,
        self_protection_spec()[1].action == Decision::Deny,
        self_protection_spec()[1].locked,
        self_protection_spec()[1].conditions.len() == 1,
        eval_condition(self_protection_spec()[1].conditions[0], params, facts) == CondStep::Done(Ok(seq_contains(params, ".signet/"@) || seq_contains(params, ".signet\\\\"@) || seq_contains(params, ".Signet/"@) || seq_contains(params, ".Signet\\\\"@) || seq_contains(params, ".SIGNET/"@) || seq_contains(params, ".SIGNET\\\\"@))),
{
    assert(self_protection_spec()[1].conditions[0] == "any_of(parameters, '.signet/', '.signet\\\\', '.Signet/', '.Signet\\\\', '.SIGNET/', '.SIGNET\\\\')"@);
    lemma_protect_signet_dir_condition_16(params, facts);
}

/// The self-protection rule `protect_vault_passphrase` is a locked DENY rule
/// for every tool whose condition holds exactly when the parameters contain
/// a vault setup or unlock command.
pub proof fn vault_rule_protects_passphrase(params: Seq<char>, facts: FactsView)
    ensures
        self_protection_spec()[2].name == "protect_vault_passphrase"@,
        self_protection_spec()[2].tool_pattern == ".*"@,
        self_protection_spec()[2].action == Decision::Deny,
        self_protection_spec()[2].locked,
        self_protection_spec()[2].conditions.len() == 1,
        eval_condition(self_protection_spec()[2].conditions[0], params, facts) == CondStep::Done(Ok(seq_contains(params, "signet-eval setup"@) || seq_contains(params, "signet-eval unlock"@) || seq_contains(params, "signet_eval setup"@) || seq_contains(params, "signet_eval unlock"@))),
{
    assert(self_protection_spec()[2].conditions[0] == "any_of(parameters, 'signet-eval setup', 'signet-eval unlock', 'signet_eval setup', 'signet_eval unlock')"@);
    lemma_protect_vault_passphrase_condition_18(params, facts);
}

/// The self-protection rule `protect_signet_binary` is a locked DENY rule
/// for every tool whose condition holds exactly when the parameters name the
/// binary.
pub proof fn binary_rule_protects_binary(params: Seq<char>, facts: FactsView)
    ensures
        self_protection_spec()[3].name == "protect_signet_binary"@,
        self_protection_spec()[3].tool_pattern == ".*"@,
        self_protection_spec()[3].action == Decision::Deny,
        self_protection_spec()[3].locked,
        self_protection_spec()[3].conditions.len() == 1,
        eval_condition(self_protection_spec()[3].conditions[0], params, facts) == CondStep::Done(Ok(seq_contains(params, "signet-eval"@) || seq_contains(params, "signet_eval"@) || seq_contains(params, "Signet-Eval"@) || seq_contains(params, "SIGNET-EVAL"@) || seq_contains(params, "SIGNET_EVAL"@))),
{
    assert(self_protection_spec()[3].conditions[0] == "any_of(parameters, 'signet-eval', 'signet_eval', 'Signet-Eval', 'SIGNET-EVAL', 'SIGNET_EVAL')"@);
    lemma_protect_signet_binary_condition_20(params, facts);
}

/// The self-protection rule `protect_hook_config` is a locked ASK rule for
/// every tool whose condition holds exactly when the parameters name a hook
/// settings file.
pub proof fn hook_config_rule_asks(params: Seq<char>, facts: FactsView)
    ensures
        self_protection_spec()[4].name == "protect_hook_config"@,
        self_protection_spec()[4].tool_pattern == ".*"@,
        self_protection_spec()[4].action == Decision::Ask,
        self_protection_spec()[4].locked,
        self_protection_spec()[4].conditions.len() == 1,
        eval_condition(self_protection_spec()[4].conditions[0], params, facts) == CondStep::Done(Ok(seq_contains(params, "settings.json"@) || seq_contains(params, "settings.local.json"@))),
{
    assert(self_protection_spec()[4].conditions[0] == "any_of(parameters, 'settings.json', 'settings.local.json')"@);
    lemma_protect_hook_config_condition_22(params, facts);
}

/// The self-protection rule `protect_signet_symlink` is a locked DENY rule
/// for every tool whose conditions hold exactly when the parameters create a
/// link and name the policy directory, the binary or a hook settings file.
pub proof fn symlink_rule_blocks_links_to_the_tool(params: Seq<char>, facts: FactsView)
    ensures
        self_protection_spec()[5].name == "protect_signet_symlink"@,
        self_protection_spec()[5].tool_pattern == ".*"@,
        self_protection_spec()[5].action == Decision::Deny,
        self_protection_spec()[5].locked,
        self_protection_spec()[5].conditions.len() == 2,
        eval_condition(self_protection_spec()[5].conditions[0], params, facts) == CondStep::Done(Ok(seq_contains(params, "ln "@) || seq_contains(params, "ln\t"@) || seq_contains(params, "symlink"@) || seq_contains(params, "mklink"@))),
        eval_condition(self_protection_spec()[5].conditions[1], params, facts) == CondStep::Done(Ok(seq_contains(params, ".signet"@) || seq_contains(params, ".Signet"@) || seq_contains(params, ".SIGNET"@) || seq_contains(params, "signet-eval"@) || seq_contains(params, "signet_eval"@) || seq_contains(params, "settings.json"@) || seq_contains(params, "settings.local.json"@))),
{
    assert(self_protection_spec()[5].conditions[0] == "any_of(parameters, 'ln ', 'ln\t', 'symlink', 'mklink')"@);
    lemma_protect_signet_symlink_condition_25(params, facts);
    assert(self_protection_spec()[5].conditions[1] == "any_of(parameters, '.signet', '.Signet', '.SIGNET', 'signet-eval', 'signet_eval', 'settings.json', 'settings.local.json')"@);
    lemma_protect_signet_symlink_condition_26(params, facts);
}

/// The self-protection rule `protect_signet_process` is a locked DENY rule
/// for every tool whose conditions hold exactly when the parameters hold one
/// of the words `kill`, `pkill`, `killall` (tried in that order) and the word
/// `signet`.
pub proof fn process_rule_blocks_killing_the_tool(params: Seq<char>, facts: FactsView)
    ensures
        self_protection_spec()[6].name == "protect_signet_process"@,
        self_protection_spec()[6].tool_pattern == ".*"@,
        self_protection_spec()[6].action == Decision::Deny,
        self_protection_spec()[6].locked,
        self_protection_spec()[6].conditions.len() == 2,
        eval_condition(self_protection_spec()[6].conditions[0], params, facts) == match eval_word("kill"@, params) {
            CondStep::Done(Ok(true)) => CondStep::Done(Ok(true)),
            CondStep::Done(Ok(false)) => match eval_word("pkill"@, params) {
            CondStep::Done(Ok(true)) => CondStep::Done(Ok(true)),
            CondStep::Done(Ok(false)) => eval_word("killall"@, params),
            other => other,
        },
            other => other,
        },
        eval_condition(self_protection_spec()[6].conditions[1], params, facts) == eval_word("signet"@, params),
{
    assert(self_protection_spec()[6].conditions[0] == "or(contains_word(parameters, 'kill') || contains_word(parameters, 'pkill') || contains_word(parameters, 'killall'))"@);
    lemma_protect_signet_process_condition_35(params, facts);
    assert(self_protection_spec()[6].conditions[1] == "contains_word(parameters, 'signet')"@);
    lemma_protect_signet_process_condition_36(params, facts);
}

/// The self-protection rule `protect_preflight_storage` is a locked DENY rule
/// for every tool whose conditions hold exactly when the parameters mention
/// the preflight tables and hold one of the words `DELETE`, `UPDATE`, `DROP`,
/// `sqlite3` (tried in that order).
pub proof fn preflight_rule_protects_records(params: Seq<char>, facts: FactsView)
    ensures
        self_protection_spec()[7].name == "protect_preflight_storage"@,
        self_protection_spec()[7].tool_pattern == ".*"@,
        self_protection_spec()[7].action == Decision::Deny,
        self_protection_spec()[7].locked,
        self_protection_spec()[7].conditions.len() == 2,
        eval_condition(self_protection_spec()[7].conditions[0], params, facts) == match CondStep::Done(Ok(seq_contains(params, "preflights"@))) {
            CondStep::Done(Ok(true)) => CondStep::Done(Ok(true)),
            CondStep::Done(Ok(false)) => CondStep::Done(Ok(seq_contains(params, "preflight_violations"@))),
            other => other,
        },
        eval_condition(self_protection_spec()[7].conditions[1], params, facts) == match eval_word("DELETE"@, params) {
            CondStep::Done(Ok(true)) => CondStep::Done(Ok(true)),
            CondStep::Done(Ok(false)) => match eval_word("UPDATE"@, params) {
            CondStep::Done(Ok(true)) => CondStep::Done(Ok(true)),
            CondStep::Done(Ok(false)) => match eval_word("DROP"@, params) {
            CondStep::Done(Ok(true)) => CondStep::Done(Ok(true)),
            CondStep::Done(Ok(false)) => eval_word("sqlite3"@, params),
            other => other,
        },
            other => other,
        },
            other => other,
        },
{
    assert(self_protection_spec()[7].conditions[0] == "or(contains(parameters, 'preflights') || contains(parameters, 'preflight_violations'))"@);
    lemma_protect_preflight_storage_condition_51(params, facts);
    assert(self_protection_spec()[7].conditions[1] == "or(contains_word(parameters, 'DELETE') || contains_word(parameters, 'UPDATE') || contains_word(parameters, 'DROP') || contains_word(parameters, 'sqlite3'))"@);
    lemma_protect_preflight_storage_condition_52(params, facts);
}

/// The built-in rules in order: the eight self-protection rules, then the
/// locked `prefer_persistent_task_store` rule, a DENY rule without
/// conditions for the session-local task tools `TaskCreate`, `TaskUpdate`,
/// `TaskList`, `TaskGet`, `TaskOutput` and `TaskStop`, then the six safe
/// defaults.
pub proof fn builtin_rules_in_order()
    ensures
        self_protection_spec().len() == 8,
        system_default_spec().len() == 6,
        crate::defaults::baseline_rules().len() == 15,
        forall|i: int| 0 <= i < 8 ==> crate::defaults::baseline_rules()[i] == #[trigger] self_protection_spec()[i],
        crate::defaults::baseline_rules()[8] == crate::defaults::task_store_spec(),
        forall|i: int| 0 <= i < 6 ==> crate::defaults::baseline_rules()[9 + i] == #[trigger] system_default_spec()[i],
        crate::defaults::task_store_spec().name == "prefer_persistent_task_store"@,
        crate::defaults::task_store_spec().tool_pattern == "^Task(Create|Update|List|Get|Output|Stop)$"@,
        crate::defaults::task_store_spec().action == Decision::Deny,
        crate::defaults::task_store_spec().locked,
        crate::defaults::task_store_spec().conditions.len() == 0,
{
    let b = crate::defaults::baseline_rules();
    assert forall|i: int| 0 <= i < 8 implies b[i] == #[trigger] self_protection_spec()[i] by {
    }
    assert forall|i: int| 0 <= i < 6 implies b[9 + i] == #[trigger] system_default_spec()[i] by {
    }
}

proof fn lemma_block_rm_text_1()
    ensures
        "contains(parameters, 'rm ')"@ == "contains(parameters, '"@ + "rm "@ + "')"@,
{
    reveal_strlit("contains(parameters, 'rm ')");
    reveal_strlit("contains(parameters, '");
    reveal_strlit("')");
    reveal_strlit("rm ");
    assert("contains(parameters, 'rm ')"@ =~= "contains(parameters, '"@ + "rm "@ + "')"@);
}

#[verifier::spinoff_prover]
proof fn lemma_block_rm_condition_2(params: Seq<char>, facts: FactsView)
    ensures
        eval_condition("contains(parameters, 'rm ')"@, params, facts) == CondStep::Done(Ok(seq_contains(params, "rm "@))),
{
    lemma_block_rm_text_1();
    contains_tests_the_parameters("rm "@, params, facts);
}

proof fn lemma_block_force_push_words_3(ws: Seq<Seq<char>>, params: Seq<char>)
    requires
        ws == seq!["push --force"@, "push -f"@],
    ensures
        "any_of(parameters, 'push --force', 'push -f')"@ == "any_of(parameters,"@ + quoted_words(ws) + ")"@,
        forall|i: int| 0 <= i < ws.len() ==> !(#[trigger] ws[i]).contains(','),
        some_word_in(ws, params) == (seq_contains(params, "push --force"@) || seq_contains(params, "push -f"@)),
{
    reveal_strlit("any_of(parameters, 'push --force', 'push -f')");
    reveal_strlit("any_of(parameters,");
    reveal_strlit(")");
    reveal_strlit(" '");
    reveal_strlit("'");
    reveal_strlit(",");
    reveal_strlit("push --force");
    reveal_strlit("push -f");
    reveal_with_fuel(quoted_words, 4);
    assert("any_of(parameters, 'push --force', 'push -f')"@ =~= "any_of(parameters,"@ + quoted_words(ws) + ")"@);
    if some_word_in(ws, params) {
        let i = choose|i: int| 0 <= i < ws.len() && seq_contains(params, #[trigger] ws[i]);
    }
    if seq_contains(params, "push --force"@) {
        assert(seq_contains(params, ws[0]));
    }
    if seq_contains(params, "push -f"@) {
        assert(seq_contains(params, ws[1]));
    }
}

#[verifier::spinoff_prover]
proof fn lemma_block_force_push_condition_4(params: Seq<char>, facts: FactsView)
    ensures
        eval_condition("any_of(parameters, 'push --force', 'push -f')"@, params, facts) == CondStep::Done(Ok(seq_contains(params, "push --force"@) || seq_contains(params, "push -f"@))),
{
    lemma_block_force_push_words_3(seq!["push --force"@, "push -f"@], params);
    any_of_tests_each_word(seq!["push --force"@, "push -f"@], params, facts);
}

proof fn lemma_block_piped_exec_words_5(ws: Seq<Seq<char>>, params: Seq<char>)
    requires
        ws == seq!["curl"@, "wget"@],
    ensures
        "any_of(parameters, 'curl', 'wget')"@ == "any_of(parameters,"@ + quoted_words(ws) + ")"@,
        forall|i: int| 0 <= i < ws.len() ==> !(#[trigger] ws[i]).contains(','),
        some_word_in(ws, params) == (seq_contains(params, "curl"@) || seq_contains(params, "wget"@)),
{
    reveal_strlit("any_of(parameters, 'curl', 'wget')");
    reveal_strlit("any_of(parameters,");
    reveal_strlit(")");
    reveal_strlit(" '");
    reveal_strlit("'");
    reveal_strlit(",");
    reveal_strlit("curl");
    reveal_strlit("wget");
    reveal_with_fuel(quoted_words, 4);
    assert("any_of(parameters, 'curl', 'wget')"@ =~= "any_of(parameters,"@ + quoted_words(ws) + ")"@);
    if some_word_in(ws, params) {
        let i = choose|i: int| 0 <= i < ws.len() && seq_contains(params, #[trigger] ws[i]);
    }
    if seq_contains(params, "curl"@) {
        assert(seq_contains(params, ws[0]));
    }
    if seq_contains(params, "wget"@) {
        assert(seq_contains(params, ws[1]));
    }
}

proof fn lemma_block_piped_exec_text_6()
    ensures
        "contains(parameters, '| sh')"@ == "contains(parameters, '"@ + "| sh"@ + "')"@,
{
    reveal_strlit("contains(parameters, '| sh')");
    reveal_strlit("contains(parameters, '");
    reveal_strlit("')");
    reveal_strlit("| sh");
    assert("contains(parameters, '| sh')"@ =~= "contains(parameters, '"@ + "| sh"@ + "')"@);
}

#[verifier::spinoff_prover]
proof fn lemma_block_piped_exec_condition_7(params: Seq<char>, facts: FactsView)
    ensures
        eval_condition("any_of(parameters, 'curl', 'wget')"@, params, facts) == CondStep::Done(Ok(seq_contains(params, "curl"@) || seq_contains(params, "wget"@))),
{
    lemma_block_piped_exec_words_5(seq!["curl"@, "wget"@], params);
    any_of_tests_each_word(seq!["curl"@, "wget"@], params, facts);
}

#[verifier::spinoff_prover]
proof fn lemma_block_piped_exec_condition_8(params: Seq<char>, facts: FactsView)
    ensures
        eval_condition("contains(parameters, '| sh')"@, params, facts) == CondStep::Done(Ok(seq_contains(params, "| sh"@))),
{
    lemma_block_piped_exec_text_6();
    contains_tests_the_parameters("| sh"@, params, facts);
}

proof fn lemma_block_credential_writes_text_9()
    ensures
        "matches(file_path, '\\.(env|pem|key|secret|credentials)$')"@ == "matches("@ + "file_path"@ + ", '"@ + "\\.(env|pem|key|secret|credentials)$"@ + "')"@,
        "file_path"@.len() > 0,
        !"file_path"@.contains(','),
        crate::text::trim("file_path"@) == "file_path"@,
{
    reveal_strlit("matches(file_path, '\\.(env|pem|key|secret|credentials)$')");
    reveal_strlit("matches(");
    reveal_strlit(", '");
    reveal_strlit("')");
    reveal_strlit("file_path");
    reveal_strlit("\\.(env|pem|key|secret|credentials)$");
    assert("matches(file_path, '\\.(env|pem|key|secret|credentials)$')"@ =~= "matches("@ + "file_path"@ + ", '"@ + "\\.(env|pem|key|secret|credentials)$"@ + "')"@);
    assert(crate::text::trim("file_path"@) == "file_path"@) by {
        assert(crate::text::trim_start("file_path"@) == "file_path"@);
        assert(crate::text::trim_end("file_path"@) == "file_path"@);
    }
}

#[verifier::spinoff_prover]
proof fn lemma_block_credential_writes_condition_10(params: Seq<char>, facts: FactsView)
    ensures
        eval_condition("matches(file_path, '\\.(env|pem|key|secret|credentials)$')"@, params, facts) == match regex_new_outcome("\\.(env|pem|key|secret|credentials)$"@) {
            Err(e) => CondStep::Done(Err("regex: "@ + e)),
            Ok(_) => CondStep::Done(Ok(regex_is_match("\\.(env|pem|key|secret|credentials)$"@, json_field_str(params, "file_path"@)))),
        },
{
    lemma_block_credential_writes_text_9();
    matches_tests_the_field("file_path"@, "\\.(env|pem|key|secret|credentials)$"@, params, facts);
}

proof fn lemma_block_chmod_777_text_11()
    ensures
        "contains(parameters, 'chmod 777')"@ == "contains(parameters, '"@ + "chmod 777"@ + "')"@,
{
    reveal_strlit("contains(parameters, 'chmod 777')");
    reveal_strlit("contains(parameters, '");
    reveal_strlit("')");
    reveal_strlit("chmod 777");
    assert("contains(parameters, 'chmod 777')"@ =~= "contains(parameters, '"@ + "chmod 777"@ + "')"@);
}

#[verifier::spinoff_prover]
proof fn lemma_block_chmod_777_condition_12(params: Seq<char>, facts: FactsView)
    ensures
        eval_condition("contains(parameters, 'chmod 777')"@, params, facts) == CondStep::Done(Ok(seq_contains(params, "chmod 777"@))),
{
    lemma_block_chmod_777_text_11();
    contains_tests_the_parameters("chmod 777"@, params, facts);
}

proof fn lemma_protect_checks_dir_words_13(ws: Seq<Seq<char>>, params: Seq<char>)
    requires
        ws == seq![".signet/checks"@, ".Signet/checks"@, ".SIGNET/checks"@],
    ensures
        "any_of(parameters, '.signet/checks', '.Signet/checks', '.SIGNET/checks')"@ == "any_of(parameters,"@ + quoted_words(ws) + ")"@,
        forall|i: int| 0 <= i < ws.len() ==> !(#[trigger] ws[i]).contains(','),
        some_word_in(ws, params) == (seq_contains(params, ".signet/checks"@) || seq_contains(params, ".Signet/checks"@) || seq_contains(params, ".SIGNET/checks"@)),
{
    reveal_strlit("any_of(parameters, '.signet/checks', '.Signet/checks', '.SIGNET/checks')");
    reveal_strlit("any_of(parameters,");
    reveal_strlit(")");
    reveal_strlit(" '");
    reveal_strlit("'");
    reveal_strlit(",");
    reveal_strlit(".signet/checks");
    reveal_strlit(".Signet/checks");
    reveal_strlit(".SIGNET/checks");
    reveal_with_fuel(quoted_words, 5);
    assert("any_of(parameters, '.signet/checks', '.Signet/checks', '.SIGNET/checks')"@ =~= "any_of(parameters,"@ + quoted_words(ws) + ")"@);
    if some_word_in(ws, params) {
        let i = choose|i: int| 0 <= i < ws.len() && seq_contains(params, #[trigger] ws[i]);
    }
    if seq_contains(params, ".signet/checks"@) {
        assert(seq_contains(params, ws[0]));
    }
    if seq_contains(params, ".Signet/checks"@) {
        assert(seq_contains(params, ws[1]));
    }
    if seq_contains(params, ".SIGNET/checks"@) {
        assert(seq_contains(params, ws[2]));
    }
}

#[verifier::spinoff_prover]
proof fn lemma_protect_checks_dir_condition_14(params: Seq<char>, facts: FactsView)
    ensures
        eval_condition("any_of(parameters, '.signet/checks', '.Signet/checks', '.SIGNET/checks')"@, params, facts) == CondStep::Done(Ok(seq_contains(params, ".signet/checks"@) || seq_contains(params, ".Signet/checks"@) || seq_contains(params, ".SIGNET/checks"@))),
{
    lemma_protect_checks_dir_words_13(seq![".signet/checks"@, ".Signet/checks"@, ".SIGNET/checks"@], params);
    any_of_tests_each_word(seq![".signet/checks"@, ".Signet/checks"@, ".SIGNET/checks"@], params, facts);
}

proof fn lemma_protect_signet_dir_words_15(ws: Seq<Seq<char>>, params: Seq<char>)
    requires
        ws == seq![".signet/"@, ".signet\\\\"@, ".Signet/"@, ".Signet\\\\"@, ".SIGNET/"@, ".SIGNET\\\\"@],
    ensures
        "any_of(parameters, '.signet/', '.signet\\\\', '.Signet/', '.Signet\\\\', '.SIGNET/', '.SIGNET\\\\')"@ == "any_of(parameters,"@ + quoted_words(ws) + ")"@,
        forall|i: int| 0 <= i < ws.len() ==> !(#[trigger] ws[i]).contains(','),
        some_word_in(ws, params) == (seq_contains(params, ".signet/"@) || seq_contains(params, ".signet\\\\"@) || seq_contains(params, ".Signet/"@) || seq_contains(params, ".Signet\\\\"@) || seq_contains(params, ".SIGNET/"@) || seq_contains(params, ".SIGNET\\\\"@)),
{
    reveal_strlit("any_of(parameters, '.signet/', '.signet\\\\', '.Signet/', '.Signet\\\\', '.SIGNET/', '.SIGNET\\\\')");
    reveal_strlit("any_of(parameters,");
    reveal_strlit(")");
    reveal_strlit(" '");
    reveal_strlit("'");
    reveal_strlit(",");
    reveal_strlit(".signet/");
    reveal_strlit(".signet\\\\");
    reveal_strlit(".Signet/");
    reveal_strlit(".Signet\\\\");
    reveal_strlit(".SIGNET/");
    reveal_strlit(".SIGNET\\\\");
    reveal_with_fuel(quoted_words, 8);
    assert("any_of(parameters, '.signet/', '.signet\\\\', '.Signet/', '.Signet\\\\', '.SIGNET/', '.SIGNET\\\\')"@ =~= "any_of(parameters,"@ + quoted_words(ws) + ")"@);
    if some_word_in(ws, params) {
        let i = choose|i: int| 0 <= i < ws.len() && seq_contains(params, #[trigger] ws[i]);
    }
    if seq_contains(params, ".signet/"@) {
        assert(seq_contains(params, ws[0]));
    }
    if seq_contains(params, ".signet\\\\"@) {
        assert(seq_contains(params, ws[1]));
    }
    if seq_contains(params, ".Signet/"@) {
        assert(seq_contains(params, ws[2]));
    }
    if seq_contains(params, ".Signet\\\\"@) {
        assert(seq_contains(params, ws[3]));
    }
    if seq_contains(params, ".SIGNET/"@) {
        assert(seq_contains(params, ws[4]));
    }
    if seq_contains(params, ".SIGNET\\\\"@) {
        assert(seq_contains(params, ws[5]));
    }
}

#[verifier::spinoff_prover]
proof fn lemma_protect_signet_dir_condition_16(params: Seq<char>, facts: FactsView)
    ensures
        eval_condition("any_of(parameters, '.signet/', '.signet\\\\', '.Signet/', '.Signet\\\\', '.SIGNET/', '.SIGNET\\\\')"@, params, facts) == CondStep::Done(Ok(seq_contains(params, ".signet/"@) || seq_contains(params, ".signet\\\\"@) || seq_contains(params, ".Signet/"@) || seq_contains(params, ".Signet\\\\"@) || seq_contains(params, ".SIGNET/"@) || seq_contains(params, ".SIGNET\\\\"@))),
{
    lemma_protect_signet_dir_words_15(seq![".signet/"@, ".signet\\\\"@, ".Signet/"@, ".Signet\\\\"@, ".SIGNET/"@, ".SIGNET\\\\"@], params);
    any_of_tests_each_word(seq![".signet/"@, ".signet\\\\"@, ".Signet/"@, ".Signet\\\\"@, ".SIGNET/"@, ".SIGNET\\\\"@], params, facts);
}

proof fn lemma_protect_vault_passphrase_words_17(ws: Seq<Seq<char>>, params: Seq<char>)
    requires
        ws == seq!["signet-eval setup"@, "signet-eval unlock"@, "signet_eval setup"@, "signet_eval unlock"@],
    ensures
        "any_of(parameters, 'signet-eval setup', 'signet-eval unlock', 'signet_eval setup', 'signet_eval unlock')"@ == "any_of(parameters,"@ + quoted_words(ws) + ")"@,
        forall|i: int| 0 <= i < ws.len() ==> !(#[trigger] ws[i]).contains(','),
        some_word_in(ws, params) == (seq_contains(params, "signet-eval setup"@) || seq_contains(params, "signet-eval unlock"@) || seq_contains(params, "signet_eval setup"@) || seq_contains(params, "signet_eval unlock"@)),
{
    reveal_strlit("any_of(parameters, 'signet-eval setup', 'signet-eval unlock', 'signet_eval setup', 'signet_eval unlock')");
    reveal_strlit("any_of(parameters,");
    reveal_strlit(")");
    reveal_strlit(" '");
    reveal_strlit("'");
    reveal_strlit(",");
    reveal_strlit("signet-eval setup");
    reveal_strlit("signet-eval unlock");
    reveal_strlit("signet_eval setup");
    reveal_strlit("signet_eval unlock");
    reveal_with_fuel(quoted_words, 6);
    assert("any_of(parameters, 'signet-eval setup', 'signet-eval unlock', 'signet_eval setup', 'signet_eval unlock')"@ =~= "any_of(parameters,"@ + quoted_words(ws) + ")"@);
    if some_word_in(ws, params) {
        let i = choose|i: int| 0 <= i < ws.len() && seq_contains(params, #[trigger] ws[i]);
    }
    if seq_contains(params, "signet-eval setup"@) {
        assert(seq_contains(params, ws[0]));
    }
    if seq_contains(params, "signet-eval unlock"@) {
        assert(seq_contains(params, ws[1]));
    }
    if seq_contains(params, "signet_eval setup"@) {
        assert(seq_contains(params, ws[2]));
    }
    if seq_contains(params, "signet_eval unlock"@) {
        assert(seq_contains(params, ws[3]));
    }
}

#[verifier::spinoff_prover]
proof fn lemma_protect_vault_passphrase_condition_18(params: Seq<char>, facts: FactsView)
    ensures
        eval_condition("any_of(parameters, 'signet-eval setup', 'signet-eval unlock', 'signet_eval setup', 'signet_eval unlock')"@, params, facts) == CondStep::Done(Ok(seq_contains(params, "signet-eval setup"@) || seq_contains(params, "signet-eval unlock"@) || seq_contains(params, "signet_eval setup"@) || seq_contains(params, "signet_eval unlock"@))),
{
    lemma_protect_vault_passphrase_words_17(seq!["signet-eval setup"@, "signet-eval unlock"@, "signet_eval setup"@, "signet_eval unlock"@], params);
    any_of_tests_each_word(seq!["signet-eval setup"@, "signet-eval unlock"@, "signet_eval setup"@, "signet_eval unlock"@], params, facts);
}

proof fn lemma_protect_signet_binary_words_19(ws: Seq<Seq<char>>, params: Seq<char>)
    requires
        ws == seq!["signet-eval"@, "signet_eval"@, "Signet-Eval"@, "SIGNET-EVAL"@, "SIGNET_EVAL"@],
    ensures
        "any_of(parameters, 'signet-eval', 'signet_eval', 'Signet-Eval', 'SIGNET-EVAL', 'SIGNET_EVAL')"@ == "any_of(parameters,"@ + quoted_words(ws) + ")"@,
        forall|i: int| 0 <= i < ws.len() ==> !(#[trigger] ws[i]).contains(','),
        some_word_in(ws, params) == (seq_contains(params, "signet-eval"@) || seq_contains(params, "signet_eval"@) || seq_contains(params, "Signet-Eval"@) || seq_contains(params, "SIGNET-EVAL"@) || seq_contains(params, "SIGNET_EVAL"@)),
{
    reveal_strlit("any_of(parameters, 'signet-eval', 'signet_eval', 'Signet-Eval', 'SIGNET-EVAL', 'SIGNET_EVAL')");
    reveal_strlit("any_of(parameters,");
    reveal_strlit(")");
    reveal_strlit(" '");
    reveal_strlit("'");
    reveal_strlit(",");
    reveal_strlit("signet-eval");
    reveal_strlit("signet_eval");
    reveal_strlit("Signet-Eval");
    reveal_strlit("SIGNET-EVAL");
    reveal_strlit("SIGNET_EVAL");
    reveal_with_fuel(quoted_words, 7);
    assert("any_of(parameters, 'signet-eval', 'signet_eval', 'Signet-Eval', 'SIGNET-EVAL', 'SIGNET_EVAL')"@ =~= "any_of(parameters,"@ + quoted_words(ws) + ")"@);
    if some_word_in(ws, params) {
        let i = choose|i: int| 0 <= i < ws.len() && seq_contains(params, #[trigger] ws[i]);
    }
    if seq_contains(params, "signet-eval"@) {
        assert(seq_contains(params, ws[0]));
    }
    if seq_contains(params, "signet_eval"@) {
        assert(seq_contains(params, ws[1]));
    }
    if seq_contains(params, "Signet-Eval"@) {
        assert(seq_contains(params, ws[2]));
    }
    if seq_contains(params, "SIGNET-EVAL"@) {
        assert(seq_contains(params, ws[3]));
    }
    if seq_contains(params, "SIGNET_EVAL"@) {
        assert(seq_contains(params, ws[4]));
    }
}

#[verifier::spinoff_prover]
proof fn lemma_protect_signet_binary_condition_20(params: Seq<char>, facts: FactsView)
    ensures
        eval_condition("any_of(parameters, 'signet-eval', 'signet_eval', 'Signet-Eval', 'SIGNET-EVAL', 'SIGNET_EVAL')"@, params, facts) == CondStep::Done(Ok(seq_contains(params, "signet-eval"@) || seq_contains(params, "signet_eval"@) || seq_contains(params, "Signet-Eval"@) || seq_contains(params, "SIGNET-EVAL"@) || seq_contains(params, "SIGNET_EVAL"@))),
{
    lemma_protect_signet_binary_words_19(seq!["signet-eval"@, "signet_eval"@, "Signet-Eval"@, "SIGNET-EVAL"@, "SIGNET_EVAL"@], params);
    any_of_tests_each_word(seq!["signet-eval"@, "signet_eval"@, "Signet-Eval"@, "SIGNET-EVAL"@, "SIGNET_EVAL"@], params, facts);
}

proof fn lemma_protect_hook_config_words_21(ws: Seq<Seq<char>>, params: Seq<char>)
    requires
        ws == seq!["settings.json"@, "settings.local.json"@],
    ensures
        "any_of(parameters, 'settings.json', 'settings.local.json')"@ == "any_of(parameters,"@ + quoted_words(ws) + ")"@,
        forall|i: int| 0 <= i < ws.len() ==> !(#[trigger] ws[i]).contains(','),
        some_word_in(ws, params) == (seq_contains(params, "settings.json"@) || seq_contains(params, "settings.local.json"@)),
{
    reveal_strlit("any_of(parameters, 'settings.json', 'settings.local.json')");
    reveal_strlit("any_of(parameters,");
    reveal_strlit(")");
    reveal_strlit(" '");
    reveal_strlit("'");
    reveal_strlit(",");
    reveal_strlit("settings.json");
    reveal_strlit("settings.local.json");
    reveal_with_fuel(quoted_words, 4);
    assert("any_of(parameters, 'settings.json', 'settings.local.json')"@ =~= "any_of(parameters,"@ + quoted_words(ws) + ")"@);
    if some_word_in(ws, params) {
        let i = choose|i: int| 0 <= i < ws.len() && seq_contains(params, #[trigger] ws[i]);
    }
    if seq_contains(params, "settings.json"@) {
        assert(seq_contains(params, ws[0]));
    }
    if seq_contains(params, "settings.local.json"@) {
        assert(seq_contains(params, ws[1]));
    }
}

#[verifier::spinoff_prover]
proof fn lemma_protect_hook_config_condition_22(params: Seq<char>, facts: FactsView)
    ensures
        eval_condition("any_of(parameters, 'settings.json', 'settings.local.json')"@, params, facts) == CondStep::Done(Ok(seq_contains(params, "settings.json"@) || seq_contains(params, "settings.local.json"@))),
{
    lemma_protect_hook_config_words_21(seq!["settings.json"@, "settings.local.json"@], params);
    any_of_tests_each_word(seq!["settings.json"@, "settings.local.json"@], params, facts);
}

proof fn lemma_protect_signet_symlink_words_23(ws: Seq<Seq<char>>, params: Seq<char>)
    requires
        ws == seq!["ln "@, "ln\t"@, "symlink"@, "mklink"@],
    ensures
        "any_of(parameters, 'ln ', 'ln\t', 'symlink', 'mklink')"@ == "any_of(parameters,"@ + quoted_words(ws) + ")"@,
        forall|i: int| 0 <= i < ws.len() ==> !(#[trigger] ws[i]).contains(','),
        some_word_in(ws, params) == (seq_contains(params, "ln "@) || seq_contains(params, "ln\t"@) || seq_contains(params, "symlink"@) || seq_contains(params, "mklink"@)),
{
    reveal_strlit("any_of(parameters, 'ln ', 'ln\t', 'symlink', 'mklink')");
    reveal_strlit("any_of(parameters,");
    reveal_strlit(")");
    reveal_strlit(" '");
    reveal_strlit("'");
    reveal_strlit(",");
    reveal_strlit("ln ");
    reveal_strlit("ln\t");
    reveal_strlit("symlink");
    reveal_strlit("mklink");
    reveal_with_fuel(quoted_words, 6);
    assert("any_of(parameters, 'ln ', 'ln\t', 'symlink', 'mklink')"@ =~= "any_of(parameters,"@ + quoted_words(ws) + ")"@);
    if some_word_in(ws, params) {
        let i = choose|i: int| 0 <= i < ws.len() && seq_contains(params, #[trigger] ws[i]);
    }
    if seq_contains(params, "ln "@) {
        assert(seq_contains(params, ws[0]));
    }
    if seq_contains(params, "ln\t"@) {
        assert(seq_contains(params, ws[1]));
    }
    if seq_contains(params, "symlink"@) {
        assert(seq_contains(params, ws[2]));
    }
    if seq_contains(params, "mklink"@) {
        assert(seq_contains(params, ws[3]));
    }
}

proof fn lemma_protect_signet_symlink_words_24(ws: Seq<Seq<char>>, params: Seq<char>)
    requires
        ws == seq![".signet"@, ".Signet"@, ".SIGNET"@, "signet-eval"@, "signet_eval"@, "settings.json"@, "settings.local.json"@],
    ensures
        "any_of(parameters, '.signet', '.Signet', '.SIGNET', 'signet-eval', 'signet_eval', 'settings.json', 'settings.local.json')"@ == "any_of(parameters,"@ + quoted_words(ws) + ")"@,
        forall|i: int| 0 <= i < ws.len() ==> !(#[trigger] ws[i]).contains(','),
        some_word_in(ws, params) == (seq_contains(params, ".signet"@) || seq_contains(params, ".Signet"@) || seq_contains(params, ".SIGNET"@) || seq_contains(params, "signet-eval"@) || seq_contains(params, "signet_eval"@) || seq_contains(params, "settings.json"@) || seq_contains(params, "settings.local.json"@)),
{
    reveal_strlit("any_of(parameters, '.signet', '.Signet', '.SIGNET', 'signet-eval', 'signet_eval', 'settings.json', 'settings.local.json')");
    reveal_strlit("any_of(parameters,");
    reveal_strlit(")");
    reveal_strlit(" '");
    reveal_strlit("'");
    reveal_strlit(",");
    reveal_strlit(".signet");
    reveal_strlit(".Signet");
    reveal_strlit(".SIGNET");
    reveal_strlit("signet-eval");
    reveal_strlit("signet_eval");
    reveal_strlit("settings.json");
    reveal_strlit("settings.local.json");
    reveal_with_fuel(quoted_words, 9);
    assert("any_of(parameters, '.signet', '.Signet', '.SIGNET', 'signet-eval', 'signet_eval', 'settings.json', 'settings.local.json')"@ =~= "any_of(parameters,"@ + quoted_words(ws) + ")"@);
    if some_word_in(ws, params) {
        let i = choose|i: int| 0 <= i < ws.len() && seq_contains(params, #[trigger] ws[i]);
    }
    if seq_contains(params, ".signet"@) {
        assert(seq_contains(params, ws[0]));
    }
    if seq_contains(params, ".Signet"@) {
        assert(seq_contains(params, ws[1]));
    }
    if seq_contains(params, ".SIGNET"@) {
        assert(seq_contains(params, ws[2]));
    }
    if seq_contains(params, "signet-eval"@) {
        assert(seq_contains(params, ws[3]));
    }
    if seq_contains(params, "signet_eval"@) {
        assert(seq_contains(params, ws[4]));
    }
    if seq_contains(params, "settings.json"@) {
        assert(seq_contains(params, ws[5]));
    }
    if seq_contains(params, "settings.local.json"@) {
        assert(seq_contains(params, ws[6]));
    }
}

#[verifier::spinoff_prover]
proof fn lemma_protect_signet_symlink_condition_25(params: Seq<char>, facts: FactsView)
    ensures
        eval_condition("any_of(parameters, 'ln ', 'ln\t', 'symlink', 'mklink')"@, params, facts) == CondStep::Done(Ok(seq_contains(params, "ln "@) || seq_contains(params, "ln\t"@) || seq_contains(params, "symlink"@) || seq_contains(params, "mklink"@))),
{
    lemma_protect_signet_symlink_words_23(seq!["ln "@, "ln\t"@, "symlink"@, "mklink"@], params);
    any_of_tests_each_word(seq!["ln "@, "ln\t"@, "symlink"@, "mklink"@], params, facts);
}

#[verifier::spinoff_prover]
proof fn lemma_protect_signet_symlink_condition_26(params: Seq<char>, facts: FactsView)
    ensures
        eval_condition("any_of(parameters, '.signet', '.Signet', '.SIGNET', 'signet-eval', 'signet_eval', 'settings.json', 'settings.local.json')"@, params, facts) == CondStep::Done(Ok(seq_contains(params, ".signet"@) || seq_contains(params, ".Signet"@) || seq_contains(params, ".SIGNET"@) || seq_contains(params, "signet-eval"@) || seq_contains(params, "signet_eval"@) || seq_contains(params, "settings.json"@) || seq_contains(params, "settings.local.json"@))),
{
    lemma_protect_signet_symlink_words_24(seq![".signet"@, ".Signet"@, ".SIGNET"@, "signet-eval"@, "signet_eval"@, "settings.json"@, "settings.local.json"@], params);
    any_of_tests_each_word(seq![".signet"@, ".Signet"@, ".SIGNET"@, "signet-eval"@, "signet_eval"@, "settings.json"@, "settings.local.json"@], params, facts);
}

proof fn lemma_protect_signet_process_text_27()
    ensures
        "contains_word(parameters, 'kill')"@ == "contains_word(parameters, '"@ + "kill"@ + "')"@,
{
    reveal_strlit("contains_word(parameters, 'kill')");
    reveal_strlit("contains_word(parameters, '");
    reveal_strlit("')");
    reveal_strlit("kill");
    assert("contains_word(parameters, 'kill')"@ =~= "contains_word(parameters, '"@ + "kill"@ + "')"@);
}

proof fn lemma_protect_signet_process_text_28()
    ensures
        "contains_word(parameters, 'pkill')"@ == "contains_word(parameters, '"@ + "pkill"@ + "')"@,
{
    reveal_strlit("contains_word(parameters, 'pkill')");
    reveal_strlit("contains_word(parameters, '");
    reveal_strlit("')");
    reveal_strlit("pkill");
    assert("contains_word(parameters, 'pkill')"@ =~= "contains_word(parameters, '"@ + "pkill"@ + "')"@);
}

proof fn lemma_protect_signet_process_text_29()
    ensures
        "contains_word(parameters, 'killall')"@ == "contains_word(parameters, '"@ + "killall"@ + "')"@,
{
    reveal_strlit("contains_word(parameters, 'killall')");
    reveal_strlit("contains_word(parameters, '");
    reveal_strlit("')");
    reveal_strlit("killall");
    assert("contains_word(parameters, 'killall')"@ =~= "contains_word(parameters, '"@ + "killall"@ + "')"@);
}

proof fn lemma_protect_signet_process_or_30()
    ensures
        "or(contains_word(parameters, 'kill') || contains_word(parameters, 'pkill') || contains_word(parameters, 'killall'))"@ == "or("@ + ("contains_word(parameters, 'kill')"@ + " || "@ + ("contains_word(parameters, 'pkill')"@ + " || "@ + "contains_word(parameters, 'killall')"@)) + ")"@,
{
    reveal_strlit("or(contains_word(parameters, 'kill') || contains_word(parameters, 'pkill') || contains_word(parameters, 'killall'))");
    reveal_strlit("contains_word(parameters, 'kill')");
    reveal_strlit("contains_word(parameters, 'pkill')");
    reveal_strlit("contains_word(parameters, 'killall')");
    reveal_strlit(" || ");
    reveal_strlit("or(");
    reveal_strlit(")");
    assert("or(contains_word(parameters, 'kill') || contains_word(parameters, 'pkill') || contains_word(parameters, 'killall'))"@ =~= "or("@ + ("contains_word(parameters, 'kill')"@ + " || "@ + ("contains_word(parameters, 'pkill')"@ + " || "@ + "contains_word(parameters, 'killall')"@)) + ")"@);
}

proof fn lemma_protect_signet_process_depth_31()
    ensures
        depth_of("contains_word(parameters, 'kill')"@) == 0,
        !"contains_word(parameters, 'kill')"@.contains('|'),
{
    reveal_strlit("contains_word(parameters, 'kill')");
    reveal_strlit("contains_word");
    reveal_strlit("parameters, 'kill'");
    reveal_strlit("(");
    reveal_strlit(")");
    lemma_depth_call("contains_word"@, "parameters, 'kill'"@);
    assert("contains_word(parameters, 'kill')"@ =~= "contains_word"@ + "("@ + "parameters, 'kill'"@ + ")"@);
}

proof fn lemma_protect_signet_process_depth_32()
    ensures
        depth_of("contains_word(parameters, 'pkill')"@) == 0,
        !"contains_word(parameters, 'pkill')"@.contains('|'),
{
    reveal_strlit("contains_word(parameters, 'pkill')");
    reveal_strlit("contains_word");
    reveal_strlit("parameters, 'pkill'");
    reveal_strlit("(");
    reveal_strlit(")");
    lemma_depth_call("contains_word"@, "parameters, 'pkill'"@);
    assert("contains_word(parameters, 'pkill')"@ =~= "contains_word"@ + "("@ + "parameters, 'pkill'"@ + ")"@);
}

proof fn lemma_protect_signet_process_bar_33()
    ensures
        !"contains_word(parameters, 'killall')"@.contains('|'),
{
    reveal_strlit("contains_word(parameters, 'killall')");
}

proof fn lemma_protect_signet_process_text_34()
    ensures
        "contains_word(parameters, 'signet')"@ == "contains_word(parameters, '"@ + "signet"@ + "')"@,
{
    reveal_strlit("contains_word(parameters, 'signet')");
    reveal_strlit("contains_word(parameters, '");
    reveal_strlit("')");
    reveal_strlit("signet");
    assert("contains_word(parameters, 'signet')"@ =~= "contains_word(parameters, '"@ + "signet"@ + "')"@);
}

#[verifier::spinoff_prover]
proof fn lemma_protect_signet_process_condition_35(params: Seq<char>, facts: FactsView)
    ensures
        eval_condition("or(contains_word(parameters, 'kill') || contains_word(parameters, 'pkill') || contains_word(parameters, 'killall'))"@, params, facts) == match eval_word("kill"@, params) {
            CondStep::Done(Ok(true)) => CondStep::Done(Ok(true)),
            CondStep::Done(Ok(false)) => match eval_word("pkill"@, params) {
            CondStep::Done(Ok(true)) => CondStep::Done(Ok(true)),
            CondStep::Done(Ok(false)) => eval_word("killall"@, params),
            other => other,
        },
            other => other,
        },
{
    lemma_protect_signet_process_or_30();
    crate::laws::lemma_has_sep("contains_word(parameters, 'kill')"@, ("contains_word(parameters, 'pkill')"@ + " || "@ + "contains_word(parameters, 'killall')"@));
    lemma_or_entry(("contains_word(parameters, 'kill')"@ + " || "@ + ("contains_word(parameters, 'pkill')"@ + " || "@ + "contains_word(parameters, 'killall')"@)), params, facts);
    lemma_protect_signet_process_depth_31();
    lemma_or_step("contains_word(parameters, 'kill')"@, ("contains_word(parameters, 'pkill')"@ + " || "@ + "contains_word(parameters, 'killall')"@), params, facts);
    lemma_protect_signet_process_depth_32();
    lemma_or_step("contains_word(parameters, 'pkill')"@, "contains_word(parameters, 'killall')"@, params, facts);
    lemma_protect_signet_process_bar_33();
    lemma_or_last("contains_word(parameters, 'killall')"@, params, facts);
    lemma_eval_trimmed("contains_word(parameters, 'kill')"@, params, facts);
    lemma_eval_trimmed("contains_word(parameters, 'pkill')"@, params, facts);
    lemma_eval_trimmed("contains_word(parameters, 'killall')"@, params, facts);
    lemma_protect_signet_process_text_27();
    contains_word_tests_the_word("kill"@, params, facts);
    lemma_protect_signet_process_text_28();
    contains_word_tests_the_word("pkill"@, params, facts);
    lemma_protect_signet_process_text_29();
    contains_word_tests_the_word("killall"@, params, facts);
}

#[verifier::spinoff_prover]
proof fn lemma_protect_signet_process_condition_36(params: Seq<char>, facts: FactsView)
    ensures
        eval_condition("contains_word(parameters, 'signet')"@, params, facts) == eval_word("signet"@, params),
{
    lemma_protect_signet_process_text_34();
    contains_word_tests_the_word("signet"@, params, facts);
}

proof fn lemma_protect_preflight_storage_text_37()
    ensures
        "contains(parameters, 'preflights')"@ == "contains(parameters, '"@ + "preflights"@ + "')"@,
{
    reveal_strlit("contains(parameters, 'preflights')");
    reveal_strlit("contains(parameters, '");
    reveal_strlit("')");
    reveal_strlit("preflights");
    assert("contains(parameters, 'preflights')"@ =~= "contains(parameters, '"@ + "preflights"@ + "')"@);
}

proof fn lemma_protect_preflight_storage_text_38()
    ensures
        "contains(parameters, 'preflight_violations')"@ == "contains(parameters, '"@ + "preflight_violations"@ + "')"@,
{
    reveal_strlit("contains(parameters, 'preflight_violations')");
    reveal_strlit("contains(parameters, '");
    reveal_strlit("')");
    reveal_strlit("preflight_violations");
    assert("contains(parameters, 'preflight_violations')"@ =~= "contains(parameters, '"@ + "preflight_violations"@ + "')"@);
}

proof fn lemma_protect_preflight_storage_or_39()
    ensures
        "or(contains(parameters, 'preflights') || contains(parameters, 'preflight_violations'))"@ == "or("@ + ("contains(parameters, 'preflights')"@ + " || "@ + "contains(parameters, 'preflight_violations')"@) + ")"@,
{
    reveal_strlit("or(contains(parameters, 'preflights') || contains(parameters, 'preflight_violations'))");
    reveal_strlit("contains(parameters, 'preflights')");
    reveal_strlit("contains(parameters, 'preflight_violations')");
    reveal_strlit(" || ");
    reveal_strlit("or(");
    reveal_strlit(")");
    assert("or(contains(parameters, 'preflights') || contains(parameters, 'preflight_violations'))"@ =~= "or("@ + ("contains(parameters, 'preflights')"@ + " || "@ + "contains(parameters, 'preflight_violations')"@) + ")"@);
}

proof fn lemma_protect_preflight_storage_depth_40()
    ensures
        depth_of("contains(parameters, 'preflights')"@) == 0,
        !"contains(parameters, 'preflights')"@.contains('|'),
{
    reveal_strlit("contains(parameters, 'preflights')");
    reveal_strlit("contains");
    reveal_strlit("parameters, 'preflights'");
    reveal_strlit("(");
    reveal_strlit(")");
    lemma_depth_call("contains"@, "parameters, 'preflights'"@);
    assert("contains(parameters, 'preflights')"@ =~= "contains"@ + "("@ + "parameters, 'preflights'"@ + ")"@);
}

proof fn lemma_protect_preflight_storage_bar_41()
    ensures
        !"contains(parameters, 'preflight_violations')"@.contains('|'),
{
    reveal_strlit("contains(parameters, 'preflight_violations')");
}

proof fn lemma_protect_preflight_storage_text_42()
    ensures
        "contains_word(parameters, 'DELETE')"@ == "contains_word(parameters, '"@ + "DELETE"@ + "')"@,
{
    reveal_strlit("contains_word(parameters, 'DELETE')");
    reveal_strlit("contains_word(parameters, '");
    reveal_strlit("')");
    reveal_strlit("DELETE");
    assert("contains_word(parameters, 'DELETE')"@ =~= "contains_word(parameters, '"@ + "DELETE"@ + "')"@);
}

proof fn lemma_protect_preflight_storage_text_43()
    ensures
        "contains_word(parameters, 'UPDATE')"@ == "contains_word(parameters, '"@ + "UPDATE"@ + "')"@,
{
    reveal_strlit("contains_word(parameters, 'UPDATE')");
    reveal_strlit("contains_word(parameters, '");
    reveal_strlit("')");
    reveal_strlit("UPDATE");
    assert("contains_word(parameters, 'UPDATE')"@ =~= "contains_word(parameters, '"@ + "UPDATE"@ + "')"@);
}

proof fn lemma_protect_preflight_storage_text_44()
    ensures
        "contains_word(parameters, 'DROP')"@ == "contains_word(parameters, '"@ + "DROP"@ + "')"@,
{
    reveal_strlit("contains_word(parameters, 'DROP')");
    reveal_strlit("contains_word(parameters, '");
    reveal_strlit("')");
    reveal_strlit("DROP");
    assert("contains_word(parameters, 'DROP')"@ =~= "contains_word(parameters, '"@ + "DROP"@ + "')"@);
}

proof fn lemma_protect_preflight_storage_text_45()
    ensures
        "contains_word(parameters, 'sqlite3')"@ == "contains_word(parameters, '"@ + "sqlite3"@ + "')"@,
{
    reveal_strlit("contains_word(parameters, 'sqlite3')");
    reveal_strlit("contains_word(parameters, '");
    reveal_strlit("')");
    reveal_strlit("sqlite3");
    assert("contains_word(parameters, 'sqlite3')"@ =~= "contains_word(parameters, '"@ + "sqlite3"@ + "')"@);
}

proof fn lemma_protect_preflight_storage_or_46()
    ensures
        "or(contains_word(parameters, 'DELETE') || contains_word(parameters, 'UPDATE') || contains_word(parameters, 'DROP') || contains_word(parameters, 'sqlite3'))"@ == "or("@ + ("contains_word(parameters, 'DELETE')"@ + " || "@ + ("contains_word(parameters, 'UPDATE')"@ + " || "@ + ("contains_word(parameters, 'DROP')"@ + " || "@ + "contains_word(parameters, 'sqlite3')"@))) + ")"@,
{
    reveal_strlit("or(contains_word(parameters, 'DELETE') || contains_word(parameters, 'UPDATE') || contains_word(parameters, 'DROP') || contains_word(parameters, 'sqlite3'))");
    reveal_strlit("contains_word(parameters, 'DELETE')");
    reveal_strlit("contains_word(parameters, 'UPDATE')");
    reveal_strlit("contains_word(parameters, 'DROP')");
    reveal_strlit("contains_word(parameters, 'sqlite3')");
    reveal_strlit(" || ");
    reveal_strlit("or(");
    reveal_strlit(")");
    assert("or(contains_word(parameters, 'DELETE') || contains_word(parameters, 'UPDATE') || contains_word(parameters, 'DROP') || contains_word(parameters, 'sqlite3'))"@ =~= "or("@ + ("contains_word(parameters, 'DELETE')"@ + " || "@ + ("contains_word(parameters, 'UPDATE')"@ + " || "@ + ("contains_word(parameters, 'DROP')"@ + " || "@ + "contains_word(parameters, 'sqlite3')"@))) + ")"@);
}

proof fn lemma_protect_preflight_storage_depth_47()
    ensures
        depth_of("contains_word(parameters, 'DELETE')"@) == 0,
        !"contains_word(parameters, 'DELETE')"@.contains('|'),
{
    reveal_strlit("contains_word(parameters, 'DELETE')");
    reveal_strlit("contains_word");
    reveal_strlit("parameters, 'DELETE'");
    reveal_strlit("(");
    reveal_strlit(")");
    lemma_depth_call("contains_word"@, "parameters, 'DELETE'"@);
    assert("contains_word(parameters, 'DELETE')"@ =~= "contains_word"@ + "("@ + "parameters, 'DELETE'"@ + ")"@);
}

proof fn lemma_protect_preflight_storage_depth_48()
    ensures
        depth_of("contains_word(parameters, 'UPDATE')"@) == 0,
        !"contains_word(parameters, 'UPDATE')"@.contains('|'),
{
    reveal_strlit("contains_word(parameters, 'UPDATE')");
    reveal_strlit("contains_word");
    reveal_strlit("parameters, 'UPDATE'");
    reveal_strlit("(");
    reveal_strlit(")");
    lemma_depth_call("contains_word"@, "parameters, 'UPDATE'"@);
    assert("contains_word(parameters, 'UPDATE')"@ =~= "contains_word"@ + "("@ + "parameters, 'UPDATE'"@ + ")"@);
}

proof fn lemma_protect_preflight_storage_depth_49()
    ensures
        depth_of("contains_word(parameters, 'DROP')"@) == 0,
        !"contains_word(parameters, 'DROP')"@.contains('|'),
{
    reveal_strlit("contains_word(parameters, 'DROP')");
    reveal_strlit("contains_word");
    reveal_strlit("parameters, 'DROP'");
    reveal_strlit("(");
    reveal_strlit(")");
    lemma_depth_call("contains_word"@, "parameters, 'DROP'"@);
    assert("contains_word(parameters, 'DROP')"@ =~= "contains_word"@ + "("@ + "parameters, 'DROP'"@ + ")"@);
}

proof fn lemma_protect_preflight_storage_bar_50()
    ensures
        !"contains_word(parameters, 'sqlite3')"@.contains('|'),
{
    reveal_strlit("contains_word(parameters, 'sqlite3')");
}

#[verifier::spinoff_prover]
proof fn lemma_protect_preflight_storage_condition_51(params: Seq<char>, facts: FactsView)
    ensures
        eval_condition("or(contains(parameters, 'preflights') || contains(parameters, 'preflight_violations'))"@, params, facts) == match CondStep::Done(Ok(seq_contains(params, "preflights"@))) {
            CondStep::Done(Ok(true)) => CondStep::Done(Ok(true)),
            CondStep::Done(Ok(false)) => CondStep::Done(Ok(seq_contains(params, "preflight_violations"@))),
            other => other,
        },
{
    lemma_protect_preflight_storage_or_39();
    crate::laws::lemma_has_sep("contains(parameters, 'preflights')"@, "contains(parameters, 'preflight_violations')"@);
    lemma_or_entry(("contains(parameters, 'preflights')"@ + " || "@ + "contains(parameters, 'preflight_violations')"@), params, facts);
    lemma_protect_preflight_storage_depth_40();
    lemma_or_step("contains(parameters, 'preflights')"@, "contains(parameters, 'preflight_violations')"@, params, facts);
    lemma_protect_preflight_storage_bar_41();
    lemma_or_last("contains(parameters, 'preflight_violations')"@, params, facts);
    lemma_eval_trimmed("contains(parameters, 'preflights')"@, params, facts);
    lemma_eval_trimmed("contains(parameters, 'preflight_violations')"@, params, facts);
    lemma_protect_preflight_storage_text_37();
    contains_tests_the_parameters("preflights"@, params, facts);
    lemma_protect_preflight_storage_text_38();
    contains_tests_the_parameters("preflight_violations"@, params, facts);
}

#[verifier::spinoff_prover]
proof fn lemma_protect_preflight_storage_condition_52(params: Seq<char>, facts: FactsView)
    ensures
        eval_condition("or(contains_word(parameters, 'DELETE') || contains_word(parameters, 'UPDATE') || contains_word(parameters, 'DROP') || contains_word(parameters, 'sqlite3'))"@, params, facts) == match eval_word("DELETE"@, params) {
            CondStep::Done(Ok(true)) => CondStep::Done(Ok(true)),
            CondStep::Done(Ok(false)) => match eval_word("UPDATE"@, params) {
            CondStep::Done(Ok(true)) => CondStep::Done(Ok(true)),
            CondStep::Done(Ok(false)) => match eval_word("DROP"@, params) {
            CondStep::Done(Ok(true)) => CondStep::Done(Ok(true)),
            CondStep::Done(Ok(false)) => eval_word("sqlite3"@, params),
            other => other,
        },
            other => other,
        },
            other => other,
        },
{
    lemma_protect_preflight_storage_or_46();
    crate::laws::lemma_has_sep("contains_word(parameters, 'DELETE')"@, ("contains_word(parameters, 'UPDATE')"@ + " || "@ + ("contains_word(parameters, 'DROP')"@ + " || "@ + "contains_word(parameters, 'sqlite3')"@)));
    lemma_or_entry(("contains_word(parameters, 'DELETE')"@ + " || "@ + ("contains_word(parameters, 'UPDATE')"@ + " || "@ + ("contains_word(parameters, 'DROP')"@ + " || "@ + "contains_word(parameters, 'sqlite3')"@))), params, facts);
    lemma_protect_preflight_storage_depth_47();
    lemma_or_step("contains_word(parameters, 'DELETE')"@, ("contains_word(parameters, 'UPDATE')"@ + " || "@ + ("contains_word(parameters, 'DROP')"@ + " || "@ + "contains_word(parameters, 'sqlite3')"@)), params, facts);
    lemma_protect_preflight_storage_depth_48();
    lemma_or_step("contains_word(parameters, 'UPDATE')"@, ("contains_word(parameters, 'DROP')"@ + " || "@ + "contains_word(parameters, 'sqlite3')"@), params, facts);
    lemma_protect_preflight_storage_depth_49();
    lemma_or_step("contains_word(parameters, 'DROP')"@, "contains_word(parameters, 'sqlite3')"@, params, facts);
    lemma_protect_preflight_storage_bar_50();
    lemma_or_last("contains_word(parameters, 'sqlite3')"@, params, facts);
    lemma_eval_trimmed("contains_word(parameters, 'DELETE')"@, params, facts);
    lemma_eval_trimmed("contains_word(parameters, 'UPDATE')"@, params, facts);
    lemma_eval_trimmed("contains_word(parameters, 'DROP')"@, params, facts);
    lemma_eval_trimmed("contains_word(parameters, 'sqlite3')"@, params, facts);
    lemma_protect_preflight_storage_text_42();
    contains_word_tests_the_word("DELETE"@, params, facts);
    lemma_protect_preflight_storage_text_43();
    contains_word_tests_the_word("UPDATE"@, params, facts);
    lemma_protect_preflight_storage_text_44();
    contains_word_tests_the_word("DROP"@, params, facts);
    lemma_protect_preflight_storage_text_45();
    contains_word_tests_the_word("sqlite3"@, params, facts);
}

} // verus!
