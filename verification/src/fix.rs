//! Automatic repair of a policy: out-of-range windows and timeouts are
//! clamped, unlocked rules with other auto-fixable errors are removed, and
//! locked rules are left alone.

use vstd::prelude::*;
use crate::model::{
    GateConfig, EnsureConfig, PolicyConfig, PolicyRule, RuleView, GateView, EnsureView, DiagnosticSeverity, PolicyFix,
    rules_view, strings_view,
};
use crate::text::{starts_with, decimal, decimal_string, join, join_strings, to_chars};
use crate::validate::{
    rule_diags, probes_view, diags_view, DiagView, ScriptProbe, ProbeView, clamp,
};
use crate::condition::concat;

verus! {

/// The state of a repair: the rules, the clamping messages so far, the
/// labels of the rules marked for removal (in the order they were first
/// marked, each once), and their positions.
pub struct FixState {
    pub rules: Seq<RuleView>,
    pub modified: Seq<Seq<char>>,
    pub removed: Seq<Seq<char>>,
    pub dropped: Set<int>,
}

/// The rule with its Gate window set to `within`.
pub open spec fn with_gate_within(r: RuleView, within: u32) -> RuleView {
    RuleView {
        gate: match r.gate {
            Some(g) => Some(GateView { requires_prior: g.requires_prior, within }),
            None => None,
        },
        ..r
    }
}

/// The rule with its Ensure timeout set to `timeout`.
pub open spec fn with_ensure_timeout(r: RuleView, timeout: u32) -> RuleView {
    RuleView {
        ensure: match r.ensure {
            Some(e) => Some(EnsureView { check: e.check, timeout, message: e.message }),
            None => None,
        },
        ..r
    }
}

/// What one diagnostic of the rule at position `k` does to the repair. Only
/// auto-fixable errors count, and a locked rule is left alone. A window or
/// timeout error (its text starts with `gate.within must be` or
/// `ensure.timeout must be`) is clamped in place; any other marks the rule
/// for removal, reported under the diagnostic's rule label (its name, or
/// `rule[i]` when it has none), each label once.
pub open spec fn fix_step(st: FixState, k: int, d: DiagView) -> FixState {
    if d.severity != DiagnosticSeverity::Error || !d.auto_fixable || k < 0 || k >= st.rules.len() {
        st
    } else {
        let r = st.rules[k];
        if r.locked {
            st
        } else if starts_with(d.error, "gate.within must be"@) && r.gate is Some {
            let g = r.gate->0;
            let c = clamp(g.within, 1, 500);
            FixState {
                rules: st.rules.update(k, with_gate_within(r, c)),
                modified: st.modified.push(
                    r.name + ": clamped gate.within "@ + decimal(g.within as nat) + " -> "@ + decimal(c as nat),
                ),
                ..st
            }
        } else if starts_with(d.error, "ensure.timeout must be"@) && r.ensure is Some {
            let e = r.ensure->0;
            let c = clamp(e.timeout, 1, 30);
            FixState {
                rules: st.rules.update(k, with_ensure_timeout(r, c)),
                modified: st.modified.push(
                    r.name + ": clamped ensure.timeout "@ + decimal(e.timeout as nat) + " -> "@ + decimal(
                        c as nat,
                    ),
                ),
                ..st
            }
        } else if st.dropped.contains(k) {
            st
        } else {
            FixState {
                removed: if st.removed.contains(d.rule_name) {
                    st.removed
                } else {
                    st.removed.push(d.rule_name)
                },
                dropped: st.dropped.insert(k),
                ..st
            }
        }
    }
}

/// The diagnostics of the rule at position `k`, applied in order.
pub open spec fn fix_fold(k: int, diags: Seq<DiagView>, st: FixState) -> FixState
    decreases diags.len(),
{
    if diags.len() == 0 {
        st
    } else {
        fix_step(fix_fold(k, diags.drop_last(), st), k, diags.last())
    }
}

/// The start of a repair of `rules`.
pub open spec fn fix_start(rules: Seq<RuleView>) -> FixState {
    FixState { rules, modified: Seq::empty(), removed: Seq::empty(), dropped: Set::empty() }
}

/// The repair after the diagnostics of the first `n` rules, rule by rule.
pub open spec fn fix_rules(rules: Seq<RuleView>, probes: Seq<ProbeView>, n: int) -> FixState
    decreases n,
{
    if n <= 0 || n > rules.len() {
        fix_start(rules)
    } else {
        fix_fold(n - 1, rule_diags(n - 1, rules[n - 1], probes), fix_rules(rules, probes, n - 1))
    }
}

/// The repair of `rules` given the probes of their scripts.
pub open spec fn fix_outcome(rules: Seq<RuleView>, probes: Seq<ProbeView>) -> FixState {
    fix_rules(rules, probes, rules.len() as int)
}

/// The first `n` of `rules`, without those at positions in `dropped`.
pub open spec fn kept(rules: Seq<RuleView>, dropped: Set<int>, n: int) -> Seq<RuleView>
    decreases n,
{
    if n <= 0 || n > rules.len() {
        Seq::empty()
    } else if dropped.contains(n - 1) {
        kept(rules, dropped, n - 1)
    } else {
        kept(rules, dropped, n - 1).push(rules[n - 1])
    }
}

/// The rules that remain after a repair: those not marked for removal, in
/// order.
pub open spec fn remaining_rules(st: FixState) -> Seq<RuleView> {
    kept(st.rules, st.dropped, st.rules.len() as int)
}

/// The summary of a repair.
pub open spec fn fix_description(removed: Seq<Seq<char>>, modified: Seq<Seq<char>>) -> Seq<char> {
    let parts = (if removed.len() > 0 {
        seq!["Removed "@ + decimal(removed.len()) + " broken rule(s): "@ + join(removed, ", "@)]
    } else {
        Seq::empty()
    }) + (if modified.len() > 0 {
        seq!["Fixed "@ + decimal(modified.len()) + " rule(s): "@ + join(modified, "; "@)]
    } else {
        Seq::empty()
    });
    if parts.len() == 0 {
        "No auto-fixable issues found."@
    } else {
        join(parts, ". "@)
    }
}


/// Whether `name` is among `names`.
fn has_name(names: &Vec<String>, name: &String) -> (b: bool)
    ensures
        b == strings_view(names@).contains(name@),
{
    let mut i: usize = 0;
    while i < names.len()
        invariant
            i <= names.len(),
            forall|j: int| 0 <= j < i ==> strings_view(names@)[j] != name@,
        decreases names.len() - i,
    {
        assert(strings_view(names@)[i as int] == names@[i as int]@);
        if names[i] == *name {
            return true;
        }
        i += 1;
    }
    false
}

fn text_starts_with(s: &String, prefix: &str) -> (b: bool)
    ensures
        b == starts_with(s@, prefix@),
{
    let sv = to_chars(s.as_str());
    let pv = to_chars(prefix);
    assert(pv@.subrange(0, pv.len() as int) =~= pv@);
    let b = crate::text::matches_at(&sv, 0, sv.len(), &pv, 0, pv.len());
    proof {
        if starts_with(s@, prefix@) {
            assert(sv@.subrange(0, pv.len() as int) == pv@);
        }
    }
    b
}

fn clamp_exec(x: u32, lo: u32, hi: u32) -> (r: u32)
    ensures
        r == clamp(x, lo, hi),
{
    if x < lo {
        lo
    } else if x > hi {
        hi
    } else {
        x
    }
}

fn clamp_message(name: &String, what: &str, from: u32, to: u32) -> (m: String)
    ensures
        m@ == name@ + what@ + decimal(from as nat) + " -> "@ + decimal(to as nat),
{
    let a = concat(name.as_str(), what);
    let b = concat(a.as_str(), decimal_string(from as u64).as_str());
    let c = concat(b.as_str(), " -> ");
    concat(c.as_str(), decimal_string(to as u64).as_str())
}

/// A repair state as the executable repair holds it: its rules, messages,
/// removed names, and a flag per position for the rules marked for removal.
spec fn held(st: FixState, rules: Seq<RuleView>, modified: Seq<Seq<char>>, removed: Seq<Seq<char>>, flags: Seq<bool>) -> bool {
    &&& st.rules == rules
    &&& st.modified == modified
    &&& st.removed == removed
    &&& forall|x: int| #[trigger] st.dropped.contains(x) <==> (0 <= x < flags.len() && flags[x])
}

/// Repairs a policy in place, rule by rule (see `fix_step`): clamps
/// `gate.within` to 1..=500 and `ensure.timeout` to 1..=30, removes unlocked
/// rules with other auto-fixable errors, and never touches a locked rule.
pub fn fix_policy(config: &mut PolicyConfig, probes: &Vec<ScriptProbe>) -> (f: PolicyFix)
    ensures
        final(config).version == old(config).version,
        final(config).default_action == old(config).default_action,
        rules_view(final(config).rules@) == remaining_rules(
            fix_outcome(rules_view(old(config).rules@), probes_view(probes@)),
        ),
        strings_view(f.rules_removed@) == fix_outcome(rules_view(old(config).rules@), probes_view(probes@)).removed,
        strings_view(f.rules_modified@) == fix_outcome(rules_view(old(config).rules@), probes_view(probes@)).modified,
        f.description@ == fix_description(
            fix_outcome(rules_view(old(config).rules@), probes_view(probes@)).removed,
            fix_outcome(rules_view(old(config).rules@), probes_view(probes@)).modified,
        ),
{
    let ghost rv0 = rules_view(config.rules@);
    let ghost pv = probes_view(probes@);
    let n = config.rules.len();
    let mut modified: Vec<String> = Vec::new();
    let mut removed: Vec<String> = Vec::new();
    let mut flags: Vec<bool> = Vec::new();
    let mut i: usize = 0;
    while i < n
        invariant
            i <= n,
            flags.len() == i,
            forall|j: int| 0 <= j < i ==> !#[trigger] flags@[j],
        decreases n - i,
    {
        flags.push(false);
        i += 1;
    }
    assert(strings_view(modified@) =~= Seq::<Seq<char>>::empty());
    assert(strings_view(removed@) =~= Seq::<Seq<char>>::empty());
    assert(held(fix_rules(rv0, pv, 0), rules_view(config.rules@), strings_view(modified@), strings_view(removed@), flags@));
    let mut i: usize = 0;
    while i < n
        invariant
            i <= n == config.rules.len() == flags.len(),
            config.version == old(config).version,
            config.default_action == old(config).default_action,
            rv0 == rules_view(old(config).rules@),
            rv0.len() == n,
            pv == probes_view(probes@),
            held(fix_rules(rv0, pv, i as int), rules_view(config.rules@), strings_view(modified@), strings_view(removed@), flags@),
            forall|j: int| i <= j < n ==> #[trigger] config.rules@[j]@ == rv0[j],
            forall|j: int| i <= j < n ==> !#[trigger] flags@[j],
        decreases n - i,
    {
        let ds = crate::validate::rule_diagnostics(i, &config.rules[i], probes);
        let ghost dsv = diags_view(ds@);
        let ghost st0 = fix_rules(rv0, pv, i as int);
        assert(config.rules@[i as int]@ == rv0[i as int]);
        assert(dsv.take(0) =~= Seq::<DiagView>::empty());
        let mut j: usize = 0;
        while j < ds.len()
            invariant
                i < n == config.rules.len() == flags.len(),
                j <= ds.len(),
                dsv == diags_view(ds@),
                config.version == old(config).version,
                config.default_action == old(config).default_action,
                held(fix_fold(i as int, dsv.take(j as int), st0), rules_view(config.rules@), strings_view(modified@), strings_view(removed@), flags@),
                forall|m: int| i < m < n ==> #[trigger] config.rules@[m]@ == rv0[m],
                forall|m: int| i < m < n ==> !#[trigger] flags@[m],
            decreases ds.len() - j,
        {
            let ghost st = fix_fold(i as int, dsv.take(j as int), st0);
            assert(dsv.take(j + 1).drop_last() =~= dsv.take(j as int));
            assert(dsv.take(j + 1).last() == ds@[j as int]@);
            assert(st.rules[i as int] == config.rules@[i as int]@);
            let d = &ds[j];
            if d.severity == DiagnosticSeverity::Error && d.auto_fixable && !config.rules[i].locked {
                let gate_msg = text_starts_with(&d.error, "gate.within must be");
                let timeout_msg = text_starts_with(&d.error, "ensure.timeout must be");
                if gate_msg && config.rules[i].gate.is_some() {
                    let mut r = config.rules[i].clone();
                    let (prior, within) = match &r.gate {
                        Some(g) => (g.requires_prior.clone(), g.within),
                        None => (String::new(), 0),
                    };
                    let c = clamp_exec(within, 1, 500);
                    let msg = clamp_message(&r.name, ": clamped gate.within ", within, c);
                    r.gate = Some(GateConfig { requires_prior: prior, within: c });
                    config.rules.set(i, r);
                    assert(rules_view(config.rules@) =~= st.rules.update(i as int, with_gate_within(st.rules[i as int], c)));
                    let ghost pm = modified@;
                    modified.push(msg);
                    assert(strings_view(modified@) =~= strings_view(pm).push(msg@));
                } else if timeout_msg && config.rules[i].ensure.is_some() {
                    let mut r = config.rules[i].clone();
                    let (check, timeout, message) = match &r.ensure {
                        Some(e) => (e.check.clone(), e.timeout, e.message.clone()),
                        None => (String::new(), 0, String::new()),
                    };
                    let c = clamp_exec(timeout, 1, 30);
                    let msg = clamp_message(&r.name, ": clamped ensure.timeout ", timeout, c);
                    r.ensure = Some(EnsureConfig { check, timeout: c, message });
                    config.rules.set(i, r);
                    assert(rules_view(config.rules@) =~= st.rules.update(i as int, with_ensure_timeout(st.rules[i as int], c)));
                    let ghost pm = modified@;
                    modified.push(msg);
                    assert(strings_view(modified@) =~= strings_view(pm).push(msg@));
                } else if !flags[i] {
                    if !has_name(&removed, &d.rule_name) {
                        let name = d.rule_name.clone();
                        let ghost pr = removed@;
                        removed.push(name);
                        assert(strings_view(removed@) =~= strings_view(pr).push(name@));
                    }
                    flags.set(i, true);
                }
            }
            j += 1;
        }
        assert(dsv.take(ds.len() as int) =~= dsv);
        assert(dsv == rule_diags(i as int, rv0[i as int], pv));
        assert(fix_rules(rv0, pv, i + 1) == fix_fold(i as int, dsv, st0));
        i += 1;
    }
    let ghost fin = fix_outcome(rv0, pv);
    assert(fin == fix_rules(rv0, pv, n as int));
    let mut kept_rules: Vec<PolicyRule> = Vec::new();
    let mut j: usize = 0;
    assert(rules_view(kept_rules@) =~= Seq::<RuleView>::empty());
    while j < n
        invariant
            j <= n == config.rules.len() == flags.len(),
            fin.rules == rules_view(config.rules@),
            forall|x: int| #[trigger] fin.dropped.contains(x) <==> (0 <= x < flags.len() && flags@[x]),
            rules_view(kept_rules@) == kept(fin.rules, fin.dropped, j as int),
        decreases n - j,
    {
        assert(fin.dropped.contains(j as int) == flags@[j as int]);
        if !flags[j] {
            let r = config.rules[j].clone();
            let ghost pk = kept_rules@;
            kept_rules.push(r);
            assert(rules_view(kept_rules@) =~= rules_view(pk).push(r@));
        }
        j += 1;
    }
    config.rules = kept_rules;
    let to_remove = removed;
    let mut parts: Vec<String> = Vec::new();
    if to_remove.len() > 0 {
        let a = concat("Removed ", decimal_string(to_remove.len() as u64).as_str());
        let b = concat(a.as_str(), " broken rule(s): ");
        parts.push(concat(b.as_str(), join_strings(&to_remove, ", ").as_str()));
    }
    if modified.len() > 0 {
        let a = concat("Fixed ", decimal_string(modified.len() as u64).as_str());
        let b = concat(a.as_str(), " rule(s): ");
        parts.push(concat(b.as_str(), join_strings(&modified, "; ").as_str()));
    }
    let description = if parts.len() == 0 {
        "No auto-fixable issues found.".to_owned()
    } else {
        join_strings(&parts, ". ")
    };
    proof {
        let rm = strings_view(to_remove@);
        let md = strings_view(modified@);
        let expected = (if rm.len() > 0 {
            seq!["Removed "@ + decimal(rm.len()) + " broken rule(s): "@ + join(rm, ", "@)]
        } else {
            Seq::empty()
        }) + (if md.len() > 0 {
            seq!["Fixed "@ + decimal(md.len()) + " rule(s): "@ + join(md, "; "@)]
        } else {
            Seq::empty()
        });
        assert(parts@.map_values(|s: String| s@) =~= expected);
    }
    PolicyFix { description, rules_removed: to_remove, rules_modified: modified }
}

} // verus!
