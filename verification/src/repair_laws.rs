//! What repair keeps and what a second repair does: locked rules come
//! through unchanged and in order, only broken unlocked rules are removed,
//! and repairing the result again changes nothing.

use vstd::prelude::*;
use crate::model::{Decision, DiagnosticSeverity, RuleView};
use crate::fix::{
    FixState, fix_step, fix_fold, fix_rules, fix_start, fix_outcome, remaining_rules, kept,
    with_gate_within, with_ensure_timeout,
};
use crate::validate::{
    DiagView, ProbeView, rule_diags, regex_diags, conditions_diags, condition_diags, gate_diags,
    ensure_diags, script_diags, rule_label, check_name_error, clamp,
};
use crate::engine::pattern_compiles;
use crate::text::{seq_contains, starts_with, decimal};
use crate::defaults::locked_rules;

verus! {

proof fn lemma_fold_concat(k: int, a: Seq<DiagView>, b: Seq<DiagView>, st: FixState)
    ensures
        fix_fold(k, a + b, st) == fix_fold(k, b, fix_fold(k, a, st)),
    decreases b.len(),
{
    if b.len() == 0 {
        assert(a + b =~= a);
    } else {
        assert((a + b).drop_last() =~= a + b.drop_last());
        assert((a + b).last() == b.last());
        lemma_fold_concat(k, a, b.drop_last(), st);
    }
}

/// A diagnostic that repair ignores.
spec fn inert(d: DiagView) -> bool {
    d.severity != DiagnosticSeverity::Error || !d.auto_fixable
}

proof fn lemma_fold_inert(k: int, ds: Seq<DiagView>, st: FixState)
    requires
        forall|m: int| 0 <= m < ds.len() ==> inert(#[trigger] ds[m]),
    ensures
        fix_fold(k, ds, st) == st,
    decreases ds.len(),
{
    if ds.len() > 0 {
        assert(inert(ds[ds.len() - 1]));
        lemma_fold_inert(k, ds.drop_last(), st);
    }
}

proof fn lemma_fold_fixed(k: int, ds: Seq<DiagView>, st: FixState)
    requires
        forall|m: int| 0 <= m < ds.len() ==> fix_step(st, k, #[trigger] ds[m]) == st,
    ensures
        fix_fold(k, ds, st) == st,
    decreases ds.len(),
{
    if ds.len() > 0 {
        assert(fix_step(st, k, ds[ds.len() - 1]) == st);
        lemma_fold_fixed(k, ds.drop_last(), st);
    }
}

proof fn lemma_single_step(k: int, d: DiagView, st: FixState)
    ensures
        fix_fold(k, seq![d], st) == fix_step(st, k, d),
{
    assert(seq![d].drop_last() =~= Seq::<DiagView>::empty());
    assert(fix_fold(k, Seq::<DiagView>::empty(), st) == st);
    assert(seq![d].last() == d);
}

proof fn lemma_conditions_inert(label: Seq<char>, conds: Seq<Seq<char>>)
    ensures
        forall|k: int| 0 <= k < conditions_diags(label, conds).len() ==> inert(
            #[trigger] conditions_diags(label, conds)[k],
        ) && conditions_diags(label, conds)[k].rule_name == label,
    decreases conds.len(),
{
    if conds.len() > 0 {
        lemma_conditions_inert(label, conds.drop_last());
        let a = conditions_diags(label, conds.drop_last());
        let b = condition_diags(label, conds.last());
        assert forall|k: int| 0 <= k < (a + b).len() implies inert(#[trigger] (a + b)[k]) && (a
            + b)[k].rule_name == label by {
            if k < a.len() {
                assert((a + b)[k] == a[k]);
            } else {
                assert((a + b)[k] == b[k - a.len()]);
            }
        }
    }
}

proof fn lemma_script_inert(label: Seq<char>, e: crate::model::EnsureView, probes: Seq<ProbeView>)
    ensures
        forall|k: int| 0 <= k < script_diags(label, e, probes).len() ==> inert(
            #[trigger] script_diags(label, e, probes)[k],
        ) && script_diags(label, e, probes)[k].rule_name == label,
{
}

/// An auto-fixable error that repair answers by removing the rule: a tool
/// pattern that does not compile, a Gate without configuration or
/// prerequisite, an Ensure without configuration or with an unsafe check
/// name.
pub open spec fn broken(r: RuleView) -> bool {
    ||| !pattern_compiles(r.tool_pattern)
    ||| r.action == Decision::Gate && (r.gate is None || r.gate->0.requires_prior.len() == 0)
    ||| r.action == Decision::Ensure && (r.ensure is None || check_name_error(r.ensure->0.check) is Some)
}

/// A Gate window or an Ensure timeout out of range.
pub open spec fn out_of_range(r: RuleView) -> bool {
    ||| r.action == Decision::Gate && r.gate is Some && (r.gate->0.within < 1 || r.gate->0.within > 500)
    ||| r.action == Decision::Ensure && r.ensure is Some && (r.ensure->0.timeout < 1 || r.ensure->0.timeout
        > 30)
}

/// The rule as repair leaves it when nothing is broken: window and timeout
/// clamped into range.
pub open spec fn repaired(r: RuleView) -> RuleView {
    if r.action == Decision::Gate && r.gate is Some {
        with_gate_within(r, clamp(r.gate->0.within, 1, 500))
    } else if r.action == Decision::Ensure && r.ensure is Some {
        with_ensure_timeout(r, clamp(r.ensure->0.timeout, 1, 30))
    } else {
        r
    }
}


/// The rules of a repair state line up with `rules`: same length, and each
/// rule keeps its name and lock flag.
spec fn aligned(rules: Seq<RuleView>, st: FixState) -> bool {
    &&& st.rules.len() == rules.len()
    &&& forall|m: int|
        0 <= m < rules.len() ==> (#[trigger] st.rules[m]).name == rules[m].name && st.rules[m].locked
            == rules[m].locked
}

/// `name` is the label of an unlocked rule marked for removal.
spec fn removed_from(rules: Seq<RuleView>, dropped: Set<int>, name: Seq<char>) -> bool {
    exists|m: int|
        0 <= m < rules.len() && dropped.contains(m) && !rules[m].locked && #[trigger] rule_label(m, rules[m]) == name
}

/// Each label reported as removed is that of an unlocked rule marked for
/// removal, none is reported twice, and every rule marked for removal is
/// reported.
spec fn removed_ok(rules: Seq<RuleView>, st: FixState) -> bool {
    &&& forall|t: int| 0 <= t < st.removed.len() ==> removed_from(rules, st.dropped, #[trigger] st.removed[t])
    &&& st.removed.no_duplicates()
    &&& forall|m: int|
        #[trigger] st.dropped.contains(m) ==> 0 <= m < rules.len() && st.removed.contains(rule_label(m, rules[m]))
}

/// `st2` differs from `st` at most at position `k`, and the marks only grew,
/// by `k` at most.
spec fn framed(k: int, st: FixState, st2: FixState) -> bool {
    &&& st2.rules.len() == st.rules.len()
    &&& forall|m: int| 0 <= m < st.rules.len() && m != k ==> #[trigger] st2.rules[m] == st.rules[m]
    &&& forall|x: int| st.dropped.contains(x) ==> #[trigger] st2.dropped.contains(x)
    &&& forall|x: int| #[trigger] st2.dropped.contains(x) ==> st.dropped.contains(x) || x == k
}

proof fn lemma_step_framed(rules: Seq<RuleView>, k: int, st: FixState, d: DiagView)
    requires
        aligned(rules, st),
        removed_ok(rules, st),
        0 <= k < rules.len(),
        d.rule_name == rule_label(k, rules[k]),
    ensures
        framed(k, st, fix_step(st, k, d)),
        aligned(rules, fix_step(st, k, d)),
        removed_ok(rules, fix_step(st, k, d)),
        rules[k].locked ==> fix_step(st, k, d) == st,
{
    let st2 = fix_step(st, k, d);
    assert(st.rules[k].name == rules[k].name && st.rules[k].locked == rules[k].locked);
    let pushed = st2.removed != st.removed;
    if pushed {
        assert(st2.removed == st.removed.push(d.rule_name));
        assert(!st.removed.contains(d.rule_name));
        assert(st2.dropped == st.dropped.insert(k));
        assert forall|a: int, b: int| 0 <= a < st2.removed.len() && 0 <= b < st2.removed.len() && a != b implies st2.removed[a]
            != st2.removed[b] by {
            if a < st.removed.len() && b < st.removed.len() {
                assert(st2.removed[a] == st.removed[a] && st2.removed[b] == st.removed[b]);
            } else if a < st.removed.len() {
                assert(st2.removed[a] == st.removed[a]);
            } else {
                assert(st2.removed[b] == st.removed[b]);
            }
        }
    }
    assert forall|m: int| #[trigger] st2.dropped.contains(m) implies 0 <= m < rules.len() && st2.removed.contains(
        rule_label(m, rules[m]),
    ) by {
        if st.dropped.contains(m) {
            let w = choose|w: int| 0 <= w < st.removed.len() && st.removed[w] == rule_label(m, rules[m]);
            assert(st2.removed[w] == st.removed[w]);
        } else {
            assert(m == k);
            if st.removed.contains(d.rule_name) {
                assert(st2.removed == st.removed);
            } else {
                assert(st2.removed[st.removed.len() as int] == d.rule_name);
            }
        }
    }
    assert forall|t: int| 0 <= t < st2.removed.len() implies removed_from(rules, st2.dropped, #[trigger] st2.removed[t]) by {
        if t < st.removed.len() {
            assert(st2.removed[t] == st.removed[t]);
            assert(removed_from(rules, st.dropped, st.removed[t]));
            let m = choose|m: int|
                0 <= m < rules.len() && st.dropped.contains(m) && !rules[m].locked && #[trigger] rule_label(m, rules[m])
                    == st.removed[t];
            assert(st2.dropped.contains(m));
        } else {
            assert(pushed);
            assert(st2.removed[t] == rule_label(k, rules[k]));
            assert(st2.dropped.contains(k));
        }
    }
}

proof fn lemma_fold_framed(rules: Seq<RuleView>, k: int, ds: Seq<DiagView>, st: FixState)
    requires
        aligned(rules, st),
        removed_ok(rules, st),
        0 <= k < rules.len(),
        forall|m: int| 0 <= m < ds.len() ==> (#[trigger] ds[m]).rule_name == rule_label(k, rules[k]),
    ensures
        framed(k, st, fix_fold(k, ds, st)),
        aligned(rules, fix_fold(k, ds, st)),
        removed_ok(rules, fix_fold(k, ds, st)),
        rules[k].locked ==> fix_fold(k, ds, st) == st,
    decreases ds.len(),
{
    if ds.len() > 0 {
        let pre = ds.drop_last();
        assert forall|m: int| 0 <= m < pre.len() implies (#[trigger] pre[m]).rule_name == rule_label(k, rules[k]) by {
            assert(pre[m] == ds[m]);
        }
        assert(ds[ds.len() - 1].rule_name == rule_label(k, rules[k]));
        lemma_fold_framed(rules, k, pre, st);
        lemma_step_framed(rules, k, fix_fold(k, pre, st), ds.last());
    }
}

proof fn lemma_rule_diags_shape(i: int, r: RuleView, probes: Seq<ProbeView>)
    ensures
        forall|k: int|
            0 <= k < rule_diags(i, r, probes).len() ==> (#[trigger] rule_diags(i, r, probes)[k]).rule_name
                == rule_label(i, r) && (!inert(rule_diags(i, r, probes)[k]) ==> broken(r) || out_of_range(r)),
{
    let label = rule_label(i, r);
    let a = regex_diags(label, r);
    let b = conditions_diags(label, r.conditions);
    let c = gate_diags(label, r);
    let e = ensure_diags(label, r, probes);
    lemma_conditions_inert(label, r.conditions);
    let ds = rule_diags(i, r, probes);
    assert(ds == a + b + c + e);
    if r.action == Decision::Ensure && r.ensure is Some {
        lemma_script_inert(label, r.ensure->0, probes);
    }
    assert forall|k: int| 0 <= k < ds.len() implies (#[trigger] ds[k]).rule_name == label && (!inert(ds[k])
        ==> broken(r) || out_of_range(r)) by {
        if k < a.len() {
            assert(ds[k] == a[k]);
        } else if k < a.len() + b.len() {
            assert(ds[k] == b[k - a.len()]);
        } else if k < a.len() + b.len() + c.len() {
            assert(ds[k] == c[k - a.len() - b.len()]);
        } else {
            let kk = k - a.len() - b.len() - c.len();
            assert(ds[k] == e[kk]);
            if r.action == Decision::Ensure && r.ensure is Some {
                let en = r.ensure->0;
                let x = match check_name_error(en.check) {
                    Some(err) => seq![crate::validate::diag(label, DiagnosticSeverity::Error, err,
                        "Check name must be a simple filename (no paths, no special chars)."@, true)],
                    None => Seq::empty(),
                };
                let y = if en.timeout < 1 || en.timeout > 30 {
                    seq![crate::validate::diag(label, DiagnosticSeverity::Error, "ensure.timeout must be 1-30, got "@ + crate::text::decimal(en.timeout as nat),
                        "Set ensure.timeout between 1 and 30 seconds. Will clamp to "@ + crate::text::decimal(clamp(en.timeout, 1, 30) as nat) + " on auto-fix."@, true)]
                } else {
                    Seq::empty()
                };
                let z = script_diags(label, en, probes);
                assert(e == x + y + z);
                if kk < x.len() {
                    assert(e[kk] == x[kk]);
                } else if kk < x.len() + y.len() {
                    assert(e[kk] == y[kk - x.len()]);
                } else {
                    assert(e[kk] == z[kk - x.len() - y.len()]);
                }
            }
        }
    }
}



proof fn lemma_no_gate_prefix(d: DiagView, ig: int)
    requires
        0 <= ig < 19,
        ig < d.error.len() ==> d.error[ig] != "gate.within must be"@[ig],
    ensures
        !starts_with(d.error, "gate.within must be"@),
{
    reveal_strlit("gate.within must be");
    if starts_with(d.error, "gate.within must be"@) {
        assert(d.error.subrange(0, 19)[ig] == d.error[ig]);
    }
}

proof fn lemma_no_prefix(d: DiagView, ig: int, ie: int)
    requires
        0 <= ig < 19,
        0 <= ie < 22,
        ig < d.error.len() ==> d.error[ig] != "gate.within must be"@[ig],
        ie < d.error.len() ==> d.error[ie] != "ensure.timeout must be"@[ie],
    ensures
        !starts_with(d.error, "gate.within must be"@),
        !starts_with(d.error, "ensure.timeout must be"@),
{
    lemma_no_gate_prefix(d, ig);
    reveal_strlit("ensure.timeout must be");
    if starts_with(d.error, "ensure.timeout must be"@) {
        assert(d.error.subrange(0, 22)[ie] == d.error[ie]);
    }
}

proof fn lemma_check_error_text(name: Seq<char>)
    ensures
        check_name_error(name) matches Some(err) ==> err.len() > 7 && err[0] == 'e' && err[7] == 'c',
{
    reveal_strlit("ensure.check cannot be empty");
    reveal_strlit("ensure.check must not contain path separators: '");
    reveal_strlit("ensure.check must not contain '..': '");
    reveal_strlit("ensure.check must not contain null bytes");
    reveal_strlit("ensure.check must not contain control characters");
    reveal_strlit("'");
}

proof fn lemma_pushes_at(rules: Seq<RuleView>, n: int, ds: Seq<DiagView>, st: FixState, k: int)
    requires
        aligned(rules, st),
        removed_ok(rules, st),
        0 <= n < rules.len(),
        !rules[n].locked,
        0 <= k < ds.len(),
        ds[k].severity == DiagnosticSeverity::Error,
        ds[k].auto_fixable,
        !starts_with(ds[k].error, "gate.within must be"@),
        !starts_with(ds[k].error, "ensure.timeout must be"@),
        forall|m: int| 0 <= m < ds.len() ==> (#[trigger] ds[m]).rule_name == rule_label(n, rules[n]),
    ensures
        fix_fold(n, ds, st).dropped.contains(n),
{
    let pre = ds.take(k);
    let post = ds.skip(k + 1);
    assert(ds =~= pre + seq![ds[k]] + post);
    assert forall|m: int| 0 <= m < pre.len() implies (#[trigger] pre[m]).rule_name == rule_label(n, rules[n]) by {
        assert(pre[m] == ds[m]);
    }
    assert forall|m: int| 0 <= m < post.len() implies (#[trigger] post[m]).rule_name == rule_label(n, rules[n]) by {
        assert(post[m] == ds[k + 1 + m]);
    }
    lemma_fold_concat(n, pre + seq![ds[k]], post, st);
    lemma_fold_concat(n, pre, seq![ds[k]], st);
    lemma_fold_framed(rules, n, pre, st);
    let s1 = fix_fold(n, pre, st);
    lemma_single_step(n, ds[k], s1);
    let s2 = fix_step(s1, n, ds[k]);
    assert(s1.rules[n].locked == rules[n].locked);
    assert(s2.dropped.contains(n));
    lemma_step_framed(rules, n, s1, ds[k]);
    lemma_fold_framed(rules, n, post, s2);
}

proof fn lemma_broken_removed(rules: Seq<RuleView>, probes: Seq<ProbeView>, n: int, st: FixState)
    requires
        aligned(rules, st),
        removed_ok(rules, st),
        0 <= n < rules.len(),
        !rules[n].locked,
        broken(rules[n]),
    ensures
        fix_fold(n, rule_diags(n, rules[n], probes), st).dropped.contains(n),
{
    let r = rules[n];
    let label = rule_label(n, r);
    let ds = rule_diags(n, r, probes);
    lemma_rule_diags_shape(n, r, probes);
    let a = regex_diags(label, r);
    let b = conditions_diags(label, r.conditions);
    let c = gate_diags(label, r);
    let e = ensure_diags(label, r, probes);
    assert(ds == a + b + c + e);
    reveal_strlit("gate.within must be");
    reveal_strlit("ensure.timeout must be");
    let k: int = if !pattern_compiles(r.tool_pattern) {
        0
    } else {
        b.len() as int
    };
    if !pattern_compiles(r.tool_pattern) {
        reveal_strlit("Invalid regex '");
        assert(ds[0] == a[0]);
        lemma_no_prefix(ds[0], 0, 0);
    } else if r.action == Decision::Gate {
        assert(a.len() == 0);
        assert(ds[k] == c[0]);
        if r.gate is None {
            reveal_strlit("Action GATE requires 'gate' config");
            lemma_no_prefix(ds[k], 0, 0);
        } else {
            reveal_strlit("gate.requires_prior cannot be empty");
            lemma_no_prefix(ds[k], 5, 0);
        }
    } else {
        assert(r.action == Decision::Ensure);
        assert(a.len() == 0);
        assert(c.len() == 0);
        assert(ds[k] == e[0]);
        if r.ensure is None {
            reveal_strlit("Action ENSURE requires 'ensure' config");
            lemma_no_prefix(ds[k], 0, 0);
        } else {
            lemma_check_error_text(r.ensure->0.check);
            lemma_no_prefix(ds[k], 0, 7);
        }
    }
    lemma_pushes_at(rules, n, ds, st, k);
}

proof fn lemma_sound_repaired(rules: Seq<RuleView>, probes: Seq<ProbeView>, n: int, st: FixState)
    requires
        0 <= n < st.rules.len(),
        st.rules[n] == rules[n],
        !rules[n].locked,
        !broken(rules[n]),
    ensures
        fix_fold(n, rule_diags(n, rules[n], probes), st).rules == st.rules.update(n, repaired(rules[n])),
        fix_fold(n, rule_diags(n, rules[n], probes), st).dropped == st.dropped,
        fix_fold(n, rule_diags(n, rules[n], probes), st).removed == st.removed,
{
    let r = rules[n];
    let label = rule_label(n, r);
    let ds = rule_diags(n, r, probes);
    let a = regex_diags(label, r);
    let b = conditions_diags(label, r.conditions);
    let c = gate_diags(label, r);
    let e = ensure_diags(label, r, probes);
    assert(ds == a + b + c + e);
    assert(a.len() == 0);
    lemma_conditions_inert(label, r.conditions);
    lemma_fold_concat(n, a + b + c, e, st);
    lemma_fold_concat(n, a + b, c, st);
    lemma_fold_concat(n, a, b, st);
    lemma_fold_inert(n, b, st);
    assert(fix_fold(n, a + b, st) == st);
    reveal_strlit("gate.within must be 1-500, got ");
    reveal_strlit("ensure.timeout must be 1-30, got ");
    reveal_strlit("gate.within must be");
    reveal_strlit("ensure.timeout must be");
    if r.action == Decision::Gate {
        let g = r.gate->0;
        assert(e.len() == 0);
        if g.within < 1 || g.within > 500 {
            assert(c.len() == 1);
            let d = c[0];
            assert(c =~= seq![d]);
            lemma_single_step(n, d, st);
            let p = "gate.within must be"@;
            assert(d.error.subrange(0int, 0int + p.len()) =~= p);
            assert(starts_with(d.error, p));
            assert(fix_step(st, n, d).rules == st.rules.update(n, repaired(r)));
        } else {
            assert(c.len() == 0);
            assert(repaired(r) == r);
            assert(st.rules.update(n, r) =~= st.rules);
        }
    } else if r.action == Decision::Ensure {
        let en = r.ensure->0;
        assert(c.len() == 0);
        let y = if en.timeout < 1 || en.timeout > 30 {
            seq![crate::validate::diag(label, DiagnosticSeverity::Error, "ensure.timeout must be 1-30, got "@ + crate::text::decimal(en.timeout as nat),
                "Set ensure.timeout between 1 and 30 seconds. Will clamp to "@ + crate::text::decimal(clamp(en.timeout, 1, 30) as nat) + " on auto-fix."@, true)]
        } else {
            Seq::empty()
        };
        let z = script_diags(label, en, probes);
        assert(e =~= y + z);
        lemma_script_inert(label, en, probes);
        lemma_fold_concat(n, y, z, st);
        if en.timeout < 1 || en.timeout > 30 {
            let d = y[0];
            lemma_single_step(n, d, st);
            lemma_fold_inert(n, z, fix_step(st, n, d));
            let p = "ensure.timeout must be"@;
            assert(d.error.subrange(0int, 0int + p.len()) =~= p);
            assert(starts_with(d.error, p));
            lemma_no_gate_prefix(d, 0);
            assert(fix_step(st, n, d).rules == st.rules.update(n, repaired(r)));
        } else {
            lemma_fold_inert(n, z, st);
            assert(repaired(r) == r);
            assert(st.rules.update(n, r) =~= st.rules);
        }
    } else {
        assert(c.len() == 0);
        assert(e.len() == 0);
        assert(st.rules.update(n, r) =~= st.rules);
    }
}

proof fn lemma_repaired_sound(r: RuleView)
    requires
        !broken(r),
    ensures
        !broken(repaired(r)),
        !out_of_range(repaired(r)),
        repaired(r).name == r.name,
        repaired(r).locked == r.locked,
{
}

/// After the diagnostics of the first `n` rules: those rules are settled
/// (locked ones untouched, broken unlocked ones marked for removal, the
/// others repaired), the rest untouched.
spec fn settled(rules: Seq<RuleView>, n: int, st: FixState) -> bool {
    &&& aligned(rules, st)
    &&& removed_ok(rules, st)
    &&& forall|m: int| n <= m < rules.len() ==> #[trigger] st.rules[m] == rules[m]
    &&& forall|m: int|
        0 <= m < n && rules[m].locked ==> #[trigger] st.rules[m] == rules[m] && !st.dropped.contains(m)
    &&& forall|m: int|
        0 <= m < n && !rules[m].locked && !broken(rules[m]) ==> #[trigger] st.rules[m] == repaired(rules[m])
            && !st.dropped.contains(m)
    &&& forall|m: int| 0 <= m < n && !rules[m].locked && broken(rules[m]) ==> #[trigger] st.dropped.contains(m)
    &&& forall|x: int| #[trigger] st.dropped.contains(x) ==> 0 <= x < n
}

proof fn lemma_first_run(rules: Seq<RuleView>, probes: Seq<ProbeView>, n: int)
    requires
        0 <= n <= rules.len(),
    ensures
        settled(rules, n, fix_rules(rules, probes, n)),
    decreases n,
{
    if n > 0 {
        let p = n - 1;
        lemma_first_run(rules, probes, p);
        let st = fix_rules(rules, probes, p);
        let ds = rule_diags(p, rules[p], probes);
        let st2 = fix_fold(p, ds, st);
        assert(fix_rules(rules, probes, n) == st2);
        lemma_rule_diags_shape(p, rules[p], probes);
        lemma_fold_framed(rules, p, ds, st);
        assert(st.rules[p] == rules[p]);
        if !rules[p].locked {
            if broken(rules[p]) {
                lemma_broken_removed(rules, probes, p, st);
            } else {
                lemma_sound_repaired(rules, probes, p, st);
            }
        }
        assert forall|m: int| n <= m < rules.len() implies #[trigger] st2.rules[m] == rules[m] by {
            assert(st.rules[m] == rules[m]);
        }
        assert forall|m: int| 0 <= m < n && rules[m].locked implies #[trigger] st2.rules[m] == rules[m]
            && !st2.dropped.contains(m) by {
            if m < p {
                assert(st.rules[m] == rules[m] && !st.dropped.contains(m));
            }
        }
        assert forall|m: int| 0 <= m < n && !rules[m].locked && !broken(rules[m]) implies #[trigger] st2.rules[m]
            == repaired(rules[m]) && !st2.dropped.contains(m) by {
            if m < p {
                assert(st.rules[m] == repaired(rules[m]) && !st.dropped.contains(m));
            }
        }
        assert forall|m: int| 0 <= m < n && !rules[m].locked && broken(rules[m]) implies #[trigger] st2.dropped.contains(m) by {
            if m < p {
                assert(st.dropped.contains(m));
            }
        }
        assert forall|x: int| #[trigger] st2.dropped.contains(x) implies 0 <= x < n by {
            if st.dropped.contains(x) {
            }
        }
    }
}

proof fn lemma_kept_elem(rs: Seq<RuleView>, dr: Set<int>, n: int)
    requires
        0 <= n <= rs.len(),
    ensures
        forall|i: int|
            0 <= i < kept(rs, dr, n).len() ==> exists|m: int|
                0 <= m < n && !dr.contains(m) && #[trigger] kept(rs, dr, n)[i] == rs[m],
    decreases n,
{
    if n > 0 {
        lemma_kept_elem(rs, dr, n - 1);
        let a = kept(rs, dr, n - 1);
        assert forall|i: int| 0 <= i < kept(rs, dr, n).len() implies exists|m: int|
            0 <= m < n && !dr.contains(m) && #[trigger] kept(rs, dr, n)[i] == rs[m] by {
            if i < a.len() {
                assert(kept(rs, dr, n)[i] == a[i]);
                let m = choose|m: int| 0 <= m < n - 1 && !dr.contains(m) && #[trigger] a[i] == rs[m];
                assert(0 <= m < n && !dr.contains(m) && kept(rs, dr, n)[i] == rs[m]);
            } else {
                assert(kept(rs, dr, n)[i] == rs[n - 1]);
            }
        }
    }
}

proof fn lemma_kept_none(rs: Seq<RuleView>, n: int)
    requires
        0 <= n <= rs.len(),
    ensures
        kept(rs, Set::empty(), n) == rs.take(n),
    decreases n,
{
    if n > 0 {
        lemma_kept_none(rs, n - 1);
        assert(rs.take(n) =~= rs.take(n - 1).push(rs[n - 1]));
    } else {
        assert(rs.take(0) =~= Seq::<RuleView>::empty());
    }
}

proof fn lemma_kept_locked(rules: Seq<RuleView>, st: FixState, n: int)
    requires
        settled(rules, rules.len() as int, st),
        0 <= n <= rules.len(),
    ensures
        locked_rules(kept(st.rules, st.dropped, n), true) == locked_rules(rules.take(n), true),
    decreases n,
{
    if n == 0 {
        reveal(Seq::filter);
        assert(rules.take(0) =~= Seq::<RuleView>::empty());
    } else {
        lemma_kept_locked(rules, st, n - 1);
        let lk = |r: RuleView| r.locked == true;
        assert(rules.take(n) =~= rules.take(n - 1).push(rules[n - 1]));
        rules.take(n - 1).lemma_filter_push(rules[n - 1], lk);
        let a = kept(st.rules, st.dropped, n - 1);
        a.lemma_filter_push(st.rules[n - 1], lk);
        assert(st.rules[n - 1].locked == rules[n - 1].locked);
        if rules[n - 1].locked {
            assert(st.rules[n - 1] == rules[n - 1] && !st.dropped.contains(n - 1));
        }
    }
}

/// Repair leaves every locked rule alone: the locked rules that remain are
/// exactly the locked rules before, unchanged and in the same order.
pub proof fn fix_keeps_locked_rules(rules: Seq<RuleView>, probes: Seq<ProbeView>)
    ensures
        locked_rules(remaining_rules(fix_outcome(rules, probes)), true) == locked_rules(rules, true),
{
    lemma_first_run(rules, probes, rules.len() as int);
    let st = fix_outcome(rules, probes);
    lemma_kept_locked(rules, st, rules.len() as int);
    assert(rules.take(rules.len() as int) =~= rules);
}

/// Repair removes only broken unlocked rules: every label it reports as
/// removed (the rule's name, or `rule[i]` when it has none) is that of an
/// unlocked rule with an auto-fixable error that cannot be clamped, no label
/// is reported twice, and every such rule is removed and reported.
pub proof fn fix_removes_only_broken_unlocked_rules(rules: Seq<RuleView>, probes: Seq<ProbeView>)
    ensures
        forall|t: int|
            0 <= t < fix_outcome(rules, probes).removed.len() ==> exists|m: int|
                0 <= m < rules.len() && !rules[m].locked && broken(rules[m])
                    && #[trigger] fix_outcome(rules, probes).removed[t] == rule_label(m, rules[m]),
        fix_outcome(rules, probes).removed.no_duplicates(),
        forall|m: int|
            0 <= m < rules.len() && !rules[m].locked && broken(rules[m]) ==> #[trigger] fix_outcome(
                rules,
                probes,
            ).dropped.contains(m),
        forall|m: int|
            0 <= m < rules.len() && !rules[m].locked && broken(rules[m]) ==> fix_outcome(
                rules,
                probes,
            ).removed.contains(#[trigger] rule_label(m, rules[m])),
        forall|x: int|
            #[trigger] fix_outcome(rules, probes).dropped.contains(x) ==> 0 <= x < rules.len()
                && !rules[x].locked && broken(rules[x]),
{
    lemma_first_run(rules, probes, rules.len() as int);
    let st = fix_outcome(rules, probes);
    assert forall|t: int| 0 <= t < st.removed.len() implies exists|m: int|
        0 <= m < rules.len() && !rules[m].locked && broken(rules[m]) && #[trigger] st.removed[t]
            == rule_label(m, rules[m]) by {
        assert(removed_from(rules, st.dropped, st.removed[t]));
        let m = choose|m: int|
            0 <= m < rules.len() && st.dropped.contains(m) && !rules[m].locked && #[trigger] rule_label(m, rules[m])
                == st.removed[t];
        if !broken(rules[m]) {
            assert(st.rules[m] == repaired(rules[m]) && !st.dropped.contains(m));
        }
        assert(0 <= m < rules.len() && !rules[m].locked && broken(rules[m]) && st.removed[t] == rule_label(m, rules[m]));
    }
    assert forall|m: int| 0 <= m < rules.len() && !rules[m].locked && broken(rules[m]) implies st.removed.contains(
        #[trigger] rule_label(m, rules[m]),
    ) by {
        assert(st.dropped.contains(m));
    }
    assert forall|x: int| #[trigger] st.dropped.contains(x) implies 0 <= x < rules.len() && !rules[x].locked
        && broken(rules[x]) by {
        assert(0 <= x < rules.len());
        if rules[x].locked {
            assert(st.rules[x] == rules[x] && !st.dropped.contains(x));
        } else if !broken(rules[x]) {
            assert(st.rules[x] == repaired(rules[x]) && !st.dropped.contains(x));
        }
    }
}

proof fn lemma_second_run(rs: Seq<RuleView>, probes: Seq<ProbeView>, n: int)
    requires
        0 <= n <= rs.len(),
        forall|i: int| 0 <= i < rs.len() ==> (#[trigger] rs[i]).locked || (!broken(rs[i]) && !out_of_range(rs[i])),
    ensures
        fix_rules(rs, probes, n) == fix_start(rs),
    decreases n,
{
    if n > 0 {
        let p = n - 1;
        lemma_second_run(rs, probes, p);
        let st = fix_start(rs);
        let ds = rule_diags(p, rs[p], probes);
        lemma_rule_diags_shape(p, rs[p], probes);
        assert(rs[p].locked || (!broken(rs[p]) && !out_of_range(rs[p])));
        assert forall|m: int| 0 <= m < ds.len() implies fix_step(st, p, #[trigger] ds[m]) == st by {
            assert(st.rules[p] == rs[p]);
        }
        lemma_fold_fixed(p, ds, st);
    }
}

/// Repair is idempotent: no unlocked rule that repair leaves has an
/// auto-fixable error, and repairing the rules that one repair left
/// changes nothing, removes nothing and reports no modification.
pub proof fn fix_is_idempotent(rules: Seq<RuleView>, probes: Seq<ProbeView>)
    ensures
        forall|i: int, k: int|
            0 <= i < remaining_rules(fix_outcome(rules, probes)).len() && !remaining_rules(
                fix_outcome(rules, probes),
            )[i].locked && 0 <= k < rule_diags(i, remaining_rules(fix_outcome(rules, probes))[i], probes).len()
                ==> !(#[trigger] rule_diags(i, remaining_rules(fix_outcome(rules, probes))[i], probes)[k].severity
                == DiagnosticSeverity::Error && rule_diags(
                i,
                remaining_rules(fix_outcome(rules, probes))[i],
                probes,
            )[k].auto_fixable),
        fix_outcome(remaining_rules(fix_outcome(rules, probes)), probes) == fix_start(
            remaining_rules(fix_outcome(rules, probes)),
        ),
        remaining_rules(fix_outcome(remaining_rules(fix_outcome(rules, probes)), probes)) == remaining_rules(
            fix_outcome(rules, probes),
        ),
{
    lemma_first_run(rules, probes, rules.len() as int);
    let st = fix_outcome(rules, probes);
    let once = remaining_rules(st);
    lemma_kept_elem(st.rules, st.dropped, st.rules.len() as int);
    assert forall|i: int| 0 <= i < once.len() implies (#[trigger] once[i]).locked || (!broken(once[i])
        && !out_of_range(once[i])) by {
        let m = choose|m: int| 0 <= m < st.rules.len() && !st.dropped.contains(m) && #[trigger] once[i] == st.rules[m];
        if !rules[m].locked {
            if broken(rules[m]) {
                assert(st.dropped.contains(m));
            } else {
                lemma_repaired_sound(rules[m]);
                assert(st.rules[m] == repaired(rules[m]));
            }
        } else {
            assert(st.rules[m] == rules[m]);
        }
    }
    assert forall|i: int, k: int|
        0 <= i < once.len() && !once[i].locked && 0 <= k < rule_diags(i, once[i], probes).len() implies !(
        #[trigger] rule_diags(i, once[i], probes)[k].severity == DiagnosticSeverity::Error && rule_diags(
            i,
            once[i],
            probes,
        )[k].auto_fixable) by {
        lemma_rule_diags_shape(i, once[i], probes);
        assert(once[i].locked || (!broken(once[i]) && !out_of_range(once[i])));
        assert(!inert(rule_diags(i, once[i], probes)[k]) ==> broken(once[i]) || out_of_range(once[i]));
    }
    lemma_second_run(once, probes, once.len() as int);
    lemma_kept_none(once, once.len() as int);
    assert(once.take(once.len() as int) =~= once);
}


/// A rule as repair leaves it when it is not removed: a locked rule as it
/// was, an unlocked one with its window or timeout clamped.
pub open spec fn after_repair(r: RuleView) -> RuleView {
    if r.locked {
        r
    } else {
        repaired(r)
    }
}

proof fn lemma_kept_same(r1: Seq<RuleView>, r2: Seq<RuleView>, dr: Set<int>, n: int)
    requires
        r1.len() == r2.len(),
        0 <= n <= r1.len(),
        forall|m: int| 0 <= m < n && !dr.contains(m) ==> #[trigger] r1[m] == r2[m],
    ensures
        kept(r1, dr, n) == kept(r2, dr, n),
    decreases n,
{
    if n > 0 {
        lemma_kept_same(r1, r2, dr, n - 1);
    }
}

/// Repair changes nothing but windows and timeouts: the rules that remain
/// are, in order, those not removed, each as `after_repair` leaves it.
pub proof fn fix_changes_only_windows_and_timeouts(rules: Seq<RuleView>, probes: Seq<ProbeView>)
    ensures
        remaining_rules(fix_outcome(rules, probes)) == kept(
            rules.map_values(|r: RuleView| after_repair(r)),
            fix_outcome(rules, probes).dropped,
            rules.len() as int,
        ),
{
    lemma_first_run(rules, probes, rules.len() as int);
    let st = fix_outcome(rules, probes);
    let target = rules.map_values(|r: RuleView| after_repair(r));
    assert forall|m: int| 0 <= m < rules.len() && !st.dropped.contains(m) implies #[trigger] st.rules[m]
        == target[m] by {
        if rules[m].locked {
            assert(st.rules[m] == rules[m] && !st.dropped.contains(m));
        } else if broken(rules[m]) {
            assert(st.dropped.contains(m));
        } else {
            assert(st.rules[m] == repaired(rules[m]) && !st.dropped.contains(m));
        }
    }
    lemma_kept_same(st.rules, target, st.dropped, rules.len() as int);
}


/// Whenever repair removes a rule, its description begins by saying so:
/// "Removed <n> broken rule(s): ..." with the labels it removed.
pub proof fn fix_description_reports_removals(rules: Seq<RuleView>, probes: Seq<ProbeView>, m: int)
    requires
        fix_outcome(rules, probes).dropped.contains(m),
    ensures
        fix_outcome(rules, probes).removed.len() > 0,
        starts_with(
            crate::fix::fix_description(fix_outcome(rules, probes).removed, fix_outcome(rules, probes).modified),
            "Removed "@ + crate::text::decimal(fix_outcome(rules, probes).removed.len()) + " broken rule(s): "@
                + crate::text::join(fix_outcome(rules, probes).removed, ", "@),
        ),
{
    lemma_first_run(rules, probes, rules.len() as int);
    let st = fix_outcome(rules, probes);
    assert(st.removed.contains(rule_label(m, rules[m])));
    let head = "Removed "@ + crate::text::decimal(st.removed.len()) + " broken rule(s): "@ + crate::text::join(
        st.removed,
        ", "@,
    );
    let tail: Seq<Seq<char>> = if st.modified.len() > 0 {
        seq!["Fixed "@ + crate::text::decimal(st.modified.len()) + " rule(s): "@ + crate::text::join(st.modified, "; "@)]
    } else {
        Seq::empty()
    };
    let parts = seq![head] + tail;
    let d = crate::fix::fix_description(st.removed, st.modified);
    assert(d == crate::text::join(parts, ". "@));
    if tail.len() == 0 {
        assert(parts =~= seq![head]);
        assert(d == head);
    } else {
        assert(parts.len() == 2);
        assert(parts.drop_last() =~= seq![head]);
        assert(crate::text::join(seq![head], ". "@) == head);
        assert(parts.last() == tail[0]);
        assert(d == head + ". "@ + tail[0]);
    }
    assert(d.subrange(0, head.len() as int) =~= head);
}


/// Repair of a rule touches nothing but its Gate window or its Ensure
/// timeout, and only on an unlocked rule of that action: a window is brought
/// into 1 to 500 and a timeout into 1 to 30, each moved to the nearest end of
/// its range when outside it and left as it was when inside.
pub proof fn repair_moves_values_to_the_nearest_bound(r: RuleView)
    ensures
        after_repair(r).name == r.name,
        after_repair(r).tool_pattern == r.tool_pattern,
        after_repair(r).conditions == r.conditions,
        after_repair(r).action == r.action,
        after_repair(r).reason == r.reason,
        after_repair(r).alternative == r.alternative,
        after_repair(r).locked == r.locked,
        r.locked || r.action != Decision::Gate ==> after_repair(r).gate == r.gate,
        r.locked || r.action != Decision::Ensure ==> after_repair(r).ensure == r.ensure,
        r.gate is None ==> after_repair(r).gate is None,
        r.ensure is None ==> after_repair(r).ensure is None,
        r.gate is Some ==> after_repair(r).gate is Some && after_repair(r).gate->0.requires_prior
            == r.gate->0.requires_prior,
        r.ensure is Some ==> after_repair(r).ensure is Some && after_repair(r).ensure->0.check
            == r.ensure->0.check && after_repair(r).ensure->0.message == r.ensure->0.message,
        !r.locked && r.action == Decision::Gate && r.gate is Some ==> {
            let w = r.gate->0.within;
            let v = after_repair(r).gate->0.within;
            &&& w == 0 ==> v == 1
            &&& w > 500 ==> v == 500
            &&& 1 <= w <= 500 ==> v == w
        },
        !r.locked && r.action == Decision::Ensure && r.ensure is Some ==> {
            let t = r.ensure->0.timeout;
            let v = after_repair(r).ensure->0.timeout;
            &&& t == 0 ==> v == 1
            &&& t > 30 ==> v == 30
            &&& 1 <= t <= 30 ==> v == t
        },
{
}


/// `b` extends `a`.
spec fn extends(a: Seq<Seq<char>>, b: Seq<Seq<char>>) -> bool {
    &&& a.len() <= b.len()
    &&& forall|t: int| 0 <= t < a.len() ==> #[trigger] b[t] == a[t]
}

proof fn lemma_fold_extends(k: int, ds: Seq<DiagView>, st: FixState)
    ensures
        extends(st.modified, fix_fold(k, ds, st).modified),
    decreases ds.len(),
{
    if ds.len() > 0 {
        lemma_fold_extends(k, ds.drop_last(), st);
        let s1 = fix_fold(k, ds.drop_last(), st);
        let s2 = fix_step(s1, k, ds.last());
        assert(extends(s1.modified, s2.modified));
    }
}

proof fn lemma_rules_extend(rules: Seq<RuleView>, probes: Seq<ProbeView>, n: int, n2: int)
    requires
        0 <= n <= n2 <= rules.len(),
    ensures
        extends(fix_rules(rules, probes, n).modified, fix_rules(rules, probes, n2).modified),
    decreases n2 - n,
{
    if n < n2 {
        lemma_rules_extend(rules, probes, n, n2 - 1);
        let p = n2 - 1;
        lemma_fold_extends(p, rule_diags(p, rules[p], probes), fix_rules(rules, probes, p));
    }
}

/// Diagnostics that clamp nothing leave the rules as they were.
proof fn lemma_fold_no_clamp(k: int, ds: Seq<DiagView>, st: FixState)
    requires
        forall|m: int|
            0 <= m < ds.len() ==> inert(#[trigger] ds[m]) || (!starts_with(ds[m].error, "gate.within must be"@)
                && !starts_with(ds[m].error, "ensure.timeout must be"@)),
    ensures
        fix_fold(k, ds, st).rules == st.rules,
        fix_fold(k, ds, st).modified == st.modified,
    decreases ds.len(),
{
    if ds.len() > 0 {
        let pre = ds.drop_last();
        assert forall|m: int| 0 <= m < pre.len() implies inert(#[trigger] pre[m]) || (!starts_with(
            pre[m].error,
            "gate.within must be"@,
        ) && !starts_with(pre[m].error, "ensure.timeout must be"@)) by {
            assert(pre[m] == ds[m]);
        }
        assert(inert(ds[ds.len() - 1]) || (!starts_with(ds[ds.len() - 1].error, "gate.within must be"@)
            && !starts_with(ds[ds.len() - 1].error, "ensure.timeout must be"@)));
        lemma_fold_no_clamp(k, pre, st);
    }
}

/// The step of rule `m` at its diagnostic `k`, which clamps: what came
/// before clamped nothing, so the rule is met as it was given, and the
/// message of that step stays in what repair reports.
proof fn lemma_clamp_reported(rules: Seq<RuleView>, probes: Seq<ProbeView>, m: int, k: int)
    requires
        0 <= m < rules.len(),
        !rules[m].locked,
        0 <= k < rule_diags(m, rules[m], probes).len(),
        forall|j: int|
            0 <= j < k ==> inert(#[trigger] rule_diags(m, rules[m], probes)[j]) || (!starts_with(
                rule_diags(m, rules[m], probes)[j].error,
                "gate.within must be"@,
            ) && !starts_with(rule_diags(m, rules[m], probes)[j].error, "ensure.timeout must be"@)),
        rule_diags(m, rules[m], probes)[k].severity == DiagnosticSeverity::Error,
        rule_diags(m, rules[m], probes)[k].auto_fixable,
        (starts_with(rule_diags(m, rules[m], probes)[k].error, "gate.within must be"@) && rules[m].gate is Some)
            || (starts_with(rule_diags(m, rules[m], probes)[k].error, "ensure.timeout must be"@)
            && rules[m].ensure is Some),
    ensures
        fix_outcome(rules, probes).modified.contains(
            fix_step(
                FixState { rules: rules, ..fix_rules(rules, probes, m) },
                m,
                rule_diags(m, rules[m], probes)[k],
            ).modified.last(),
        ),
{
    let ds = rule_diags(m, rules[m], probes);
    let st = fix_rules(rules, probes, m);
    lemma_first_run(rules, probes, m);
    let pre = ds.take(k);
    let post = ds.skip(k + 1);
    assert(ds =~= pre + seq![ds[k]] + post);
    assert forall|j: int| 0 <= j < pre.len() implies inert(#[trigger] pre[j]) || (!starts_with(
        pre[j].error,
        "gate.within must be"@,
    ) && !starts_with(pre[j].error, "ensure.timeout must be"@)) by {
        assert(pre[j] == ds[j]);
    }
    lemma_fold_no_clamp(m, pre, st);
    let s1 = fix_fold(m, pre, st);
    lemma_fold_concat(m, pre + seq![ds[k]], post, st);
    lemma_fold_concat(m, pre, seq![ds[k]], st);
    lemma_single_step(m, ds[k], s1);
    let s2 = fix_step(s1, m, ds[k]);
    lemma_fold_extends(m, post, s2);
    assert(fix_rules(rules, probes, m + 1) == fix_fold(m, ds, st));
    lemma_rules_extend(rules, probes, m + 1, rules.len() as int);
    let alt = FixState { rules: rules, ..st };
    assert(st.rules[m] == rules[m]);
    assert(s1.rules == st.rules);
    assert(s1.rules.len() == rules.len());
    assert(s1.rules[m].locked == rules[m].locked);
    let s2b = fix_step(alt, m, ds[k]);
    assert(s2.modified == s2b.modified);
    assert(s2.modified.len() == s1.modified.len() + 1);
    let t = s2.modified.len() - 1;
    assert(fix_fold(m, ds, st).modified[t] == s2.modified[t]);
    assert(fix_outcome(rules, probes).modified[t] == s2.modified.last());
}

/// Repair reports each window or timeout that it clamps: for an unlocked
/// Gate rule whose window `w` lies outside 1 to 500, the list of changes
/// holds "<name>: clamped gate.within <w> -> <c>", `c` being 1 or 500,
/// whichever is nearer; for an unlocked Ensure rule whose timeout `t` lies
/// outside 1 to 30, "<name>: clamped ensure.timeout <t> -> <c>", `c` being 1
/// or 30.
pub proof fn fix_reports_each_clamp(rules: Seq<RuleView>, probes: Seq<ProbeView>, m: int)
    requires
        0 <= m < rules.len(),
        !rules[m].locked,
    ensures
        rules[m].action == Decision::Gate && rules[m].gate is Some && (rules[m].gate->0.within < 1
            || rules[m].gate->0.within > 500) ==> fix_outcome(rules, probes).modified.contains(
            rules[m].name + ": clamped gate.within "@ + decimal(rules[m].gate->0.within as nat) + " -> "@
                + decimal(if rules[m].gate->0.within < 1 { 1nat } else { 500nat }),
        ),
        rules[m].action == Decision::Ensure && rules[m].ensure is Some && (rules[m].ensure->0.timeout < 1
            || rules[m].ensure->0.timeout > 30) ==> fix_outcome(rules, probes).modified.contains(
            rules[m].name + ": clamped ensure.timeout "@ + decimal(rules[m].ensure->0.timeout as nat)
                + " -> "@ + decimal(if rules[m].ensure->0.timeout < 1 { 1nat } else { 30nat }),
        ),
{
    let r = rules[m];
    let label = rule_label(m, r);
    let ds = rule_diags(m, r, probes);
    let a = regex_diags(label, r);
    let b = conditions_diags(label, r.conditions);
    let c = gate_diags(label, r);
    let e = ensure_diags(label, r, probes);
    assert(ds == a + b + c + e);
    lemma_conditions_inert(label, r.conditions);
    reveal_strlit("gate.within must be");
    reveal_strlit("ensure.timeout must be");
    reveal_strlit("Invalid regex '");
    let st = fix_rules(rules, probes, m);
    lemma_first_run(rules, probes, m);
    let alt = FixState { rules: rules, ..st };
    if r.action == Decision::Gate && r.gate is Some && (r.gate->0.within < 1 || r.gate->0.within > 500) {
        let g = r.gate->0;
        let off: int = if g.requires_prior.len() == 0 {
            1
        } else {
            0
        };
        let k: int = (a.len() + b.len()) as int + off;
        assert(ds[k] == c[off]);
        assert forall|j: int| 0 <= j < k implies inert(#[trigger] ds[j]) || (!starts_with(
            ds[j].error,
            "gate.within must be"@,
        ) && !starts_with(ds[j].error, "ensure.timeout must be"@)) by {
            if j < a.len() {
                assert(ds[j] == a[j]);
                lemma_no_prefix(ds[j], 0, 0);
            } else if j < a.len() + b.len() {
                assert(ds[j] == b[j - a.len()]);
            } else {
                assert(ds[j] == c[0]);
                reveal_strlit("gate.requires_prior cannot be empty");
                lemma_no_prefix(ds[j], 5, 0);
            }
        }
        let err = "gate.within must be 1-500, got "@ + decimal(g.within as nat);
        reveal_strlit("gate.within must be 1-500, got ");
        assert(ds[k].error == err);
        assert(err.subrange(0, 19) =~= "gate.within must be"@);
        assert(starts_with(err, "gate.within must be"@));
        lemma_clamp_reported(rules, probes, m, k);
        assert(alt.rules[m] == r);
        assert(clamp(g.within, 1, 500) == (if g.within < 1 { 1u32 } else { 500u32 }));
    }
    if r.action == Decision::Ensure && r.ensure is Some && (r.ensure->0.timeout < 1 || r.ensure->0.timeout > 30) {
        let en = r.ensure->0;
        let x = match check_name_error(en.check) {
            Some(err) => seq![crate::validate::diag(label, DiagnosticSeverity::Error, err,
                "Check name must be a simple filename (no paths, no special chars)."@, true)],
            None => Seq::empty(),
        };
        let y = seq![crate::validate::diag(label, DiagnosticSeverity::Error, "ensure.timeout must be 1-30, got "@ + decimal(en.timeout as nat),
            "Set ensure.timeout between 1 and 30 seconds. Will clamp to "@ + decimal(clamp(en.timeout, 1, 30) as nat) + " on auto-fix."@, true)];
        let z = script_diags(label, en, probes);
        assert(e == x + y + z);
        assert(c.len() == 0);
        let k: int = (a.len() + b.len() + x.len()) as int;
        assert(ds[k] == y[0]);
        assert forall|j: int| 0 <= j < k implies inert(#[trigger] ds[j]) || (!starts_with(
            ds[j].error,
            "gate.within must be"@,
        ) && !starts_with(ds[j].error, "ensure.timeout must be"@)) by {
            if j < a.len() {
                assert(ds[j] == a[j]);
                lemma_no_prefix(ds[j], 0, 0);
            } else if j < a.len() + b.len() {
                assert(ds[j] == b[j - a.len()]);
            } else {
                assert(ds[j] == x[0]);
                lemma_check_error_text(en.check);
                lemma_no_prefix(ds[j], 0, 7);
            }
        }
        let err = "ensure.timeout must be 1-30, got "@ + decimal(en.timeout as nat);
        reveal_strlit("ensure.timeout must be 1-30, got ");
        assert(err.subrange(0, 22) =~= "ensure.timeout must be"@);
        assert(starts_with(err, "ensure.timeout must be"@));
        assert(!starts_with(err, "gate.within must be"@)) by {
            lemma_no_gate_prefix(ds[k], 0);
        }
        lemma_clamp_reported(rules, probes, m, k);
        assert(alt.rules[m] == r);
        assert(clamp(en.timeout, 1, 30) == (if en.timeout < 1 { 1u32 } else { 30u32 }));
    }
}


/// The description of a repair says what it did: "No auto-fixable issues
/// found." when it did nothing; otherwise "Removed <n> broken rule(s): " and
/// the labels it removed, separated by ", ", when it removed rules, and
/// "Fixed <n> rule(s): " and the changes it made, separated by "; ", when it
/// changed some, the two joined by ". " in that order.
pub proof fn fix_description_says_what_was_done(removed: Seq<Seq<char>>, modified: Seq<Seq<char>>)
    ensures
        removed.len() == 0 && modified.len() == 0 ==> crate::fix::fix_description(removed, modified)
            == "No auto-fixable issues found."@,
        removed.len() > 0 && modified.len() == 0 ==> crate::fix::fix_description(removed, modified) == "Removed "@
            + decimal(removed.len()) + " broken rule(s): "@ + crate::text::join(removed, ", "@),
        removed.len() == 0 && modified.len() > 0 ==> crate::fix::fix_description(removed, modified) == "Fixed "@
            + decimal(modified.len()) + " rule(s): "@ + crate::text::join(modified, "; "@),
        removed.len() > 0 && modified.len() > 0 ==> crate::fix::fix_description(removed, modified) == "Removed "@
            + decimal(removed.len()) + " broken rule(s): "@ + crate::text::join(removed, ", "@) + ". "@ + "Fixed "@
            + decimal(modified.len()) + " rule(s): "@ + crate::text::join(modified, "; "@),
{
    let head = "Removed "@ + decimal(removed.len()) + " broken rule(s): "@ + crate::text::join(removed, ", "@);
    let tail = "Fixed "@ + decimal(modified.len()) + " rule(s): "@ + crate::text::join(modified, "; "@);
    let d = crate::fix::fix_description(removed, modified);
    if removed.len() > 0 && modified.len() == 0 {
        let parts = seq![head] + Seq::<Seq<char>>::empty();
        assert(parts =~= seq![head]);
        assert(d == crate::text::join(seq![head], ". "@));
    }
    if removed.len() == 0 && modified.len() > 0 {
        let parts = Seq::<Seq<char>>::empty() + seq![tail];
        assert(parts =~= seq![tail]);
        assert(d == crate::text::join(seq![tail], ". "@));
    }
    if removed.len() > 0 && modified.len() > 0 {
        let parts = seq![head] + seq![tail];
        assert(parts =~= seq![head, tail]);
        assert(parts.drop_last() =~= seq![head]);
        assert(crate::text::join(seq![head], ". "@) == head);
        assert(d == head + ". "@ + tail);
    }
}

} // verus!
