//! Static validation of a policy configuration, with actionable hints, and
//! the safety rules for Ensure check-script names and paths.

use vstd::prelude::*;
use crate::model::{
    PolicyConfig, PolicyRule, RuleView, Decision, DiagnosticSeverity, ValidationDiagnostic,
    rules_view, GateView, EnsureView,
};
use crate::text::{
    trim, seq_contains, first_index, decimal, decimal_string, to_chars, trim_range, find_char,
    range_contains, string_of, join, join_strings,
};
use crate::engine::pattern_compiles;
use crate::pattern::compile_pattern;
use crate::condition::concat;

verus! {

/// Why an Ensure check-script name is unsafe, if it is.
pub open spec fn check_name_error(name: Seq<char>) -> Option<Seq<char>> {
    if name.len() == 0 {
        Some("ensure.check cannot be empty"@)
    } else if name.contains('/') || name.contains('\\') {
        Some("ensure.check must not contain path separators: '"@ + name + "'"@)
    } else if seq_contains(name, ".."@) {
        Some("ensure.check must not contain '..': '"@ + name + "'"@)
    } else if name.contains('\0') {
        Some("ensure.check must not contain null bytes"@)
    } else if exists|i: int| 0 <= i < name.len() && is_control(#[trigger] name[i]) {
        Some("ensure.check must not contain control characters"@)
    } else {
        None
    }
}

/// A control character other than tab (a byte below 0x20 in UTF-8).
pub open spec fn is_control(c: char) -> bool {
    (c as u32) < 0x20 && c != '\t'
}

/// A check-script name is safe: non-empty, a plain file name (no `/`, `\`,
/// `..`), without NUL or other control characters (tab aside).
pub fn validate_ensure_check_name(name: &str) -> (r: Result<(), String>)
    ensures
        match r {
            Ok(()) => check_name_error(name@) is None,
            Err(e) => check_name_error(name@) == Some(e@),
        },
{
    let v = to_chars(name);
    let n = v.len();
    if n == 0 {
        return Err("ensure.check cannot be empty".to_owned());
    }
    let slash = find_char(&v, 0, n, '/');
    let backslash = find_char(&v, 0, n, '\\');
    assert(v@.subrange(0, n as int) =~= v@);
    proof {
        crate::text::lemma_find_from(v@, '/', 0);
        crate::text::lemma_find_from(v@, '\\', 0);
    }
    if slash.is_some() || backslash.is_some() {
        let a = concat("ensure.check must not contain path separators: '", name);
        return Err(concat(a.as_str(), "'"));
    }
    assert(!v@.contains('/') && !v@.contains('\\'));
    let dots = to_chars("..");
    if range_contains(&v, 0, n, &dots, 0, dots.len()) {
        assert(dots@.subrange(0, dots.len() as int) =~= dots@);
        let a = concat("ensure.check must not contain '..': '", name);
        return Err(concat(a.as_str(), "'"));
    }
    assert(dots@.subrange(0, dots.len() as int) =~= dots@);
    let nul = find_char(&v, 0, n, '\0');
    proof {
        crate::text::lemma_find_from(v@, '\0', 0);
    }
    if nul.is_some() {
        return Err("ensure.check must not contain null bytes".to_owned());
    }
    assert(!v@.contains('\0'));
    let mut i: usize = 0;
    while i < n
        invariant
            i <= n == v.len(),
            v@ == name@,
            n > 0,
            !v@.contains('/') && !v@.contains('\\'),
            !seq_contains(v@, ".."@),
            !v@.contains('\0'),
            forall|j: int| 0 <= j < i ==> !is_control(#[trigger] v@[j]),
        decreases n - i,
    {
        let c = v[i];
        if (c as u32) < 0x20 && c != '\t' {
            assert(is_control(v@[i as int]));
            return Err("ensure.check must not contain control characters".to_owned());
        }
        i += 1;
    }
    Ok(())
}

/// Whether `path` has `base` as a prefix, component-wise.
pub uninterp spec fn path_has_prefix(path: Seq<char>, base: Seq<char>) -> bool;

/// `std::path::Path::starts_with`. Trusted: the answer is `path_has_prefix`.
#[verifier::external_body]
fn path_starts_with(path: &str, base: &str) -> (b: bool)
    ensures
        b == path_has_prefix(path@, base@),
{
    std::path::Path::new(path).starts_with(base)
}

/// What the host found on disk for one check script: the canonical path of
/// `<checks dir>/<check>` (or the message of why it could not be
/// canonicalized), the canonical checks directory when it exists, whether
/// the script exists, and whether its metadata shows no execute bit.
#[derive(Debug)]
pub struct ScriptProbe {
    pub check: String,
    pub canonical_script: Result<String, String>,
    pub canonical_checks_dir: Option<String>,
    pub exists: bool,
    pub not_executable: bool,
}

pub struct ProbeView {
    pub check: Seq<char>,
    pub canonical_script: Result<Seq<char>, Seq<char>>,
    pub canonical_checks_dir: Option<Seq<char>>,
    pub exists: bool,
    pub not_executable: bool,
}

impl View for ScriptProbe {
    type V = ProbeView;

    open spec fn view(&self) -> ProbeView {
        ProbeView {
            check: self.check@,
            canonical_script: match self.canonical_script {
                Ok(p) => Ok(p@),
                Err(e) => Err(e@),
            },
            canonical_checks_dir: match self.canonical_checks_dir {
                Some(d) => Some(d@),
                None => None,
            },
            exists: self.exists,
            not_executable: self.not_executable,
        }
    }
}

/// The script's path, or why it cannot be used: an unsafe name, a path that
/// does not resolve, or one that leaves the checks directory.
pub open spec fn resolve_script(check: Seq<char>, probe: ProbeView) -> Result<Seq<char>, Seq<char>> {
    match check_name_error(check) {
        Some(e) => Err(e),
        None => match probe.canonical_script {
            Err(e) => Err(e),
            Ok(path) => match probe.canonical_checks_dir {
                Some(dir) => if !path_has_prefix(path, dir) {
                    Err("Script path escapes checks directory: "@ + path)
                } else {
                    Ok(path)
                },
                None => Ok(path),
            },
        },
    }
}

/// Resolves an Ensure check script from what the host found on disk.
pub fn resolve_ensure_script_path(check_name: &str, probe: &ScriptProbe) -> (r: Result<String, String>)
    ensures
        match r {
            Ok(p) => resolve_script(check_name@, probe@) == Ok::<Seq<char>, Seq<char>>(p@),
            Err(e) => resolve_script(check_name@, probe@) == Err::<Seq<char>, Seq<char>>(e@),
        },
{
    match validate_ensure_check_name(check_name) {
        Err(e) => Err(e),
        Ok(()) => match &probe.canonical_script {
            Err(e) => Err(e.clone()),
            Ok(path) => match &probe.canonical_checks_dir {
                Some(dir) => {
                    if !path_starts_with(path.as_str(), dir.as_str()) {
                        Err(concat("Script path escapes checks directory: ", path.as_str()))
                    } else {
                        Ok(path.clone())
                    }
                },
                None => Ok(path.clone()),
            },
        },
    }
}


/// A diagnostic's view.
pub struct DiagView {
    pub rule_name: Seq<char>,
    pub severity: DiagnosticSeverity,
    pub error: Seq<char>,
    pub fix_hint: Seq<char>,
    pub auto_fixable: bool,
}

impl View for ValidationDiagnostic {
    type V = DiagView;

    open spec fn view(&self) -> DiagView {
        DiagView {
            rule_name: self.rule_name@,
            severity: self.severity,
            error: self.error@,
            fix_hint: self.fix_hint@,
            auto_fixable: self.auto_fixable,
        }
    }
}

pub open spec fn diags_view(v: Seq<ValidationDiagnostic>) -> Seq<DiagView> {
    v.map_values(|d: ValidationDiagnostic| d@)
}

pub open spec fn probes_view(v: Seq<ScriptProbe>) -> Seq<ProbeView> {
    v.map_values(|p: ScriptProbe| p@)
}

/// How diagnostics name a rule: its name, or `rule[i]` when it has none.
pub open spec fn rule_label(i: int, r: RuleView) -> Seq<char> {
    if r.name.len() == 0 {
        "rule["@ + decimal(i as nat) + "]"@
    } else {
        r.name
    }
}

/// The condition functions the language knows.
pub open spec fn known_condition_fns() -> Seq<Seq<char>> {
    seq!["contains"@, "contains_word"@, "param_eq"@, "param_gt"@, "param_lt"@, "param_ne"@, "param_contains"@, "matches"@, "spend_gt"@, "spend_plus_amount_gt"@, "any_of"@, "has_credential"@, "has_recent_action"@, "not"@, "or"@]
}

pub open spec fn diag(label: Seq<char>, severity: DiagnosticSeverity, error: Seq<char>, fix_hint: Seq<char>, auto_fixable: bool) -> DiagView {
    DiagView { rule_name: label, severity, error, fix_hint, auto_fixable }
}

/// The pattern of a rule does not compile.
pub open spec fn regex_diags(label: Seq<char>, r: RuleView) -> Seq<DiagView> {
    if pattern_compiles(r.tool_pattern) {
        Seq::empty()
    } else {
        seq![diag(label, DiagnosticSeverity::Error, "Invalid regex '"@ + r.tool_pattern + "'"@, "Fix the regex syntax or remove this rule."@, true)]
    }
}

/// A condition written as a call names a function the language does not know.
/// Conditions without a parenthesis (bare quoted strings) are not checked.
pub open spec fn condition_diags(label: Seq<char>, cond: Seq<char>) -> Seq<DiagView> {
    let t = trim(cond);
    let p = first_index(t, '(');
    if p < 0 {
        Seq::empty()
    } else {
        let f = trim(t.subrange(0, p));
        if known_condition_fns().contains(f) {
            Seq::empty()
        } else {
            seq![diag(label, DiagnosticSeverity::Error, "Unknown condition function '"@ + f + "'"@,
                "Known functions: "@ + join(known_condition_fns(), ", "@) + ". Remove or replace this condition."@, false)]
        }
    }
}

pub open spec fn conditions_diags(label: Seq<char>, conds: Seq<Seq<char>>) -> Seq<DiagView>
    decreases conds.len(),
{
    if conds.len() == 0 {
        Seq::empty()
    } else {
        conditions_diags(label, conds.drop_last()) + condition_diags(label, conds.last())
    }
}

/// `x.max(lo).min(hi)`.
pub open spec fn clamp(x: u32, lo: u32, hi: u32) -> u32 {
    if x < lo {
        lo
    } else if x > hi {
        hi
    } else {
        x
    }
}

/// A Gate rule needs a configuration with a prerequisite and a window of 1 to 500.
pub open spec fn gate_diags(label: Seq<char>, r: RuleView) -> Seq<DiagView> {
    if r.action != Decision::Gate {
        Seq::empty()
    } else {
        match r.gate {
            None => seq![diag(label, DiagnosticSeverity::Error, "Action GATE requires 'gate' config"@,
                "Add gate: { requires_prior: '<tool_name>', within: 50 } to this rule, or remove it."@, true)],
            Some(g) => (if g.requires_prior.len() == 0 {
                seq![diag(label, DiagnosticSeverity::Error, "gate.requires_prior cannot be empty"@,
                    "Set gate.requires_prior to the tool or action name that must precede this call."@, true)]
            } else {
                Seq::empty()
            }) + (if g.within < 1 || g.within > 500 {
                seq![diag(label, DiagnosticSeverity::Error, "gate.within must be 1-500, got "@ + decimal(g.within as nat),
                    "Set gate.within to a value between 1 and 500 (default: 50). Will clamp to "@ + decimal(clamp(g.within, 1, 500) as nat) + " on auto-fix."@, true)]
            } else {
                Seq::empty()
            }),
        }
    }
}

/// The first probe for `check`.
pub open spec fn probe_for(probes: Seq<ProbeView>, check: Seq<char>) -> Option<ProbeView>
    decreases probes.len(),
{
    if probes.len() == 0 {
        None
    } else if probes[0].check == check {
        Some(probes[0])
    } else {
        probe_for(probes.drop_first(), check)
    }
}

/// Warnings about the script itself: missing, not executable, or not resolvable.
pub open spec fn script_diags(label: Seq<char>, e: EnsureView, probes: Seq<ProbeView>) -> Seq<DiagView> {
    let unresolved = seq![diag(label, DiagnosticSeverity::Warning,
        "Cannot resolve ensure script '"@ + e.check + "' (checks directory may not exist)"@,
        "Create ~/.signet/checks/ directory and place your script there."@, false)];
    match probe_for(probes, e.check) {
        None => unresolved,
        Some(p) => match resolve_script(e.check, p) {
            Err(_) => unresolved,
            Ok(path) => if !p.exists {
                seq![diag(label, DiagnosticSeverity::Warning, "Ensure script not found: "@ + path,
                    "Install the script: touch "@ + path + " && chmod +x "@ + path, false)]
            } else if p.not_executable {
                seq![diag(label, DiagnosticSeverity::Warning, "Ensure script not executable: "@ + path,
                    "Run: chmod +x "@ + path, false)]
            } else {
                Seq::empty()
            },
        },
    }
}

/// An Ensure rule needs a configuration with a safe script name, a timeout
/// of 1 to 30 seconds, and a script that can be found.
pub open spec fn ensure_diags(label: Seq<char>, r: RuleView, probes: Seq<ProbeView>) -> Seq<DiagView> {
    if r.action != Decision::Ensure {
        Seq::empty()
    } else {
        match r.ensure {
            None => seq![diag(label, DiagnosticSeverity::Error, "Action ENSURE requires 'ensure' config"@,
                "Add ensure: { check: '<script_name>', timeout: 5 } to this rule, or remove it."@, true)],
            Some(e) => (match check_name_error(e.check) {
                Some(err) => seq![diag(label, DiagnosticSeverity::Error, err,
                    "Check name must be a simple filename (no paths, no special chars)."@, true)],
                None => Seq::empty(),
            }) + (if e.timeout < 1 || e.timeout > 30 {
                seq![diag(label, DiagnosticSeverity::Error, "ensure.timeout must be 1-30, got "@ + decimal(e.timeout as nat),
                    "Set ensure.timeout between 1 and 30 seconds. Will clamp to "@ + decimal(clamp(e.timeout, 1, 30) as nat) + " on auto-fix."@, true)]
            } else {
                Seq::empty()
            }) + script_diags(label, e, probes),
        }
    }
}

/// All findings for rule `i`, in order: pattern, conditions, Gate, Ensure.
pub open spec fn rule_diags(i: int, r: RuleView, probes: Seq<ProbeView>) -> Seq<DiagView> {
    let label = rule_label(i, r);
    regex_diags(label, r) + conditions_diags(label, r.conditions) + gate_diags(label, r) + ensure_diags(label, r, probes)
}

/// All findings for a list of rules, rule by rule.
pub open spec fn policy_diags(rules: Seq<RuleView>, probes: Seq<ProbeView>) -> Seq<DiagView>
    decreases rules.len(),
{
    if rules.len() == 0 {
        Seq::empty()
    } else {
        policy_diags(rules.drop_last(), probes) + rule_diags(rules.len() - 1, rules.last(), probes)
    }
}


fn diag_of(label: &String, severity: DiagnosticSeverity, error: String, fix_hint: String, auto_fixable: bool) -> (d: ValidationDiagnostic)
    ensures
        d@ == diag(label@, severity, error@, fix_hint@, auto_fixable),
{
    ValidationDiagnostic { rule_name: label.clone(), severity, error, fix_hint, auto_fixable }
}

fn single(d: ValidationDiagnostic) -> (v: Vec<ValidationDiagnostic>)
    ensures
        diags_view(v@) == seq![d@],
{
    let mut v = Vec::new();
    v.push(d);
    assert(diags_view(v@) =~= seq![d@]);
    v
}

fn none() -> (v: Vec<ValidationDiagnostic>)
    ensures
        diags_view(v@) == Seq::<DiagView>::empty(),
{
    let v = Vec::new();
    assert(diags_view(v@) =~= Seq::<DiagView>::empty());
    v
}

/// Appends `b` to `a`.
fn extend(a: &mut Vec<ValidationDiagnostic>, b: Vec<ValidationDiagnostic>)
    ensures
        diags_view(final(a)@) == diags_view(old(a)@) + diags_view(b@),
{
    let mut b = b;
    let ghost a0 = a@;
    let ghost b0 = b@;
    a.append(&mut b);
    assert(diags_view(a@) =~= diags_view(a0) + diags_view(b0));
}

/// The known condition function names.
fn known_fn_names() -> (v: Vec<String>)
    ensures
        v@.map_values(|s: String| s@) == known_condition_fns(),
{
    let mut v: Vec<String> = Vec::new();
    v.push("contains".to_owned());
    v.push("contains_word".to_owned());
    v.push("param_eq".to_owned());
    v.push("param_gt".to_owned());
    v.push("param_lt".to_owned());
    v.push("param_ne".to_owned());
    v.push("param_contains".to_owned());
    v.push("matches".to_owned());
    v.push("spend_gt".to_owned());
    v.push("spend_plus_amount_gt".to_owned());
    v.push("any_of".to_owned());
    v.push("has_credential".to_owned());
    v.push("has_recent_action".to_owned());
    v.push("not".to_owned());
    v.push("or".to_owned());
    assert(v@.map_values(|s: String| s@) =~= known_condition_fns());
    v
}

fn is_known_fn(f: &String) -> (b: bool)
    ensures
        b == known_condition_fns().contains(f@),
{
    let names = known_fn_names();
    let mut i: usize = 0;
    while i < names.len()
        invariant
            i <= names.len(),
            names@.map_values(|s: String| s@) == known_condition_fns(),
            forall|j: int| 0 <= j < i ==> known_condition_fns()[j] != f@,
        decreases names.len() - i,
    {
        assert(known_condition_fns()[i as int] == names@[i as int]@);
        if names[i] == *f {
            return true;
        }
        i += 1;
    }
    false
}

fn regex_diagnostics(label: &String, r: &PolicyRule) -> (v: Vec<ValidationDiagnostic>)
    ensures
        diags_view(v@) == regex_diags(label@, r@),
{
    match compile_pattern(r.tool_pattern.as_str()) {
        Ok(_) => none(),
        Err(_) => {
            let a = concat("Invalid regex '", r.tool_pattern.as_str());
            let e = concat(a.as_str(), "'");
            single(diag_of(label, DiagnosticSeverity::Error, e, "Fix the regex syntax or remove this rule.".to_owned(), true))
        },
    }
}

fn condition_diagnostics(label: &String, cond: &String) -> (v: Vec<ValidationDiagnostic>)
    ensures
        diags_view(v@) == condition_diags(label@, cond@),
{
    let cv = to_chars(cond.as_str());
    assert(cv@.subrange(0, cv.len() as int) =~= cv@);
    let (a, b) = trim_range(&cv, 0, cv.len());
    match find_char(&cv, a, b, '(') {
        None => none(),
        Some(p) => {
            assert(cv@.subrange(a as int, b as int).subrange(0, p - a) =~= cv@.subrange(a as int, p as int));
            let (fa, fb) = trim_range(&cv, a, p);
            let f = string_of(&cv, fa, fb);
            if is_known_fn(&f) {
                return none();
            }
            let names = known_fn_names();
            let a1 = concat("Unknown condition function '", f.as_str());
            let e = concat(a1.as_str(), "'");
            let joined = join_strings(&names, ", ");
            let h1 = concat("Known functions: ", joined.as_str());
            let h = concat(h1.as_str(), ". Remove or replace this condition.");
            single(diag_of(label, DiagnosticSeverity::Error, e, h, false))
        },
    }
}

fn conditions_diagnostics(label: &String, conds: &Vec<String>) -> (v: Vec<ValidationDiagnostic>)
    ensures
        diags_view(v@) == conditions_diags(label@, crate::model::strings_view(conds@)),
{
    let ghost cs = crate::model::strings_view(conds@);
    let mut out = none();
    let mut i: usize = 0;
    while i < conds.len()
        invariant
            i <= conds.len(),
            cs == crate::model::strings_view(conds@),
            diags_view(out@) == conditions_diags(label@, cs.take(i as int)),
        decreases conds.len() - i,
    {
        assert(cs.take(i + 1).drop_last() =~= cs.take(i as int));
        assert(cs.take(i + 1).last() == conds@[i as int]@);
        let part = condition_diagnostics(label, &conds[i]);
        extend(&mut out, part);
        i += 1;
    }
    assert(cs.take(conds.len() as int) =~= cs);
    out
}

fn gate_diagnostics(label: &String, r: &PolicyRule) -> (v: Vec<ValidationDiagnostic>)
    ensures
        diags_view(v@) == gate_diags(label@, r@),
{
    if r.action != Decision::Gate {
        return none();
    }
    match &r.gate {
        None => single(diag_of(label, DiagnosticSeverity::Error, "Action GATE requires 'gate' config".to_owned(),
            "Add gate: { requires_prior: '<tool_name>', within: 50 } to this rule, or remove it.".to_owned(), true)),
        Some(g) => {
            let mut out = if g.requires_prior.as_str().is_empty() {
                single(diag_of(label, DiagnosticSeverity::Error, "gate.requires_prior cannot be empty".to_owned(),
                    "Set gate.requires_prior to the tool or action name that must precede this call.".to_owned(), true))
            } else {
                none()
            };
            let second = if g.within < 1 || g.within > 500 {
                let e = concat("gate.within must be 1-500, got ", decimal_string(g.within as u64).as_str());
                let c: u32 = if g.within < 1 { 1 } else { 500 };
                let h1 = concat("Set gate.within to a value between 1 and 500 (default: 50). Will clamp to ", decimal_string(c as u64).as_str());
                let h = concat(h1.as_str(), " on auto-fix.");
                single(diag_of(label, DiagnosticSeverity::Error, e, h, true))
            } else {
                none()
            };
            extend(&mut out, second);
            out
        },
    }
}

/// The first probe for `check`, as an index.
fn find_probe(probes: &Vec<ScriptProbe>, check: &String) -> (r: Option<usize>)
    ensures
        match r {
            Some(i) => i < probes.len() && probe_for(probes_view(probes@), check@) == Some(probes@[i as int]@),
            None => probe_for(probes_view(probes@), check@) is None,
        },
{
    let ghost pv = probes_view(probes@);
    assert(pv.subrange(0, pv.len() as int) =~= pv);
    let mut i: usize = 0;
    while i < probes.len()
        invariant
            i <= probes.len(),
            pv == probes_view(probes@),
            probe_for(pv.subrange(i as int, pv.len() as int), check@) == probe_for(pv, check@),
        decreases probes.len() - i,
    {
        let ghost rest = pv.subrange(i as int, pv.len() as int);
        assert(rest[0] == probes@[i as int]@);
        assert(rest.drop_first() =~= pv.subrange(i + 1, pv.len() as int));
        if probes[i].check == *check {
            return Some(i);
        }
        i += 1;
    }
    assert(pv.subrange(i as int, pv.len() as int).len() == 0);
    None
}

fn script_diagnostics(label: &String, e: &crate::model::EnsureConfig, probes: &Vec<ScriptProbe>) -> (v: Vec<ValidationDiagnostic>)
    ensures
        diags_view(v@) == script_diags(label@, e@, probes_view(probes@)),
{
    let resolved = match find_probe(probes, &e.check) {
        None => None,
        Some(i) => match resolve_ensure_script_path(e.check.as_str(), &probes[i]) {
            Err(_) => None,
            Ok(path) => Some((path, probes[i].exists, probes[i].not_executable)),
        },
    };
    match resolved {
        None => {
            let a = concat("Cannot resolve ensure script '", e.check.as_str());
            let m = concat(a.as_str(), "' (checks directory may not exist)");
            single(diag_of(label, DiagnosticSeverity::Warning, m,
                "Create ~/.signet/checks/ directory and place your script there.".to_owned(), false))
        },
        Some((path, exists, not_executable)) => {
            if !exists {
                let m = concat("Ensure script not found: ", path.as_str());
                let h1 = concat("Install the script: touch ", path.as_str());
                let h2 = concat(h1.as_str(), " && chmod +x ");
                let h = concat(h2.as_str(), path.as_str());
                single(diag_of(label, DiagnosticSeverity::Warning, m, h, false))
            } else if not_executable {
                let m = concat("Ensure script not executable: ", path.as_str());
                let h = concat("Run: chmod +x ", path.as_str());
                single(diag_of(label, DiagnosticSeverity::Warning, m, h, false))
            } else {
                none()
            }
        },
    }
}

fn ensure_diagnostics(label: &String, r: &PolicyRule, probes: &Vec<ScriptProbe>) -> (v: Vec<ValidationDiagnostic>)
    ensures
        diags_view(v@) == ensure_diags(label@, r@, probes_view(probes@)),
{
    if r.action != Decision::Ensure {
        return none();
    }
    match &r.ensure {
        None => single(diag_of(label, DiagnosticSeverity::Error, "Action ENSURE requires 'ensure' config".to_owned(),
            "Add ensure: { check: '<script_name>', timeout: 5 } to this rule, or remove it.".to_owned(), true)),
        Some(e) => {
            let mut out = match validate_ensure_check_name(e.check.as_str()) {
                Err(err) => single(diag_of(label, DiagnosticSeverity::Error, err,
                    "Check name must be a simple filename (no paths, no special chars).".to_owned(), true)),
                Ok(()) => none(),
            };
            let second = if e.timeout < 1 || e.timeout > 30 {
                let m = concat("ensure.timeout must be 1-30, got ", decimal_string(e.timeout as u64).as_str());
                let c: u32 = if e.timeout < 1 { 1 } else { 30 };
                let h1 = concat("Set ensure.timeout between 1 and 30 seconds. Will clamp to ", decimal_string(c as u64).as_str());
                let h = concat(h1.as_str(), " on auto-fix.");
                single(diag_of(label, DiagnosticSeverity::Error, m, h, true))
            } else {
                none()
            };
            extend(&mut out, second);
            let third = script_diagnostics(label, e, probes);
            extend(&mut out, third);
            out
        },
    }
}

pub(crate) fn rule_diagnostics(i: usize, r: &PolicyRule, probes: &Vec<ScriptProbe>) -> (v: Vec<ValidationDiagnostic>)
    ensures
        diags_view(v@) == rule_diags(i as int, r@, probes_view(probes@)),
{
    let label = if r.name.as_str().is_empty() {
        let a = concat("rule[", decimal_string(i as u64).as_str());
        concat(a.as_str(), "]")
    } else {
        r.name.clone()
    };
    assert(label@ == rule_label(i as int, r@));
    let mut out = regex_diagnostics(&label, r);
    let part = conditions_diagnostics(&label, &r.conditions);
    extend(&mut out, part);
    let part = gate_diagnostics(&label, r);
    extend(&mut out, part);
    let part = ensure_diagnostics(&label, r, probes);
    extend(&mut out, part);
    out
}

/// Validates a policy configuration. `probes` is what the host found on disk
/// for the Ensure scripts; a script without a probe counts as unresolvable.
pub fn validate_policy(config: &PolicyConfig, probes: &Vec<ScriptProbe>) -> (v: Vec<ValidationDiagnostic>)
    ensures
        diags_view(v@) == policy_diags(rules_view(config.rules@), probes_view(probes@)),
{
    let ghost rules = rules_view(config.rules@);
    let mut out = none();
    let mut i: usize = 0;
    while i < config.rules.len()
        invariant
            i <= config.rules.len(),
            rules == rules_view(config.rules@),
            diags_view(out@) == policy_diags(rules.take(i as int), probes_view(probes@)),
        decreases config.rules.len() - i,
    {
        assert(rules.take(i + 1).drop_last() =~= rules.take(i as int));
        assert(rules.take(i + 1).last() == config.rules@[i as int]@);
        let part = rule_diagnostics(i, &config.rules[i], probes);
        extend(&mut out, part);
        i += 1;
    }
    assert(rules.take(config.rules.len() as int) =~= rules);
    out
}

} // verus!
