# signet_eval

A deterministic policy engine for the tool calls of an AI agent, verified
with Verus. A policy is a list of rules; each rule has a regex over the tool
name, a list of conditions over the call's JSON parameters, and an action
(ALLOW, DENY, ASK, GATE or ENSURE). The first rule whose pattern matches and
whose conditions all hold decides; otherwise the policy's default applies.

## Layout

- `src/` — the verified library.
  - `model.rs`: the configuration and result types and their views.
  - `text.rs`, `syntax.rs`: character-level helpers and the surface syntax
    of conditions (calls, quoted literals, top-level separators).
  - `pattern.rs`, `json.rs`, `clock.rs`: the calls into `regex`,
    `serde_json` and the clock, behind trusted wrappers.
  - `facts.rs`: the facts only the host can supply (numeric comparisons,
    vault queries), asked for one at a time.
  - `condition.rs`: the condition language, specified by `eval_condition`.
  - `engine.rs`: compiling a policy and evaluating a call (`evaluate`).
  - `validate.rs`, `fix.rs`: validation with fix hints, and automatic repair.
  - `defaults.rs`: the built-in self-protection rules and safe defaults, and
    the merge of system and user rules.
  - `laws.rs`, `repair_laws.rs`: properties proved across the operations:
    first match wins, the merge order of system and user rules, `not` and
    `or`, `param_eq`/`param_ne`, that appended or non-matching rules change
    no decision, that evaluation is deterministic, that repair keeps every
    locked rule unchanged and in order, removes exactly the broken unlocked
    rules (reporting each label once), and is idempotent.
- `app/` — plain Rust around the library: YAML files (serde copies of the
  configuration types), the host that answers floating-point and vault
  questions, and the probing of Ensure scripts on disk.
- `tests/` — tests of the library through its public API.
