//! Regular expressions, compiled and matched by the `regex` crate.
//!
//! A `CompiledPattern` can only be built by `compile_pattern`, which keeps
//! the source text beside the compiled automaton; the contracts of the
//! matching functions are stated over that source text.

use vstd::prelude::*;

verus! {

#[verifier::external_type_specification]
#[verifier::external_body]
pub struct ExRegex(regex::Regex);

/// What `regex::Regex::new` gives for `pattern`: success, or the text of the
/// error (its `Display`).
pub uninterp spec fn regex_new_outcome(pattern: Seq<char>) -> Result<(), Seq<char>>;

/// Whether the regex compiled from `pattern` matches anywhere in `haystack`
/// (`regex::Regex::is_match`).
pub uninterp spec fn regex_is_match(pattern: Seq<char>, haystack: Seq<char>) -> bool;

/// `regex::Regex::replace_all` of the regex compiled from `pattern`.
pub uninterp spec fn regex_replace_all(
    pattern: Seq<char>,
    haystack: Seq<char>,
    replacement: Seq<char>,
) -> Seq<char>;

/// A regex together with the pattern it was compiled from.
#[derive(Debug)]
pub struct CompiledPattern {
    regex: regex::Regex,
    source: String,
}

impl View for CompiledPattern {
    type V = Seq<char>;

    closed spec fn view(&self) -> Seq<char> {
        self.source@
    }
}

/// `regex::Regex::new`. Trusted: succeeds exactly when `regex_new_outcome`
/// says so, and on failure returns the error's `Display` text; the value it
/// returns remembers `pattern`.
#[verifier::external_body]
pub(crate) fn compile_pattern(pattern: &str) -> (r: Result<CompiledPattern, String>)
    ensures
        match r {
            Ok(p) => p@ == pattern@ && regex_new_outcome(pattern@) is Ok,
            Err(e) => regex_new_outcome(pattern@) == Err::<(), Seq<char>>(e@),
        },
{
    match regex::Regex::new(pattern) {
        Ok(regex) => Ok(CompiledPattern { regex, source: pattern.to_string() }),
        Err(e) => Err(e.to_string()),
    }
}

impl CompiledPattern {
    /// `regex::Regex::is_match`. Trusted: the answer is `regex_is_match` of
    /// the source pattern and the haystack.
    #[verifier::external_body]
    pub(crate) fn is_match(&self, haystack: &str) -> (b: bool)
        ensures
            b == regex_is_match(self@, haystack@),
    {
        self.regex.is_match(haystack)
    }

    /// `regex::Regex::replace_all`. Trusted: the result is `regex_replace_all`
    /// of the source pattern, the haystack and the replacement.
    #[verifier::external_body]
    pub(crate) fn replace_all(&self, haystack: &str, replacement: &str) -> (r: String)
        ensures
            r@ == regex_replace_all(self@, haystack@, replacement@),
    {
        self.regex.replace_all(haystack, replacement).into_owned()
    }
}

/// The characters that `regex::escape` prefixes with a backslash.
pub open spec fn is_regex_meta(c: char) -> bool {
    c == '\\' || c == '.' || c == '+' || c == '*' || c == '?' || c == '(' || c == ')' || c == '|'
        || c == '[' || c == ']' || c == '{' || c == '}' || c == '^' || c == '$' || c == '#' || c
        == '&' || c == '-' || c == '~'
}

/// `regex::escape`: every meta character gets a backslash in front of it.
pub open spec fn regex_escape(s: Seq<char>) -> Seq<char>
    decreases s.len(),
{
    if s.len() == 0 {
        Seq::empty()
    } else if is_regex_meta(s.last()) {
        regex_escape(s.drop_last()).push('\\').push(s.last())
    } else {
        regex_escape(s.drop_last()).push(s.last())
    }
}

/// `regex::escape`. Trusted: it escapes exactly the meta characters.
#[verifier::external_body]
pub(crate) fn escape(text: &str) -> (r: String)
    ensures
        r@ == regex_escape(text@),
{
    regex::escape(text)
}

} // verus!
