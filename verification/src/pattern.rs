//! Regular expressions, compiled and run by the `regex` crate.
//!
//! What a regular expression matches is not restated here: the results of
//! the `regex` crate are named (`regex_compiles`, `regex_is_match`,
//! `regex_replace_all`), and the logic of the library is verified over
//! those names.

use vstd::prelude::*;

verus! {

#[verifier::external_type_specification]
#[verifier::external_body]
pub struct ExRegex(regex::Regex);

/// Whether `regex::Regex::new` accepts `pattern` (it rejects invalid
/// patterns and those whose compiled form exceeds the default size limit).
pub uninterp spec fn regex_compiles(pattern: Seq<char>) -> bool;

/// What `regex::Regex::is_match` returns, for the regex compiled from
/// `pattern`, on `text`: whether the regex matches anywhere in `text`.
pub uninterp spec fn regex_is_match(pattern: Seq<char>, text: Seq<char>) -> bool;

/// What `regex::Regex::replace_all` returns, for the regex compiled from
/// `pattern`, on `text` with the replacement string `replacement`.
pub uninterp spec fn regex_replace_all(
    pattern: Seq<char>,
    text: Seq<char>,
    replacement: Seq<char>,
) -> Seq<char>;

/// A regular expression together with the pattern it was compiled from.
///
/// Values are made by `compile_pattern` alone, so `regex` is always
/// `regex::Regex::new(source)`.
pub(crate) struct CompiledPattern {
    source: String,
    regex: regex::Regex,
}

impl CompiledPattern {
    /// The pattern this regular expression was compiled from.
    pub(crate) closed spec fn source(&self) -> Seq<char> {
        self.source@
    }
}

/// Compiles `pattern` with `regex::Regex::new`.
/// Trusted: the result is `Some` exactly when `Regex::new` returns `Ok`,
/// and then it holds that regex and `pattern` as its source.
#[verifier::external_body]
pub(crate) fn compile_pattern(pattern: &str) -> (res: Option<CompiledPattern>)
    ensures
        res.is_some() == regex_compiles(pattern@),
        res matches Some(c) ==> c.source() == pattern@,
{
    match regex::Regex::new(pattern) {
        Ok(regex) => Some(CompiledPattern { source: pattern.to_string(), regex }),
        Err(_) => None,
    }
}

/// Runs `regex::Regex::is_match` on `text`.
/// Trusted: the result is the named `regex_is_match` of the source pattern and `text`.
#[verifier::external_body]
pub(crate) fn pattern_is_match(re: &CompiledPattern, text: &str) -> (res: bool)
    ensures
        res == regex_is_match(re.source(), text@),
{
    re.regex.is_match(text)
}

/// Runs `regex::Regex::replace_all` on `text` with `replacement`.
/// Trusted: the result is the named `regex_replace_all` of the source pattern,
/// `text` and `replacement`; as the crate documents, `text` comes back
/// unchanged when the regex does not match it.
#[verifier::external_body]
pub(crate) fn pattern_replace_all(re: &CompiledPattern, text: &str, replacement: &str) -> (res: String)
    ensures
        res@ == regex_replace_all(re.source(), text@, replacement@),
        !regex_is_match(re.source(), text@) ==> res@ == text@,
{
    re.regex.replace_all(text, replacement).to_string()
}

} // verus!
