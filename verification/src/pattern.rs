//! Compiled regular expressions, held together with their pattern text.
//!
//! The regex engine itself is outside code; its two observable results —
//! whether a pattern compiles, and whether it matches a text — are named by
//! uninterpreted spec functions, and the rest of the library reasons over
//! those names.

use vstd::prelude::*;

verus! {

/// Whether the regex crate accepts `pattern` as a valid regular expression
/// under its default configuration. Compilation success is a function of the
/// pattern text alone.
pub uninterp spec fn pattern_compiles(pattern: Seq<char>) -> bool;

/// Whether the regular expression `pattern` matches anywhere in `text`. The
/// result is a function of the pattern text and the searched text alone.
pub uninterp spec fn pattern_matches(pattern: Seq<char>, text: Seq<char>) -> bool;

#[verifier::external_type_specification]
#[verifier::external_body]
pub struct ExRegex(regex::Regex);

#[verifier::external_type_specification]
#[verifier::external_body]
pub struct ExRegexError(regex::Error);

/// A compiled regular expression together with the pattern text it was built
/// from. A `Pattern` is only ever constructed by `Pattern::compile`, so the
/// compiled form always corresponds to the pattern text in its view.
#[derive(Debug)]
pub struct Pattern {
    source: String,
    compiled: regex::Regex,
}

impl View for Pattern {
    type V = Seq<char>;

    closed spec fn view(&self) -> Seq<char> {
        self.source@
    }
}

impl Pattern {
    /// Relies on `regex::Regex::new`: it returns `Ok` exactly when the
    /// pattern text is a valid regular expression (a property of the text
    /// alone), and the compiled value then searches for that pattern.
    #[verifier::external_body]
    pub(crate) fn compile(source: &str) -> (r: Result<Pattern, regex::Error>)
        ensures
            r is Ok <==> pattern_compiles(source@),
            r matches Ok(p) ==> p@ == source@,
    {
        match regex::Regex::new(source) {
            Ok(compiled) => Ok(Pattern { source: source.to_string(), compiled }),
            Err(e) => Err(e),
        }
    }

    /// Relies on `regex::Regex::is_match`: true exactly when the expression
    /// matches anywhere in `text`, a function of the pattern and the text
    /// alone.
    #[verifier::external_body]
    pub(crate) fn is_match(&self, text: &str) -> (r: bool)
        ensures
            r == pattern_matches(self@, text@),
    {
        self.compiled.is_match(text)
    }
}

} // verus!
