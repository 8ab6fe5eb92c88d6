//! Search patterns: regular expressions compiled by the `regex` crate,
//! matched against entry names.
use regex::Regex;
use vstd::prelude::*;

verus! {

#[verifier::external_type_specification]
#[verifier::external_body]
pub struct ExRegex(Regex);

/// What compiling `source` as a regular expression gives: `None` when it
/// compiles, otherwise the text of the compiler's error.
pub uninterp spec fn regex_compile_error(source: Seq<char>) -> Option<Seq<char>>;

/// Whether the regular expression `source` matches somewhere in `text`.
pub uninterp spec fn regex_is_match(source: Seq<char>, text: Seq<char>) -> bool;

/// Relies on `regex::Regex::new`, which compiles `source` or fails with an
/// error, and on that error's `Display` text.
#[verifier::external_body]
fn compile_regex(source: &str) -> (r: Result<Regex, String>)
    ensures
        match r {
            Ok(_) => regex_compile_error(source@) is None,
            Err(e) => regex_compile_error(source@) == Some(e@),
        },
{
    match Regex::new(source) {
        Ok(regex) => Ok(regex),
        Err(e) => Err(e.to_string()),
    }
}

/// A compiled regular expression together with the text it was compiled from.
/// Its fields are private and `Pattern::new` is its only constructor, so
/// `regex` is always what compiling `source` gave.
pub struct Pattern {
    regex: Regex,
    source: String,
}

/// Relies on `regex::Regex::is_match`: whether the expression matches
/// anywhere in `text`.
#[verifier::external_body]
fn regex_matches(p: &Pattern, text: &str) -> (r: bool)
    ensures
        r == regex_is_match(p@, text@),
{
    p.regex.is_match(text)
}

impl View for Pattern {
    type V = Seq<char>;

    /// The text the expression was compiled from.
    closed spec fn view(&self) -> Seq<char> {
        self.source@
    }
}

impl Pattern {
    /// Compiles `source`; on failure, returns the compiler's message.
    pub fn new(source: &str) -> (r: Result<Pattern, String>)
        ensures
            match r {
                Ok(p) => p@ == source@ && regex_compile_error(source@) is None,
                Err(e) => regex_compile_error(source@) == Some(e@),
            },
    {
        match compile_regex(source) {
            Ok(regex) => Ok(Pattern { regex, source: source.to_owned() }),
            Err(e) => Err(e),
        }
    }

    /// The text the expression was compiled from.
    pub fn as_str(&self) -> (r: &str)
        ensures
            r@ == self@,
    {
        self.source.as_str()
    }

    /// Whether the expression matches somewhere in `text`; no anchoring is
    /// added.
    pub fn is_match(&self, text: &str) -> (r: bool)
        ensures
            r == regex_is_match(self@, text@),
    {
        regex_matches(self, text)
    }
}

} // verus!
