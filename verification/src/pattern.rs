//! Regular expressions, as the regex crate reads them.

use crate::composer;
use vstd::prelude::*;

verus! {

/// A compiled regular expression of the regex crate.
#[verifier::external_type_specification]
#[verifier::external_body]
pub struct ExRegex(regex::Regex);

/// Why the regex crate refused a pattern.
#[verifier::external_type_specification]
#[verifier::external_body]
pub struct ExRegexError(regex::Error);

/// Why a pattern does not compile, in the words of the regex crate; `None` where it
/// compiles.
pub uninterp spec fn pattern_error(pattern: Seq<char>) -> Option<Seq<char>>;

/// The texts in which a pattern that compiles has a match.
pub uninterp spec fn pattern_matches(pattern: Seq<char>) -> Set<Seq<char>>;

/// The texts in which a compiled expression has a match.
pub uninterp spec fn regex_matches(re: regex::Regex) -> Set<Seq<char>>;

/// The text of an error.
pub uninterp spec fn regex_error_text(error: regex::Error) -> Seq<char>;

/// `regex::Regex::new` compiles a pattern. Whether it does, and what the expression
/// then matches, depends on the pattern alone; which patterns compile and what they
/// match is the grammar of the regex crate, and is named here, not written out.
#[verifier::external_body]
fn compile(pattern: &str) -> (r: Result<regex::Regex, regex::Error>)
    ensures
        match r {
            Ok(re) => pattern_error(pattern@) is None && regex_matches(re) == pattern_matches(
                pattern@,
            ),
            Err(error) => pattern_error(pattern@) == Some(regex_error_text(error)),
        },
{
    regex::Regex::new(pattern)
}

/// `regex::Regex::is_match` says whether there is a match anywhere in a text.
#[verifier::external_body]
fn is_match(re: &regex::Regex, text: &str) -> (r: bool)
    ensures
        r == regex_matches(*re).contains(text@),
{
    re.is_match(text)
}

/// `regex::Error` as text.
#[verifier::external_body]
fn error_text(error: &regex::Error) -> (r: String)
    ensures
        r@ == regex_error_text(*error),
{
    error.to_string()
}

/// Why a pattern does not compile, if it does not.
pub fn check_pattern(pattern: &str) -> (r: Option<String>)
    ensures
        composer::opt_text(r) == pattern_error(pattern@),
{
    match compile(pattern) {
        Ok(_) => None,
        Err(error) => Some(error_text(&error)),
    }
}

/// Whether a pattern compiles and has a match in a text.
pub open spec fn matches_in(pattern: Seq<char>, text: Seq<char>) -> bool {
    pattern_error(pattern) is None && pattern_matches(pattern).contains(text)
}

/// For each text, whether a pattern compiles and has a match in it.
pub fn match_all(pattern: &str, list: &Vec<String>) -> (r: Vec<bool>)
    ensures
        r@.len() == list@.len(),
        forall|i: int| 0 <= i < list@.len() ==> #[trigger] r@[i] == matches_in(pattern@, list@[i]@),
{
    let compiled = compile(pattern);
    let mut r: Vec<bool> = Vec::new();
    for i in 0..list.len()
        invariant
            r@.len() == i,
            match compiled {
                Ok(re) => pattern_error(pattern@) is None && regex_matches(re) == pattern_matches(
                    pattern@,
                ),
                Err(error) => pattern_error(pattern@) is Some,
            },
            forall|j: int| 0 <= j < i ==> #[trigger] r@[j] == matches_in(pattern@, list@[j]@),
    {
        let hit = match &compiled {
            Ok(re) => is_match(re, list[i].as_str()),
            Err(_) => false,
        };
        r.push(hit);
    }
    r
}

} // verus!
