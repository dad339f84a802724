//! Regular expressions, through the `regex` crate.
//!
//! The formatting rules are written as regular expressions. What a regular expression
//! search or replacement gives is named here and not spelled out: the names below stand for
//! what the `regex` crate computes on the given pattern and text.
use vstd::prelude::*;

use regex::Regex;

verus! {

/// The text that `Regex::new(pattern)` and then `replace_all(text, rep)` give, with `$n`
/// in `rep` standing for capture group `n`; the text itself where the pattern does not
/// compile.
pub uninterp spec fn regex_replaced(pattern: Seq<char>, text: Seq<char>, rep: Seq<char>) -> Seq<
    char,
>;

/// Whether `Regex::new(pattern)` compiles and `is_match(text)` holds.
pub uninterp spec fn regex_matches(pattern: Seq<char>, text: Seq<char>) -> bool;

/// The leftmost-first match of `pattern` in `text`, as `Regex::find` gives it; `None` where
/// the pattern does not compile.
pub uninterp spec fn regex_first_match(pattern: Seq<char>, text: Seq<char>) -> Option<Seq<char>>;

/// `Regex::replace_all`: every non-overlapping match of `pattern` in `text` becomes `rep`.
/// The contract names the result and says, as the crate's documentation does, that a text
/// without a match comes back unchanged.
#[verifier::external_body]
pub(crate) fn regex_replace_all(pattern: &str, text: &str, rep: &str) -> (r: String)
    ensures
        r@ == regex_replaced(pattern@, text@, rep@),
        !regex_matches(pattern@, text@) ==> r@ == text@,
{
    match Regex::new(pattern) {
        Ok(re) => re.replace_all(text, rep).into_owned(),
        Err(_) => text.to_string(),
    }
}

/// `Regex::is_match`: whether `pattern` matches somewhere in `text`.
#[verifier::external_body]
pub(crate) fn regex_is_match(pattern: &str, text: &str) -> (b: bool)
    ensures
        b == regex_matches(pattern@, text@),
{
    match Regex::new(pattern) {
        Ok(re) => re.is_match(text),
        Err(_) => false,
    }
}

/// `Regex::find`: the text of the first match of `pattern` in `text`. The contract names the
/// result and says that there is one exactly when the pattern matches.
#[verifier::external_body]
pub(crate) fn regex_find(pattern: &str, text: &str) -> (r: Option<String>)
    ensures
        r matches Some(m) ==> regex_first_match(pattern@, text@) == Some(m@),
        r is None ==> regex_first_match(pattern@, text@) is None,
        r is Some <==> regex_matches(pattern@, text@),
{
    match Regex::new(pattern) {
        Ok(re) => match re.find(text) {
            Some(m) => Some(m.as_str().to_string()),
            None => None,
        },
        Err(_) => None,
    }
}

} // verus!
