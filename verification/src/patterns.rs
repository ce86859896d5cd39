//! Calls into the `regex` crate. Each call compiles its pattern and applies
//! it once; the results are named by uninterpreted functions of the inputs.
use vstd::prelude::*;

verus! {

/// What `regex::Regex::new(pattern)` followed by `replace_all(text, replacement)`
/// yields, or `None` where the pattern does not compile.
pub uninterp spec fn regex_replace_all_result(
    pattern: Seq<char>,
    text: Seq<char>,
    replacement: Seq<char>,
) -> Option<Seq<char>>;

/// Compiles `pattern` with `regex::Regex::new` and applies
/// `Regex::replace_all(text, replacement)`. The contract only ties the result
/// to the three inputs through [`regex_replace_all_result`]; what the regex
/// engine matches is not stated.
#[verifier::external_body]
pub(crate) fn regex_replace_all(pattern: &str, text: &str, replacement: &str) -> (res: Option<String>)
    ensures
        match res {
            Some(r) => regex_replace_all_result(pattern@, text@, replacement@) == Some(r@),
            None => regex_replace_all_result(pattern@, text@, replacement@) is None,
        },
{
    match regex::Regex::new(pattern) {
        Ok(re) => Some(re.replace_all(text, replacement).into_owned()),
        Err(_) => None,
    }
}

/// What `regex::Regex::new(pattern)` followed by `is_match(text)` yields, or
/// `None` where the pattern does not compile.
pub uninterp spec fn regex_is_match_result(pattern: Seq<char>, text: Seq<char>) -> Option<bool>;

/// Compiles `pattern` with `regex::Regex::new` and applies `Regex::is_match(text)`.
#[verifier::external_body]
pub(crate) fn regex_is_match(pattern: &str, text: &str) -> (res: Option<bool>)
    ensures
        res == regex_is_match_result(pattern@, text@),
{
    match regex::Regex::new(pattern) {
        Ok(re) => Some(re.is_match(text)),
        Err(_) => None,
    }
}

/// What `regex::Regex::new(pattern)` followed by `captures(text)` gives for
/// the first capture group: `None` where the pattern does not compile,
/// `Some(None)` where nothing matches or the group took no part in the
/// match, and `Some(Some(g))` with the group's text otherwise.
pub uninterp spec fn regex_first_group_result(pattern: Seq<char>, text: Seq<char>) -> Option<
    Option<Seq<char>>,
>;

/// Compiles `pattern` with `regex::Regex::new` and takes group 1 of
/// `Regex::captures(text)`.
#[verifier::external_body]
pub(crate) fn regex_first_group(pattern: &str, text: &str) -> (res: Option<Option<String>>)
    ensures
        match res {
            None => regex_first_group_result(pattern@, text@) is None,
            Some(None) => regex_first_group_result(pattern@, text@) == Some(None::<Seq<char>>),
            Some(Some(g)) => regex_first_group_result(pattern@, text@) == Some(Some(g@)),
        },
{
    match regex::Regex::new(pattern) {
        Ok(re) => Some(re.captures(text).and_then(|c| c.get(1)).map(|m| m.as_str().to_string())),
        Err(_) => None,
    }
}

} // verus!
