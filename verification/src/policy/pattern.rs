//! Regular-expression matching, done by the `regex` crate.
use vstd::prelude::*;

verus! {

/// What `Regex::is_match` answers for a pattern and a text: `None` where the
/// pattern does not compile.
pub uninterp spec fn regex_match(pattern: Seq<char>, text: Seq<char>) -> Option<bool>;

/// The text that capture group `index` took in the leftmost match of a
/// pattern in a text; `None` where the pattern does not compile, does not
/// match, or the group took no part in the match.
pub uninterp spec fn regex_group(pattern: Seq<char>, text: Seq<char>, index: nat) -> Option<Seq<char>>;

/// Compiles `pattern` with `regex::Regex::new`, asks `Regex::captures` about
/// `text` and `Captures::get` for one group.  Nothing is proved of the
/// matcher: the result is only given its name.
#[verifier::external_body]
pub(crate) fn regex_capture(pattern: &str, text: &str, index: usize) -> (r: Option<String>)
    ensures
        match r {
            Some(group) => regex_group(pattern@, text@, index as nat) == Some(group@),
            None => regex_group(pattern@, text@, index as nat).is_none(),
        },
{
    match regex::Regex::new(pattern) {
        Ok(re) => match re.captures(text) {
            Some(caps) => match caps.get(index) {
                Some(group) => Some(group.as_str().to_string()),
                None => None,
            },
            None => None,
        },
        Err(_) => None,
    }
}

/// Compiles `pattern` with `regex::Regex::new` and asks `Regex::is_match` about
/// `text`.  Nothing is proved of the matcher: the result is only given its name.
#[verifier::external_body]
pub(crate) fn regex_is_match(pattern: &str, text: &str) -> (r: Option<bool>)
    ensures
        r == regex_match(pattern@, text@),
{
    match regex::Regex::new(pattern) {
        Ok(re) => Some(re.is_match(text)),
        Err(_) => None,
    }
}

/// Whether `pattern` compiles and matches somewhere in `text`.
pub fn found(pattern: &str, text: &str) -> (r: bool)
    ensures
        r == (regex_match(pattern@, text@) == Some(true)),
{
    match regex_is_match(pattern, text) {
        Some(b) => b,
        None => false,
    }
}

} // verus!
