//! Regular expressions, as the `regex` crate matches them.

use vstd::prelude::*;

verus! {

/// `text` with every match of `pattern` replaced by `replacement`, as the
/// `regex` crate replaces; `None` where it does not accept the pattern.
pub uninterp spec fn regex_replaced(
    pattern: Seq<char>,
    text: Seq<char>,
    replacement: Seq<char>,
) -> Option<Seq<char>>;

/// The leftmost match of `pattern` in `text`, as the `regex` crate finds it;
/// `None` where there is no match or it does not accept the pattern.
pub uninterp spec fn regex_first_match(pattern: Seq<char>, text: Seq<char>) -> Option<Seq<char>>;

/// Compiles `pattern` with `regex::Regex::new` and runs `Regex::replace_all` on
/// `text`. The contract only names the outcome: it is the named result of the
/// three arguments, `None` standing for a pattern that did not compile.
#[verifier::external_body]
pub(crate) fn replace_all(pattern: &str, text: &str, replacement: &str) -> (r: Option<String>)
    ensures
        match r {
            Some(s) => regex_replaced(pattern@, text@, replacement@) == Some(s@),
            None => regex_replaced(pattern@, text@, replacement@).is_none(),
        },
{
    regex::Regex::new(pattern).ok().map(|re| re.replace_all(text, replacement).to_string())
}

/// Compiles `pattern` with `regex::Regex::new` and takes the text of the match
/// that `Regex::find` returns. The contract only names the outcome: it is the
/// named result of the two arguments.
#[verifier::external_body]
pub(crate) fn first_match(pattern: &str, text: &str) -> (r: Option<String>)
    ensures
        match r {
            Some(s) => regex_first_match(pattern@, text@) == Some(s@),
            None => regex_first_match(pattern@, text@).is_none(),
        },
{
    regex::Regex::new(pattern).ok().and_then(|re| re.find(text).map(|m| m.as_str().to_string()))
}

} // verus!
