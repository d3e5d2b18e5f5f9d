//! Refusing requests that carry markup meant to run in a browser.

use vstd::prelude::*;

verus! {

/// What `regex::Regex::new(pattern)` and then `Regex::is_match(text)` give:
/// none when the pattern does not compile, else whether the regex matches
/// somewhere in the text.
pub uninterp spec fn regex_search(pattern: Seq<char>, text: Seq<char>) -> Option<bool>;

/// Searches `text` for `pattern`, through `regex::Regex::new` and
/// `Regex::is_match`. The claim: the outcome depends on the pattern and the
/// text alone (compilation fails the same way every time, and a compiled
/// regex answers the same for the same text).
#[verifier::external_body]
fn regex_matches(pattern: &str, text: &str) -> (r: Option<bool>)
    ensures
        r == regex_search(pattern@, text@),
{
    regex::Regex::new(pattern).ok().map(|re| re.is_match(text))
}

/// The pattern of an opening `script` tag, in any letter case, with spaces
/// allowed after the `<`.
pub open spec fn script_tag_pattern() -> Seq<char> {
    "(?i)<\\s*script\\b[^>]*>"@
}

/// Whether a request's text carries an opening `script` tag: the request is
/// then refused.
pub fn carries_script_tag(text: &str) -> (b: bool)
    ensures
        b == (regex_search(script_tag_pattern(), text@) == Some(true)),
{
    let pattern = "(?i)<\\s*script\\b[^>]*>";
    proof {
        reveal_strlit("(?i)<\\s*script\\b[^>]*>");
    }
    match regex_matches(pattern, text) {
        Some(found) => found,
        None => false,
    }
}

} // verus!
