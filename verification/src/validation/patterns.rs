//! The regular expressions the validator uses, and the calls into the
//! `regex` crate that compile and run them.

use vstd::prelude::*;

verus! {

/// A basic `user@domain.tld` structure.
pub const EMAIL_PATTERN: &'static str = r"^[^\s@]+@[^\s@]+\.[^\s@]+$";

/// Any digit: plain numbers, percentages, amounts, decimals and ranges.
pub const DIGIT_PATTERN: &'static str = r"\d";

/// A recognised action verb at the very start, followed by a word boundary.
pub const ACTION_VERB_PATTERN: &'static str = r"(?i)^(?:led|managed|developed|implemented|architected|engineered|built|created|designed|launched|established|spearheaded|directed|coordinated|optimized|reduced|increased|improved|automated|streamlined|migrated|deployed|configured|delivered|prototyped|pioneered|transformed|executed|championed|authored|maintained|researched|defined|owned|drove|accelerated|consolidated|decoupled|eliminated|enabled|enforced|ensured|evaluated|extended|facilitated|generated|guided|hardened|identified|integrated|introduced|led|lifted|mentored|modernised|modernized|monitored|negotiated|onboarded|optimised|overhauled|partnered|planned|ported|presented|prioritised|prioritized|productionised|productionized|proved|provisioned|published|rebuilt|refactored|replaced|resolved|scaled|secured|shipped|simplified|standardised|standardized|triaged|unified|upgraded|validated|wrote)\b";

/// `YYYY-MM` with an optional `-DD`, or a bare `YYYY`, anywhere in the text.
pub const DATE_PATTERN: &'static str = r"(\d{4})-(\d{2})(?:-\d{2})?|(\d{4})";

/// Any of the weasel words as a whole word, in any case.
pub const WEASEL_PATTERN: &'static str = r"(?i)\b(?:basically|simply|probably|might|could|perhaps|very|really|quite|somewhat|fairly|significantly|various|numerous|highly|excellent)\b";

/// Whether `regex::Regex::new` accepts `pattern`: it is valid syntax and the
/// compiled regex stays within the default size limit.
pub uninterp spec fn regex_compiles(pattern: Seq<char>) -> bool;

/// What `regex::Regex::is_match` answers for the regex compiled from
/// `pattern` on `haystack`: whether it matches anywhere in it.
pub uninterp spec fn regex_is_match(pattern: Seq<char>, haystack: Seq<char>) -> bool;

/// What `regex::Regex::captures` gives for the regex compiled from `pattern`
/// on `haystack`: `None` without a match, else the text of each capture
/// group of the leftmost-first match (group 0 first), `None` for a group
/// that did not take part.
pub uninterp spec fn regex_captures(pattern: Seq<char>, haystack: Seq<char>) -> Option<
    Seq<Option<Seq<char>>>,
>;

/// Calls `regex::Regex::new` and says whether it succeeded; the answer is
/// named `regex_compiles`.
#[verifier::external_body]
pub(crate) fn pattern_compiles(pattern: &str) -> (r: bool)
    ensures
        r == regex_compiles(pattern@),
{
    regex::Regex::new(pattern).is_ok()
}

/// Compiles `pattern` with `regex::Regex::new` and runs
/// `regex::Regex::is_match` on `haystack`: `None` where compiling fails,
/// else the answer, named `regex_is_match`.
#[verifier::external_body]
pub(crate) fn pattern_is_match(pattern: &str, haystack: &str) -> (r: Option<bool>)
    ensures
        r is Some <==> regex_compiles(pattern@),
        r matches Some(b) ==> b == regex_is_match(pattern@, haystack@),
{
    match regex::Regex::new(pattern) {
        Ok(re) => Some(re.is_match(haystack)),
        Err(_) => None,
    }
}

/// Compiles `pattern` with `regex::Regex::new` and runs
/// `regex::Regex::captures` on `haystack`, turning each group's match into
/// its text: `None` where compiling fails, else the groups, named
/// `regex_captures`.
#[verifier::external_body]
pub(crate) fn pattern_captures(pattern: &str, haystack: &str) -> (r: Option<Option<Vec<Option<String>>>>)
    ensures
        r is Some <==> regex_compiles(pattern@),
        r matches Some(c) ==> c.deep_view() == regex_captures(pattern@, haystack@),
{
    match regex::Regex::new(pattern) {
        Ok(re) => Some(re.captures(haystack).map(|caps| caps.iter().map(|m| m.map(|m| m.as_str().to_string())).collect())),
        Err(_) => None,
    }
}

/// The characters that `regex::escape` escapes (`regex_syntax::is_meta_character`).
pub open spec fn is_regex_meta(c: char) -> bool {
    c == '\\' || c == '.' || c == '+' || c == '*' || c == '?' || c == '(' || c == ')' || c == '|'
        || c == '[' || c == ']' || c == '{' || c == '}' || c == '^' || c == '$' || c == '#'
        || c == '&' || c == '-' || c == '~'
}

/// `s` with a backslash put before each meta character.
pub open spec fn regex_escaped(s: Seq<char>) -> Seq<char>
    decreases s.len(),
{
    if s.len() == 0 {
        seq![]
    } else {
        regex_escaped(s.drop_last()) + if is_regex_meta(s.last()) {
            seq!['\\', s.last()]
        } else {
            seq![s.last()]
        }
    }
}

/// Calls `regex::escape`, which puts a backslash before every meta
/// character of `s` and keeps the rest; the contract says exactly that.
#[verifier::external_body]
pub(crate) fn escape_for_regex(s: &str) -> (r: String)
    ensures
        r@ == regex_escaped(s@),
{
    regex::escape(s)
}

} // verus!
