//! The regular-expression engine behind the dice-expression parser.

use vstd::prelude::*;

verus! {

/// The shape of a dice expression as a regular expression: an optional digit
/// run, the letter `d`, a digit run, and an optional modifier suffix, with
/// nothing before or after.
pub const DICE_PATTERN: &'static str = "^([0-9]+)?d([0-9]+)([A-Za-z][A-Za-z0-9]*)?$";

/// What the regular-expression engine finds for `pattern` in `text`.
///
/// `None` where the pattern does not compile or matches nowhere in the text.
/// Otherwise the capture groups of the leftmost match, one entry per group in
/// the order of their opening parentheses, group 0 being the whole match; an
/// entry holds the text its group matched, or `None` where the group took no
/// part in the match.
pub uninterp spec fn pattern_groups(pattern: Seq<char>, text: Seq<char>) -> Option<
    Seq<Option<Seq<char>>>,
>;

/// Compiles `pattern` with `regex::Regex::new`, searches `text` with
/// `Regex::captures`, and copies out what `Captures::iter` yields, each match
/// as the string that `Match::as_str` gives. The pattern is compiled anew on
/// every call.
///
/// The contract is claimed for [`DICE_PATTERN`] only. It says that the
/// outcome depends on the two strings and on nothing else, and gives that
/// outcome the name [`pattern_groups`]. What the groups hold is not assumed:
/// callers check it.
#[verifier::external_body]
pub(crate) fn capture_groups(pattern: &str, text: &str) -> (groups: Option<Vec<Option<String>>>)
    requires
        pattern@ == DICE_PATTERN@,
    ensures
        groups.deep_view() == pattern_groups(pattern@, text@),
{
    let compiled = regex::Regex::new(pattern).ok()?;
    let found = compiled.captures(text)?;
    Some(found.iter().map(|group| group.map(|m| m.as_str().to_owned())).collect())
}

} // verus!
