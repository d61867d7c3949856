//! The calls into the `regex` crate: whether a pattern matches a text, and the first three
//! capture groups of its first match.
use vstd::prelude::*;

use crate::checks::{
    boot_tool_status_matches, debconf_removable_set, BOOT_TOOL_PATTERN, DEBCONF_REMOVABLE_PATTERN,
};
use crate::upgrade::{opt_chars, META_VERSION_PATTERN};

verus! {

/// Whether the regular expression `pattern` matches somewhere in `text`.
pub uninterp spec fn regex_matches(pattern: Seq<char>, text: Seq<char>) -> bool;

/// Capture groups 1 to 3 of the first match of the regular expression `pattern` in `text`, or
/// `None` when it does not match.
pub uninterp spec fn regex_groups3(pattern: Seq<char>, text: Seq<char>) -> Option<
    (Option<Seq<char>>, Option<Seq<char>>, Option<Seq<char>>),
>;

/// The characters of optional captures.
pub open spec fn captures_view(c: Option<(Option<String>, Option<String>, Option<String>)>) -> Option<
    (Option<Seq<char>>, Option<Seq<char>>, Option<Seq<char>>),
> {
    match c {
        Some((a, b, d)) => Some((opt_chars(a), opt_chars(b), opt_chars(d))),
        None => None,
    }
}

/// A successful answer `b`.
pub open spec fn ok_bool(b: bool) -> Result<bool, String> {
    Ok(b)
}

/// Whether `pattern` matches somewhere in `text` (`regex::Regex::new`, then `Regex::is_match`),
/// or the text of regex's error when the pattern does not compile. The library's two fixed
/// patterns are valid and small, so they compile; what they match is stated: `.` is any
/// character but a line feed, `$` the end of the text.
#[verifier::external_body]
pub(crate) fn regex_is_match(pattern: &str, text: &str) -> (r: Result<bool, String>)
    ensures
        r matches Ok(b) ==> b == regex_matches(pattern@, text@),
        pattern@ == BOOT_TOOL_PATTERN@ ==> r == ok_bool(boot_tool_status_matches(text@)),
        pattern@ == DEBCONF_REMOVABLE_PATTERN@ ==> r == ok_bool(debconf_removable_set(text@)),
{
    match regex::Regex::new(pattern) {
        Ok(re) => Ok(re.is_match(text)),
        Err(e) => Err(e.to_string()),
    }
}

/// Capture groups 1 to 3 of the first match of `pattern` in `text` (`regex::Regex::new`, then
/// `Regex::captures` and `Captures::get`), `None` when it does not match, or the text of regex's
/// error when the pattern does not compile. The library's version pattern is valid and small, so
/// it compiles, and each of its groups takes part in any match; what it matches is only named, as
/// its `\d` is any Unicode decimal digit.
#[verifier::external_body]
pub(crate) fn regex_captures3(pattern: &str, text: &str) -> (r: Result<
    Option<(Option<String>, Option<String>, Option<String>)>,
    String,
>)
    ensures
        r matches Ok(c) ==> captures_view(c) == regex_groups3(pattern@, text@),
        pattern@ == META_VERSION_PATTERN@ ==> r is Ok,
        pattern@ == META_VERSION_PATTERN@ ==> (r matches Ok(Some((a, b, d))) ==> a is Some
            && b is Some && d is Some),
{
    let re = match regex::Regex::new(pattern) {
        Ok(re) => re,
        Err(e) => return Err(e.to_string()),
    };
    let group = |c: &regex::Captures, i: usize| c.get(i).map(|m| m.as_str().to_string());
    Ok(re.captures(text).map(|c| (group(&c, 1), group(&c, 2), group(&c, 3))))
}

} // verus!
