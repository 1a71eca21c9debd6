//! Regular expressions, as the `regex` crate compiles and runs them.
//!
//! The patterns of a configuration are written by its user, so what they match
//! is not stated here: it is named. Every search compiles its pattern without
//! regard to case, as all patterns of a configuration are meant.

use vstd::prelude::*;

verus! {

/// The error of the `regex` crate for a pattern that it does not compile.
#[verifier::external_type_specification]
#[verifier::external_body]
pub struct ExRegexError(regex::Error);

/// Whether `RegexBuilder::build` compiles `pattern`, case ignored.
pub uninterp spec fn pattern_compiles(pattern: Seq<char>) -> bool;

/// Whether `Regex::is_match` finds `pattern`, case ignored, anywhere in `text`.
pub uninterp spec fn pattern_matches(pattern: Seq<char>, text: Seq<char>) -> bool;

/// What group number `group` holds in the captures that `Regex::captures`
/// returns for the leftmost match of `pattern`, case ignored, in `text`; `None`
/// without a match and where the group took no part in it.
pub uninterp spec fn pattern_group(pattern: Seq<char>, text: Seq<char>, group: nat) -> Option<
    Seq<char>,
>;

/// What `Regex::replace_all` makes of `text` when every match of `pattern`,
/// case ignored, is replaced by the characters of `with` as they stand.
pub uninterp spec fn pattern_replaced(pattern: Seq<char>, text: Seq<char>, with: Seq<char>) -> Seq<
    char,
>;

/// `RegexBuilder::build` and `Regex::is_match`: compiles `pattern` without
/// regard to case and searches `text` for it. The error is the one of the
/// build; a compiled pattern always gives an answer.
#[verifier::external_body]
pub(crate) fn search(pattern: &str, text: &str) -> (r: Result<bool, regex::Error>)
    ensures
        r is Ok <==> pattern_compiles(pattern@),
        r matches Ok(found) ==> found == pattern_matches(pattern@, text@),
{
    let re = regex::RegexBuilder::new(pattern).case_insensitive(true).build()?;
    Ok(re.is_match(text))
}

/// `RegexBuilder::build` and `Regex::captures`: compiles `pattern` without
/// regard to case and hands out the text of one group of its leftmost match in
/// `text`.
#[verifier::external_body]
pub(crate) fn capture(pattern: &str, text: &str, group: usize) -> (r: Result<
    Option<String>,
    regex::Error,
>)
    ensures
        r is Ok <==> pattern_compiles(pattern@),
        r matches Ok(found) ==> found.deep_view() == pattern_group(
            pattern@,
            text@,
            group as nat,
        ),
{
    let re = regex::RegexBuilder::new(pattern).case_insensitive(true).build()?;
    match re.captures(text) {
        Some(captures) => match captures.get(group) {
            Some(found) => Ok(Some(found.as_str().to_string())),
            None => Ok(None),
        },
        None => Ok(None),
    }
}

/// `RegexBuilder::build` and `Regex::replace_all`: compiles `pattern` without
/// regard to case and replaces each of its matches in `text` by `with`, in
/// which no `$` is expanded.
#[verifier::external_body]
pub(crate) fn replace_every(pattern: &str, text: &str, with: &str) -> (r: Result<
    String,
    regex::Error,
>)
    ensures
        r is Ok <==> pattern_compiles(pattern@),
        r matches Ok(out) ==> out@ == pattern_replaced(pattern@, text@, with@),
{
    let re = regex::RegexBuilder::new(pattern).case_insensitive(true).build()?;
    Ok(re.replace_all(text, regex::NoExpand(with)).into_owned())
}

} // verus!
