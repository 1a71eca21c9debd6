//! Escapes: comments that switch off checks for the entry behind them.
//!
//! `<!-- clu-disable-next-line -->` silences every problem of the next
//! entry, `<!-- clu-disable-next-line-duplicate-pr -->` only the one about a
//! pull request that was seen before. A colon and any text may follow the
//! word.

use crate::text::{contains_from, find_from, has_at, match_at, run_end, scan_run, to_chars, Class};
use vstd::prelude::*;

verus! {

/// The escapes that a comment can hold.
#[derive(Clone, Copy, Debug, PartialEq, Eq)]
pub enum LinterEscape {
    /// No problem of the next entry is reported.
    FullLine,
    /// The next entry may name a pull request that was seen before.
    DuplicatePR,
}

/// Whether a comment that begins at index `i` holds the directive `word`: the
/// word follows the opening of the comment, after any white space, and the
/// comment is closed behind it, either after white space only or somewhere
/// behind a colon and at least one more character.
pub open spec fn directive_at(s: Seq<char>, i: int, word: Seq<char>) -> bool {
    let from = run_end(s, i + 4, Class::Space);
    let to = from + word.len();
    &&& has_at(s, i, "<!--"@)
    &&& has_at(s, from, word)
    &&& {
        ||| has_at(s, run_end(s, to, Class::Space), "-->"@)
        ||| to < s.len() && s[to] == ':' && contains_from(s, to + 2, "-->"@)
    }
}

/// Whether a comment somewhere in `s` holds the directive `word`.
pub open spec fn has_directive(s: Seq<char>, word: Seq<char>) -> bool {
    exists|i: int| directive_at(s, i, word)
}

/// The escape that a line holds. Where it holds both, the one for pull
/// requests counts.
pub open spec fn escape_of(s: Seq<char>) -> Option<LinterEscape> {
    if has_directive(s, "clu-disable-next-line-duplicate-pr"@) {
        Some(LinterEscape::DuplicatePR)
    } else if has_directive(s, "clu-disable-next-line"@) {
        Some(LinterEscape::FullLine)
    } else {
        None
    }
}

/// Tests whether a comment that begins at index `i` holds the directive.
fn check_directive_at(v: &Vec<char>, i: usize, word: &str, length: usize) -> (r: bool)
    requires
        i <= v.len(),
        length == word@.len(),
    ensures
        r == directive_at(v@, i as int, word@),
{
    if !match_at(v, i, "<!--") {
        return false;
    }
    proof {
        reveal_strlit("<!--");
    }
    let from = scan_run(v, i + 4, Class::Space);
    if !match_at(v, from, word) {
        return false;
    }
    let to = from + length;
    let close = scan_run(v, to, Class::Space);
    if match_at(v, close, "-->") {
        return true;
    }
    if to < v.len() && v[to] == ':' {
        if v.len() - to >= 2 {
            return find_from(v, to + 2, "-->");
        }
        assert forall|j: int| to + 2 <= j implies !has_at(v@, j, "-->"@) by {}
        return false;
    }
    false
}

/// Tests whether a comment somewhere in `v` holds the directive.
fn check_directive(v: &Vec<char>, word: &str) -> (r: bool)
    ensures
        r == has_directive(v@, word@),
{
    let length = to_chars(word).len();
    let mut i: usize = 0;
    while i < v.len()
        invariant
            i <= v.len(),
            length == word@.len(),
            forall|j: int| 0 <= j < i ==> !directive_at(v@, j, word@),
        decreases v.len() - i,
    {
        if check_directive_at(v, i, word, length) {
            return true;
        }
        i += 1;
    }
    proof {
        reveal_strlit("<!--");
        assert forall|j: int| !directive_at(v@, j, word@) by {
            if j < 0 || j >= v.len() {
                assert(!has_at(v@, j, "<!--"@));
            }
        }
    }
    false
}

/// Reads the escape that a line holds, if it holds one.
pub fn check_escape_pattern(line: &str) -> (r: Option<LinterEscape>)
    ensures
        r == escape_of(line@),
{
    let v = to_chars(line);
    if check_directive(&v, "clu-disable-next-line-duplicate-pr") {
        return Some(LinterEscape::DuplicatePR);
    }
    if check_directive(&v, "clu-disable-next-line") {
        return Some(LinterEscape::FullLine);
    }
    None
}

} // verus!
