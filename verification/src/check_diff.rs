//! Whether a pull request brought its own entry to the changelog.

use crate::add::{first_unreleased, release_holds_pr, release_names_pr};
use crate::changelog::{split_lines, Changelog, ChangelogView};
use crate::errors::CheckDiffError;
use crate::text::{contains_text, decimal, find_text, lines_of, push_decimal, push_text, slice_string, to_chars};
use vstd::prelude::*;
use vstd::string::*;

verus! {

/// What the first `n` of the given lines of a diff add: the lines that begin
/// with `+`, without it.
pub open spec fn added_lines(lines: Seq<Seq<char>>, n: nat) -> Seq<Seq<char>>
    decreases n,
{
    if n == 0 {
        seq![]
    } else {
        let before = added_lines(lines, (n - 1) as nat);
        let line = lines[n - 1];
        if line.len() > 0 && line[0] == '+' {
            before.push(line.subrange(1, line.len() as int))
        } else {
            before
        }
    }
}

/// What a diff adds.
pub open spec fn additions(diff: Seq<char>) -> Seq<Seq<char>> {
    added_lines(lines_of(diff), lines_of(diff).len())
}

/// The lines that a diff adds.
pub fn get_additions(diff: &str) -> (added: Vec<String>)
    ensures
        added.deep_view() == additions(diff@),
{
    let lines = split_lines(diff);
    let mut added: Vec<String> = Vec::new();
    assert(added.deep_view() =~= seq![]);
    let mut i: usize = 0;
    while i < lines.len()
        invariant
            i <= lines.len(),
            lines.deep_view() == lines_of(diff@),
            added.deep_view() == added_lines(lines.deep_view(), i as nat),
        decreases lines.len() - i,
    {
        let v = to_chars(lines[i].as_str());
        assert(lines.deep_view()[i as int] == v@);
        if v.len() > 0 && v[0] == '+' {
            push_text(&mut added, slice_string(&v, 1, v.len()));
        }
        i += 1;
    }
    added
}

/// The mark that an entry for the pull request holds.
pub open spec fn pr_mark(pr: nat) -> Seq<char> {
    "[#"@ + decimal(pr) + "]"@
}

/// Whether one of the lines holds the mark of the pull request.
pub open spec fn marked(lines: Seq<Seq<char>>, pr: nat) -> bool {
    exists|i: int| 0 <= i < lines.len() && contains_text(#[trigger] lines[i], pr_mark(pr))
}

/// What the check of a diff gives: the changelog has to have an unreleased
/// section, an entry of its first one has to name the pull request, and a
/// line that the diff adds has to hold the mark of the pull request.
pub open spec fn diff_checked(doc: ChangelogView, diff: Seq<char>, pr: nat) -> Result<
    (),
    CheckDiffError,
> {
    let at = first_unreleased(doc.releases, doc.releases.len());
    if at >= doc.releases.len() {
        Err(CheckDiffError::NoUnreleased)
    } else if !release_names_pr(doc.releases[at as int], pr) {
        Err(CheckDiffError::NoEntry)
    } else if !marked(additions(diff), pr) {
        Err(CheckDiffError::NoEntry)
    } else {
        Ok(())
    }
}

/// Checks that the unreleased section names the pull request and that the
/// diff adds a line with its mark.
pub fn check_diff(changelog: &Changelog, diff: &str, pr_number: u64) -> (r: Result<
    (),
    CheckDiffError,
>)
    ensures
        r == diff_checked(changelog@, diff@, pr_number as nat),
{
    let mut at: usize = 0;
    while at < changelog.releases.len() && !changelog.releases[at].is_unreleased()
        invariant
            at <= changelog.releases.len(),
            first_unreleased(changelog@.releases, at as nat) == at,
        decreases changelog.releases.len() - at,
    {
        at += 1;
    }
    if at >= changelog.releases.len() {
        return Err(CheckDiffError::NoUnreleased);
    }
    proof {
        crate::add::lemma_unreleased_stays(
            changelog@.releases,
            at as nat + 1,
            changelog@.releases.len(),
        );
    }
    if !release_holds_pr(&changelog.releases[at], pr_number) {
        return Err(CheckDiffError::NoEntry);
    }
    let mut mark = String::from_str("[#");
    push_decimal(&mut mark, pr_number);
    mark.append("]");
    let added = get_additions(diff);
    let mut i: usize = 0;
    while i < added.len()
        invariant
            i <= added.len(),
            mark@ == pr_mark(pr_number as nat),
            added.deep_view() == additions(diff@),
            diff_checked(changelog@, diff@, pr_number as nat) == if marked(
                additions(diff@),
                pr_number as nat,
            ) {
                Ok::<(), CheckDiffError>(())
            } else {
                Err::<(), CheckDiffError>(CheckDiffError::NoEntry)
            },
            forall|j: int| 0 <= j < i ==> !contains_text(#[trigger] added.deep_view()[j], mark@),
        decreases added.len() - i,
    {
        let v = to_chars(added[i].as_str());
        assert(added.deep_view()[i as int] == v@);
        if find_text(&v, mark.as_str()) {
            assert(contains_text(added.deep_view()[i as int], pr_mark(pr_number as nat)));
            return Ok(());
        }
        i += 1;
    }
    Err(CheckDiffError::NoEntry)
}

} // verus!
