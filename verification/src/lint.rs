//! The linter: reading a changelog, and what to do with what was found.

use crate::changelog::{changelog_of, changelog_text, parse_changelog, Changelog, ChangelogView};
use crate::config::Config;
use crate::errors::{ChangelogError, LintError};
use vstd::prelude::*;

verus! {

/// Reads the changelog that is kept at `path` from its contents.
pub fn lint(config: &Config, path: &str, contents: &str) -> (r: Result<Changelog, LintError>)
    ensures
        match r {
            Ok(c) => changelog_of(config@, path@, contents@) == Ok::<
                ChangelogView,
                ChangelogError,
            >(c@),
            Err(LintError::InvalidChangelog(e)) => changelog_of(config@, path@, contents@)
                == Err::<ChangelogView, ChangelogError>(e),
            Err(_) => false,
        },
{
    match parse_changelog(config, path, contents) {
        Ok(c) => Ok(c),
        Err(e) => Err(LintError::InvalidChangelog(e)),
    }
}

/// What the linter does with a changelog that was read. To fix it is to
/// write it out as it should read, whatever was found, also where a problem
/// stays that no rewriting mends. Not to fix it is to fail where there is a
/// problem.
pub open spec fn lint_outcome(doc: ChangelogView, fix: bool) -> Result<
    Option<Seq<char>>,
    LintError,
> {
    if fix {
        Ok(Some(changelog_text(doc)))
    } else if doc.problems.len() == 0 {
        Ok(None)
    } else {
        Err(LintError::ProblemsInChangelog)
    }
}

/// Decides what is to be done with a changelog that was read: the text to
/// write where it is to be fixed, nothing where it has no problem, and an
/// error where it has one.
pub fn outcome(changelog: &Changelog, fix: bool) -> (r: Result<Option<String>, LintError>)
    ensures
        match r {
            Ok(text) => lint_outcome(changelog@, fix) == Ok::<Option<Seq<char>>, LintError>(
                text.deep_view(),
            ),
            Err(e) => lint_outcome(changelog@, fix) == Err::<Option<Seq<char>>, LintError>(e),
        },
{
    if fix {
        return Ok(Some(changelog.get_fixed_contents()));
    }
    if changelog.problems.len() == 0 {
        Ok(None)
    } else {
        Err(LintError::ProblemsInChangelog)
    }
}

} // verus!
