//! Handing out the contents of one release.

use crate::changelog::{Changelog, ChangelogView};
use crate::errors::GetError;
use crate::release::{release_text, ReleaseView};
use crate::text::same_text;
use vstd::prelude::*;
use vstd::string::*;

verus! {

/// The index of the first of the first `n` releases with the given version;
/// `n` where none has it.
pub open spec fn first_of_version(releases: Seq<ReleaseView>, version: Seq<char>, n: nat) -> nat
    decreases n,
{
    if n == 0 {
        0
    } else {
        let before = first_of_version(releases, version, (n - 1) as nat);
        if before < n - 1 {
            before
        } else if releases[n - 1].version == version {
            (n - 1) as nat
        } else {
            n
        }
    }
}

/// A release found among the first `n` is the one among the first `m`.
pub proof fn lemma_version_stays(releases: Seq<ReleaseView>, version: Seq<char>, n: nat, m: nat)
    requires
        n <= m <= releases.len(),
        first_of_version(releases, version, n) < n,
    ensures
        first_of_version(releases, version, m) == first_of_version(releases, version, n),
    decreases m - n,
{
    if n < m {
        lemma_version_stays(releases, version, n, (m - 1) as nat);
    }
}

/// Finds the first release with the given version.
pub fn find_version(changelog: &Changelog, version: &str) -> (r: Option<usize>)
    ensures
        match r {
            Some(i) => i < changelog.releases.len() && first_of_version(
                changelog@.releases,
                version@,
                changelog@.releases.len(),
            ) == i,
            None => first_of_version(changelog@.releases, version@, changelog@.releases.len())
                == changelog@.releases.len(),
        },
{
    let mut i: usize = 0;
    while i < changelog.releases.len()
        invariant
            i <= changelog.releases.len(),
            first_of_version(changelog@.releases, version@, i as nat) == i,
        decreases changelog.releases.len() - i,
    {
        assert(changelog@.releases[i as int].version == changelog.releases[i as int].version@);
        if same_text(changelog.releases[i].version.as_str(), version) {
            proof {
                lemma_version_stays(
                    changelog@.releases,
                    version@,
                    i as nat + 1,
                    changelog@.releases.len(),
                );
            }
            return Some(i);
        }
        i += 1;
    }
    None
}

/// What is handed out for a version: the section of the first release that
/// has it.
pub open spec fn release_got(doc: ChangelogView, version: Seq<char>) -> Option<Seq<char>> {
    let at = first_of_version(doc.releases, version, doc.releases.len());
    if at < doc.releases.len() {
        Some(release_text(doc.releases[at as int]))
    } else {
        None
    }
}

/// The section of the release with the given version, as it should read.
pub fn get(changelog: &Changelog, version: &str) -> (r: Result<String, GetError>)
    ensures
        match r {
            Ok(contents) => release_got(changelog@, version@) == Some(contents@),
            Err(GetError::VersionNotFound(v)) => release_got(changelog@, version@) is None && v@
                == version@,
        },
{
    match find_version(changelog, version) {
        Some(i) => Ok(changelog.releases[i].get_fixed_contents()),
        None => Err(GetError::VersionNotFound(version.to_string())),
    }
}

} // verus!
