//! Making a release of what is not released yet.

use crate::add::first_unreleased;
use crate::changelog::{Changelog, ChangelogView};
use crate::config::{Config, ConfigView};
use crate::errors::{ReleaseCLIError, VersionError};
use crate::get::{find_version, first_of_version};
use crate::release::{release_link, ReleaseView};
use crate::text::{comes_before, text_before};
use crate::version::{bumped, checked_bump_version, raised, version_of, version_text, ReleaseType, Version};
use vstd::prelude::*;
use vstd::string::*;

verus! {

/// The header of the release of `version` on the day `date`.
pub open spec fn release_header(config: ConfigView, version: Seq<char>, date: Seq<char>) -> Seq<
    char,
> {
    "## ["@ + version + "]("@ + release_link(config.target_repo, version) + ") - "@ + date
}

/// What becomes of a changelog when its first unreleased section is
/// released as `version` on the day `date`: the section gets the version and
/// the header of the release. A version that a release has already, and a
/// changelog without an unreleased section, are errors.
pub open spec fn released(
    config: ConfigView,
    doc: ChangelogView,
    version: Version,
    date: Seq<char>,
) -> Result<ChangelogView, Seq<char>> {
    let text = version_text(version);
    let at = first_unreleased(doc.releases, doc.releases.len());
    if first_of_version(doc.releases, text, doc.releases.len()) < doc.releases.len() {
        Err("duplicate version: "@ + text)
    } else if at >= doc.releases.len() {
        Err("no unreleased features"@)
    } else {
        Ok(
            ChangelogView {
                releases: doc.releases.update(
                    at as int,
                    ReleaseView {
                        version: text,
                        fixed: release_header(config, text, date),
                        ..doc.releases[at as int]
                    },
                ),
                ..doc
            },
        )
    }
}

/// Turns the first unreleased section of the changelog into the release of
/// `version` on the day `date`.
pub fn release(config: &Config, changelog: &mut Changelog, version: &Version, date: &str) -> (r:
    Result<(), ReleaseCLIError>)
    ensures
        match r {
            Ok(()) => released(config@, old(changelog)@, *version, date@) == Ok::<
                ChangelogView,
                Seq<char>,
            >(final(changelog)@),
            Err(e) => released(config@, old(changelog)@, *version, date@) == Err::<
                ChangelogView,
                Seq<char>,
            >(e.text()) && *final(changelog) == *old(changelog),
        },
{
    let text = version.to_string();
    if find_version(changelog, text.as_str()).is_some() {
        return Err(ReleaseCLIError::DuplicateVersion(text));
    }
    let mut at: usize = 0;
    while at < changelog.releases.len() && !changelog.releases[at].is_unreleased()
        invariant
            at <= changelog.releases.len(),
            first_unreleased(changelog@.releases, at as nat) == at,
        decreases changelog.releases.len() - at,
    {
        at += 1;
    }
    if at >= changelog.releases.len() {
        return Err(ReleaseCLIError::NoUnreleased);
    }
    proof {
        crate::add::lemma_unreleased_stays(
            changelog@.releases,
            at as nat + 1,
            changelog@.releases.len(),
        );
    }
    let mut fixed = String::from_str("## [");
    fixed.append(text.as_str());
    fixed.append("](");
    fixed.append(config.target_repo.as_str());
    fixed.append("/releases/tag/");
    fixed.append(text.as_str());
    fixed.append(") - ");
    fixed.append(date);
    assert(fixed@ =~= release_header(config@, text@, date@));
    let ghost releases = changelog@.releases;
    changelog.releases[at].version = text;
    changelog.releases[at].fixed = fixed;
    assert(changelog@.releases =~= releases.update(
        at as int,
        ReleaseView {
            version: version_text(*version),
            fixed: release_header(config@, version_text(*version), date@),
            ..releases[at as int]
        },
    ));
    Ok(())
}

/// The latest version among the first `n` releases: the last in the order
/// of strings of the versions of those that are released.
pub open spec fn latest_version(releases: Seq<ReleaseView>, n: nat) -> Option<Seq<char>>
    decreases n,
{
    if n == 0 {
        None
    } else {
        let before = latest_version(releases, (n - 1) as nat);
        let version = releases[n - 1].version;
        if version == "Unreleased"@ {
            before
        } else {
            match before {
                Some(latest) => if text_before(version, latest) {
                    Some(latest)
                } else {
                    Some(version)
                },
                None => Some(version),
            }
        }
    }
}

/// The version of the next release of the given kind: the one that follows
/// the latest version of the changelog. The errors tell that the changelog
/// holds no release yet, that its latest version is none, and, as a number
/// that does not fit, that no version follows it.
pub open spec fn next_version(doc: ChangelogView, release_type: ReleaseType) -> Result<
    Version,
    ReleaseCLIError,
> {
    match latest_version(doc.releases, doc.releases.len()) {
        None => Err(ReleaseCLIError::NoRelease),
        Some(latest) => match version_of(latest) {
            Err(e) => Err(ReleaseCLIError::InvalidVersion(e)),
            Ok(version) => if raised(version, release_type) < u8::MAX {
                Ok(bumped(version, release_type))
            } else {
                Err(ReleaseCLIError::InvalidVersion(VersionError::NoInteger))
            },
        },
    }
}

/// Finds the version of the next release of the given kind.
pub fn get_release_version(changelog: &Changelog, release_type: &ReleaseType) -> (r: Result<
    Version,
    ReleaseCLIError,
>)
    ensures
        r == next_version(changelog@, *release_type),
{
    let mut latest: Option<usize> = None;
    let mut i: usize = 0;
    while i < changelog.releases.len()
        invariant
            i <= changelog.releases.len(),
            match latest {
                Some(at) => at < i && latest_version(changelog@.releases, i as nat) == Some(
                    changelog@.releases[at as int].version,
                ),
                None => latest_version(changelog@.releases, i as nat) is None,
            },
        decreases changelog.releases.len() - i,
    {
        assert(changelog@.releases[i as int].version == changelog.releases[i as int].version@);
        if !changelog.releases[i].is_unreleased() {
            match latest {
                Some(at) => {
                    assert(changelog@.releases[at as int].version
                        == changelog.releases[at as int].version@);
                    if !comes_before(
                        changelog.releases[i].version.as_str(),
                        changelog.releases[at].version.as_str(),
                    ) {
                        latest = Some(i);
                    }
                },
                None => {
                    latest = Some(i);
                },
            }
        }
        i += 1;
    }
    let at = match latest {
        Some(at) => at,
        None => {
            return Err(ReleaseCLIError::NoRelease);
        },
    };
    assert(changelog@.releases[at as int].version == changelog.releases[at as int].version@);
    let version = match crate::version::parse(changelog.releases[at].version.as_str()) {
        Ok(version) => version,
        Err(e) => {
            return Err(ReleaseCLIError::InvalidVersion(e));
        },
    };
    match checked_bump_version(&version, release_type) {
        Some(next) => Ok(next),
        None => Err(ReleaseCLIError::InvalidVersion(VersionError::NoInteger)),
    }
}

} // verus!
