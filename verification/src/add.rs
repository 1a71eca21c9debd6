//! Adding an entry to the section of what is not released yet.

use crate::change_type::ChangeTypeView;
use crate::changelog::{Changelog, ChangelogView};
use crate::config::{Config, ConfigView};
use crate::entry::{entry_of, entry_text, pull_link, Entry, EntryView};
use crate::errors::EntryError;
use crate::release::{new_unreleased, Release, ReleaseView};
use crate::text::same_text;
use vstd::prelude::*;
use vstd::string::*;

verus! {

/// Whether the user has to be asked: always, unless everything is to be
/// accepted and the pull request was found.
pub fn should_get_user_input(accept: bool, retrieved: bool) -> (r: bool)
    ensures
        r == (!accept || !retrieved),
{
    !accept || !retrieved
}

/// Whether an entry of the releases names the pull request.
pub open spec fn names_pr(releases: Seq<ReleaseView>, pr_number: nat) -> bool {
    exists|r: int, c: int, e: int|
        0 <= r < releases.len() && 0 <= c < releases[r].change_types.len() && 0 <= e
            < releases[r].change_types[c].entries.len()
            && #[trigger] releases[r].change_types[c].entries[e].pr_number == pr_number
}

/// Whether an entry of the release names the pull request.
pub open spec fn release_names_pr(release: ReleaseView, pr_number: nat) -> bool {
    exists|c: int, e: int|
        0 <= c < release.change_types.len() && 0 <= e < release.change_types[c].entries.len()
            && #[trigger] release.change_types[c].entries[e].pr_number == pr_number
}

/// Tests whether an entry of the release names the pull request.
pub fn release_holds_pr(release: &Release, pr_number: u64) -> (r: bool)
    ensures
        r == release_names_pr(release@, pr_number as nat),
{
    let mut c: usize = 0;
    while c < release.change_types.len()
        invariant
            c <= release.change_types.len(),
            forall|i: int, e: int|
                0 <= i < c && 0 <= e < release@.change_types[i].entries.len()
                    ==> #[trigger] release@.change_types[i].entries[e].pr_number != pr_number,
        decreases release.change_types.len() - c,
    {
        let entries = &release.change_types[c].entries;
        let mut e: usize = 0;
        while e < entries.len()
            invariant
                e <= entries.len(),
                c < release.change_types.len(),
                entries.deep_view() == release@.change_types[c as int].entries,
                forall|j: int|
                    0 <= j < e ==> #[trigger] release@.change_types[c as int].entries[j].pr_number
                        != pr_number,
            decreases entries.len() - e,
        {
            if entries[e].pr_number == pr_number {
                assert(release@.change_types[c as int].entries[e as int].pr_number == pr_number);
                return true;
            }
            e += 1;
        }
        c += 1;
    }
    false
}

/// Tests whether an entry of the changelog names the pull request.
pub fn check_pr_duplicate(changelog: &Changelog, pr_number: u64) -> (r: bool)
    ensures
        r == names_pr(changelog@.releases, pr_number as nat),
{
    let mut i: usize = 0;
    while i < changelog.releases.len()
        invariant
            i <= changelog.releases.len(),
            forall|r: int| 0 <= r < i ==> !release_names_pr(changelog@.releases[r], pr_number as nat),
        decreases changelog.releases.len() - i,
    {
        if release_holds_pr(&changelog.releases[i], pr_number) {
            let ghost release = changelog@.releases[i as int];
            let ghost (c, e) = choose|c: int, e: int|
                0 <= c < release.change_types.len() && 0 <= e
                    < release.change_types[c].entries.len()
                    && #[trigger] release.change_types[c].entries[e].pr_number == pr_number as nat;
            assert(changelog@.releases[i as int].change_types[c].entries[e].pr_number
                == pr_number as nat);
            return true;
        }
        i += 1;
    }
    assert forall|r: int, c: int, e: int|
        0 <= r < changelog@.releases.len() && 0 <= c < changelog@.releases[r].change_types.len()
            && 0 <= e
            < changelog@.releases[r].change_types[c].entries.len() implies #[trigger] changelog@.releases[r].change_types[c].entries[e].pr_number
        != pr_number as nat by {
        assert(!release_names_pr(changelog@.releases[r], pr_number as nat));
    }
    false
}

/// The index of the first of the first `n` releases that is the unreleased
/// section; `n` where none is.
pub open spec fn first_unreleased(releases: Seq<ReleaseView>, n: nat) -> nat
    decreases n,
{
    if n == 0 {
        0
    } else {
        let before = first_unreleased(releases, (n - 1) as nat);
        if before < n - 1 {
            before
        } else if releases[n - 1].version == "Unreleased"@ {
            (n - 1) as nat
        } else {
            n
        }
    }
}

/// The index of the last of the first `n` change types with the given name;
/// -1 where none has it.
pub open spec fn last_named(types: Seq<ChangeTypeView>, name: Seq<char>, n: nat) -> int
    decreases n,
{
    if n == 0 {
        -1
    } else if types[n - 1].name == name {
        n - 1
    } else {
        last_named(types, name, (n - 1) as nat)
    }
}

/// The release with one more entry: at the head of the last change type of
/// the given name, or, where the release has none of that name, in a new
/// change type at its end.
pub open spec fn release_with(release: ReleaseView, change_type: Seq<char>, e: EntryView)
    -> ReleaseView {
    let at = last_named(release.change_types, change_type, release.change_types.len());
    if at >= 0 {
        let c = release.change_types[at];
        ReleaseView {
            change_types: release.change_types.update(
                at,
                ChangeTypeView { entries: c.entries.insert(0, e), ..c },
            ),
            ..release
        }
    } else {
        ReleaseView {
            change_types: release.change_types.push(
                ChangeTypeView {
                    name: change_type,
                    fixed: "### "@ + change_type,
                    problems: seq![],
                    entries: seq![e],
                },
            ),
            ..release
        }
    }
}

/// The releases with one more entry in the first unreleased section. Where
/// there is none, one is put before all releases.
pub open spec fn releases_with(releases: Seq<ReleaseView>, change_type: Seq<char>, e: EntryView)
    -> Seq<ReleaseView> {
    let at = first_unreleased(releases, releases.len());
    if at < releases.len() {
        releases.update(at as int, release_with(releases[at as int], change_type, e))
    } else {
        releases.insert(
            0,
            release_with(
                ReleaseView {
                    line: "## Unreleased"@,
                    fixed: "## Unreleased"@,
                    version: "Unreleased"@,
                    change_types: seq![],
                    problems: seq![],
                },
                change_type,
                e,
            ),
        )
    }
}

/// The line of a new entry before it is checked.
pub open spec fn new_entry_line(
    config: ConfigView,
    category: Seq<char>,
    description: Seq<char>,
    pr: nat,
) -> Seq<char> {
    entry_text(category, pr, pull_link(config.target_repo, pr), description)
}

/// Finds the first unreleased section.
fn find_unreleased(releases: &Vec<Release>) -> (r: usize)
    ensures
        r == first_unreleased(releases.deep_view(), releases.len() as nat),
        r <= releases.len(),
{
    let mut i: usize = 0;
    while i < releases.len()
        invariant
            i <= releases.len(),
            first_unreleased(releases.deep_view(), i as nat) == i,
        decreases releases.len() - i,
    {
        if releases[i].is_unreleased() {
            proof {
                lemma_unreleased_stays(releases.deep_view(), i as nat + 1, releases.len() as nat);
            }
            return i;
        }
        i += 1;
    }
    i
}

/// An unreleased section found among the first `n` releases is the one
/// among the first `m`.
pub proof fn lemma_unreleased_stays(releases: Seq<ReleaseView>, n: nat, m: nat)
    requires
        n <= m <= releases.len(),
        first_unreleased(releases, n) < n,
    ensures
        first_unreleased(releases, m) == first_unreleased(releases, n),
    decreases m - n,
{
    if n < m {
        lemma_unreleased_stays(releases, n, (m - 1) as nat);
    }
}

/// Adds an entry to a release.
fn add_to_release(release: &mut Release, change_type: &str, e: Entry)
    ensures
        final(release)@ == release_with(old(release)@, change_type@, e@),
{
    let ghost types = release.change_types.deep_view();
    let ghost added = e@;
    let mut found: Option<usize> = None;
    let mut i: usize = 0;
    while i < release.change_types.len()
        invariant
            i <= release.change_types.len(),
            types == release.change_types.deep_view(),
            match found {
                Some(at) => at < i && last_named(types, change_type@, i as nat) == at,
                None => last_named(types, change_type@, i as nat) == -1,
            },
        decreases release.change_types.len() - i,
    {
        assert(types[i as int].name == release.change_types[i as int].name@);
        if same_text(release.change_types[i].name.as_str(), change_type) {
            found = Some(i);
        }
        i += 1;
    }
    match found {
        Some(at) => {
            let ghost entries = release.change_types[at as int].entries.deep_view();
            release.change_types[at].entries.insert(0, e);
            assert(release.change_types[at as int].entries.deep_view() =~= entries.insert(
                0,
                added,
            ));
            assert(release.change_types.deep_view() =~= types.update(
                at as int,
                ChangeTypeView { entries: entries.insert(0, added), ..types[at as int] },
            ));
        },
        None => {
            let mut entries: Vec<Entry> = Vec::new();
            entries.push(e);
            assert(entries.deep_view() =~= seq![added]);
            let created = crate::change_type::new(change_type.to_string(), Some(entries));
            let ghost created_view = created@;
            release.change_types.push(created);
            assert(release.change_types.deep_view() =~= types.push(created_view));
        },
    }
}

/// Adds an entry with the given parts to the unreleased section of the
/// changelog. The entry is the one that its line, made from the parts,
/// parses to: every fix is applied to it. Parts that make no entry are an
/// error and leave the changelog as it is.
pub fn add_entry(
    config: &Config,
    changelog: &mut Changelog,
    change_type: &str,
    cat: &str,
    desc: &str,
    pr: u64,
) -> (r: Result<(), EntryError>)
    ensures
        match r {
            Ok(()) => {
                &&& entry_of(config@, new_entry_line(config@, cat@, desc@, pr as nat)) is Some
                &&& final(changelog)@ == (ChangelogView {
                    releases: releases_with(
                        old(changelog)@.releases,
                        change_type@,
                        entry_of(config@, new_entry_line(config@, cat@, desc@, pr as nat))->0,
                    ),
                    ..old(changelog)@
                })
            },
            Err(EntryError::InvalidEntry(line)) => {
                &&& entry_of(config@, new_entry_line(config@, cat@, desc@, pr as nat)) is None
                &&& line@ == new_entry_line(config@, cat@, desc@, pr as nat)
                &&& *final(changelog) == *old(changelog)
            },
        },
{
    let new_entry = Entry::new(config, cat, desc, pr);
    let e = match crate::entry::parse(config, new_entry.fixed.as_str()) {
        Ok(e) => e,
        Err(err) => {
            return Err(err);
        },
    };
    let ghost releases = changelog.releases.deep_view();
    let ghost added = e@;
    let at = find_unreleased(&changelog.releases);
    if at < changelog.releases.len() {
        add_to_release(&mut changelog.releases[at], change_type, e);
        assert(changelog.releases.deep_view() =~= releases.update(
            at as int,
            release_with(releases[at as int], change_type@, added),
        ));
    } else {
        let mut unreleased = new_unreleased();
        add_to_release(&mut unreleased, change_type, e);
        let ghost first = unreleased@;
        changelog.releases.insert(0, unreleased);
        assert(changelog.releases.deep_view() =~= releases.insert(0, first));
    }
    Ok(())
}

} // verus!
