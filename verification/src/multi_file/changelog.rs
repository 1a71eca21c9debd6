//! The changelog that is kept as a directory, and the list of everything
//! that was found wrong in it.
//!
//! The list names each problem with its place: that of an entry with its
//! file and the line in it, that of a change type or a release with its
//! directory. It follows the order in which the releases, their change types
//! and their entries were handed over, so that it is the same whenever they
//! are.

use crate::changelog::{add_to_problems, located};
use crate::multi_file::change_type::{ChangeType, ChangeTypeView};
use crate::multi_file::entry::MultiFileEntryView;
use crate::multi_file::release::{Release, ReleaseView};
use vstd::prelude::*;

verus! {

/// A changelog that is kept as a directory.
#[derive(Clone, Debug)]
pub struct MultiFileChangelog {
    /// The lines of the comments at the head of the changelog.
    pub comments: Vec<String>,
    /// The releases that were read from the directories of the changelog.
    pub releases: Vec<Release>,
    /// Every problem found, with its place.
    pub problems: Vec<String>,
    /// The directory of the changelog.
    pub path: String,
}

/// What a `MultiFileChangelog` holds.
pub struct MultiFileChangelogView {
    pub comments: Seq<Seq<char>>,
    pub releases: Seq<ReleaseView>,
    pub problems: Seq<Seq<char>>,
    pub path: Seq<char>,
}

impl DeepView for MultiFileChangelog {
    type V = MultiFileChangelogView;

    open spec fn deep_view(&self) -> MultiFileChangelogView {
        MultiFileChangelogView {
            comments: self.comments.deep_view(),
            releases: self.releases.deep_view(),
            problems: self.problems.deep_view(),
            path: self.path@,
        }
    }
}

impl View for MultiFileChangelog {
    type V = MultiFileChangelogView;

    open spec fn view(&self) -> MultiFileChangelogView {
        self.deep_view()
    }
}

/// The given problems, each with the place `path` and, where one is given,
/// the line.
pub open spec fn placed(path: Seq<char>, line: Option<nat>, problems: Seq<Seq<char>>) -> Seq<
    Seq<char>,
> {
    problems.map_values(|p: Seq<char>| located(path, line, p))
}

/// The problems of an entry, each with the file of the entry and its first
/// line as the place.
pub open spec fn entry_problems(e: MultiFileEntryView) -> Seq<Seq<char>> {
    placed(e.path, Some(0nat), e.problems)
}

/// The problems of the first `n` entries.
pub open spec fn entries_problems(entries: Seq<MultiFileEntryView>, n: nat) -> Seq<Seq<char>>
    decreases n,
{
    if n == 0 {
        seq![]
    } else {
        entries_problems(entries, (n - 1) as nat) + entry_problems(entries[n - 1])
    }
}

/// The problems of a change type: those of its directory, then those of its
/// entries.
pub open spec fn change_type_problems(c: ChangeTypeView) -> Seq<Seq<char>> {
    placed(c.path, None, c.problems) + entries_problems(
        c.entries,
        c.entries.len(),
    )
}

/// The problems of the first `n` change types.
pub open spec fn change_types_problems(types: Seq<ChangeTypeView>, n: nat) -> Seq<Seq<char>>
    decreases n,
{
    if n == 0 {
        seq![]
    } else {
        change_types_problems(types, (n - 1) as nat) + change_type_problems(types[n - 1])
    }
}

/// The problems of a release: those of its directory, then those of its
/// change types.
pub open spec fn release_problems(r: ReleaseView) -> Seq<Seq<char>> {
    placed(r.path, None, r.problems) + change_types_problems(
        r.change_types,
        r.change_types.len(),
    )
}

/// The problems of the first `n` releases.
pub open spec fn releases_problems(releases: Seq<ReleaseView>, n: nat) -> Seq<Seq<char>>
    decreases n,
{
    if n == 0 {
        seq![]
    } else {
        releases_problems(releases, (n - 1) as nat) + release_problems(releases[n - 1])
    }
}

/// The changelog that the directory `dir` with the given releases stands
/// for: it holds the releases, and every problem of theirs with its place.
pub open spec fn changelog_of(dir: Seq<char>, releases: Seq<ReleaseView>) -> MultiFileChangelogView {
    MultiFileChangelogView {
        comments: seq![],
        releases,
        problems: releases_problems(releases, releases.len()),
        path: dir,
    }
}

/// Appends the given problems to the list, each with its place.
fn place_all(list: &mut Vec<String>, path: &str, line: Option<usize>, problems: &Vec<String>)
    requires
        line matches Some(l) ==> l < usize::MAX,
    ensures
        final(list).deep_view() == old(list).deep_view() + placed(
            path@,
            match line {
                Some(l) => Some(l as nat),
                None => None,
            },
            problems.deep_view(),
        ),
{
    let ghost head = list.deep_view();
    let ghost at: Option<nat> = match line {
        Some(l) => Some(l as nat),
        None => None,
    };
    let mut i: usize = 0;
    assert(list.deep_view() =~= head + placed(path@, at, problems.deep_view().take(0)));
    while i < problems.len()
        invariant
            i <= problems.len(),
            at == match line {
                Some(l) => Some(l as nat),
                None => None::<nat>,
            },
            line matches Some(l) ==> l < usize::MAX,
            list.deep_view() == head + placed(path@, at, problems.deep_view().take(i as int)),
        decreases problems.len() - i,
    {
        add_to_problems(list, path, line, problems[i].as_str());
        i += 1;
        assert(list.deep_view() =~= head + placed(path@, at, problems.deep_view().take(i as int)));
    }
    assert(problems.deep_view().take(i as int) =~= problems.deep_view());
}

/// Appends the problems of a change type to the list.
fn place_change_type(list: &mut Vec<String>, c: &ChangeType)
    ensures
        final(list).deep_view() == old(list).deep_view() + change_type_problems(c@),
{
    let ghost head = list.deep_view();
    place_all(list, c.path.as_str(), None, &c.problems);
    let ghost own = list.deep_view();
    let mut i: usize = 0;
    assert(list.deep_view() =~= own + entries_problems(c@.entries, 0));
    while i < c.entries.len()
        invariant
            i <= c.entries.len(),
            own == head + placed(c@.path, None, c@.problems),
            list.deep_view() == own + entries_problems(c@.entries, i as nat),
        decreases c.entries.len() - i,
    {
        assert(c@.entries[i as int] == c.entries[i as int]@);
        place_all(list, c.entries[i].path.as_str(), Some(0), &c.entries[i].problems);
        i += 1;
        assert(list.deep_view() =~= own + entries_problems(c@.entries, i as nat));
    }
    assert(list.deep_view() =~= head + change_type_problems(c@));
}

/// Appends the problems of a release to the list.
fn place_release(list: &mut Vec<String>, r: &Release)
    ensures
        final(list).deep_view() == old(list).deep_view() + release_problems(r@),
{
    let ghost head = list.deep_view();
    place_all(list, r.path.as_str(), None, &r.problems);
    let ghost own = list.deep_view();
    let mut i: usize = 0;
    assert(list.deep_view() =~= own + change_types_problems(r@.change_types, 0));
    while i < r.change_types.len()
        invariant
            i <= r.change_types.len(),
            own == head + placed(r@.path, None, r@.problems),
            list.deep_view() == own + change_types_problems(r@.change_types, i as nat),
        decreases r.change_types.len() - i,
    {
        assert(r@.change_types[i as int] == r.change_types[i as int]@);
        place_change_type(list, &r.change_types[i]);
        i += 1;
        assert(list.deep_view() =~= own + change_types_problems(r@.change_types, i as nat));
    }
    assert(list.deep_view() =~= head + release_problems(r@));
}

/// Puts the changelog of the directory `dir_path` together from the
/// releases that were read from its directories.
pub fn parse_changelog(dir_path: &str, releases: Vec<Release>) -> (c: MultiFileChangelog)
    ensures
        c@ == changelog_of(dir_path@, releases.deep_view()),
{
    let mut problems: Vec<String> = Vec::new();
    let mut i: usize = 0;
    assert(problems.deep_view() =~= releases_problems(releases.deep_view(), 0));
    while i < releases.len()
        invariant
            i <= releases.len(),
            problems.deep_view() == releases_problems(releases.deep_view(), i as nat),
        decreases releases.len() - i,
    {
        assert(releases.deep_view()[i as int] == releases[i as int]@);
        place_release(&mut problems, &releases[i]);
        i += 1;
    }
    let c = MultiFileChangelog {
        comments: Vec::new(),
        releases,
        problems,
        path: dir_path.to_string(),
    };
    assert(c.comments.deep_view() =~= seq![]);
    c
}

impl MultiFileChangelog {
    /// Whether a problem was found.
    pub fn has_problems(&self) -> (r: bool)
        ensures
            r == (self@.problems.len() > 0),
    {
        self.problems.len() > 0
    }
}

} // verus!
