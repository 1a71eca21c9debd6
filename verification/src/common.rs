//! What the two ways to keep a changelog have in common.

use crate::multi_file::changelog::MultiFileChangelog;
use vstd::prelude::*;

verus! {

/// A changelog, kept in one file or as a directory.
#[derive(Clone, Debug)]
pub enum Changelog {
    /// A changelog that is kept in one file.
    Single(crate::changelog::Changelog),
    /// A changelog that is kept as a directory.
    Multi(MultiFileChangelog),
}

impl Changelog {
    /// The problems that were found, each with its place.
    pub open spec fn problems_view(self) -> Seq<Seq<char>> {
        match self {
            Changelog::Single(c) => c@.problems,
            Changelog::Multi(c) => c@.problems,
        }
    }

    /// The problems that were found, each with its place.
    pub fn problems(&self) -> (list: &Vec<String>)
        ensures
            list.deep_view() == self.problems_view(),
    {
        match self {
            Changelog::Single(c) => &c.problems,
            Changelog::Multi(c) => &c.problems,
        }
    }
}

} // verus!
