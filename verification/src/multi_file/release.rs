//! Releases that are kept as a directory each, with one directory for each
//! change type.
//!
//! The directory of a release is named after its version, or `unreleased`.

use crate::config::{Config, ConfigView};
use crate::errors::ReleaseError;
use crate::multi_file::change_type::{change_type_text, ChangeType, ChangeTypeView};
use crate::text::{ascii_lower, has_at_any_case, is_digit, is_space, match_at_any_case, push_text, run_end, scan_run, to_chars, Class};
use crate::version::{newer, version_of};
use vstd::prelude::*;
use vstd::string::*;

verus! {

/// One release of a changelog, with its change types.
#[derive(Clone, Debug)]
pub struct Release {
    /// The change types that were read from the directories of the release.
    pub change_types: Vec<ChangeType>,
    /// The directory of the release.
    pub path: String,
    /// What is wrong with the directory as it was found.
    pub problems: Vec<String>,
    /// The summary of the release, where it has one.
    pub summary: Option<String>,
    /// The name of the directory: the version of the release.
    pub version: String,
}

/// What a `Release` holds.
pub struct ReleaseView {
    pub change_types: Seq<ChangeTypeView>,
    pub path: Seq<char>,
    pub problems: Seq<Seq<char>>,
    pub summary: Option<Seq<char>>,
    pub version: Seq<char>,
}

impl DeepView for Release {
    type V = ReleaseView;

    open spec fn deep_view(&self) -> ReleaseView {
        ReleaseView {
            change_types: self.change_types.deep_view(),
            path: self.path@,
            problems: self.problems.deep_view(),
            summary: self.summary.deep_view(),
            version: self.version@,
        }
    }
}

impl View for Release {
    type V = ReleaseView;

    open spec fn view(&self) -> ReleaseView {
        self.deep_view()
    }
}

/// The sections of the first `n` change types, each with an empty line
/// before it.
pub open spec fn change_types_text(types: Seq<ChangeTypeView>, n: nat) -> Seq<char>
    decreases n,
{
    if n == 0 {
        seq![]
    } else {
        change_types_text(types, (n - 1) as nat) + "\n"@ + change_type_text(types[n - 1])
    }
}

/// The section that a release makes in the changelog as a whole: its header
/// and the sections of its change types.
pub open spec fn release_text(r: ReleaseView) -> Seq<char> {
    "## "@ + r.version + "\n"@ + change_types_text(r.change_types, r.change_types.len())
}

/// Whether `version` is the word `unreleased`, in any mixture of ASCII
/// capitals and lower-case letters.
pub open spec fn is_unreleased_name(version: Seq<char>) -> bool {
    version.map_values(|c: char| ascii_lower(c)) == "unreleased"@
}

/// Whether a release with this version is exempt from the checks: a legacy
/// version is configured, the release is not the unreleased one, and its
/// version is not newer than the legacy version.
pub open spec fn legacy(config: ConfigView, version: Seq<char>) -> Result<bool, ReleaseError> {
    if is_unreleased_name(version) {
        Ok(false)
    } else {
        match config.legacy_version {
            None => Ok(false),
            Some(limit) => match version_of(limit) {
                Err(e) => Err(ReleaseError::InvalidVersion(e)),
                Ok(limit) => match version_of(version) {
                    Err(e) => Err(ReleaseError::InvalidVersion(e)),
                    Ok(v) => Ok(!newer(v, limit)),
                },
            },
        }
    }
}

impl Release {
    /// The section that the release makes in the changelog as a whole.
    pub fn get_fixed_contents(&self) -> (s: String)
        ensures
            s@ == release_text(self@),
    {
        let mut s = String::from_str("## ");
        s.append(self.version.as_str());
        s.append("\n");
        let ghost head = s@;
        assert(head =~= "## "@ + self@.version + "\n"@);
        let mut i: usize = 0;
        while i < self.change_types.len()
            invariant
                i <= self.change_types.len(),
                s@ == head + change_types_text(self@.change_types, i as nat),
            decreases self.change_types.len() - i,
        {
            s.append("\n");
            s.append(self.change_types[i].get_fixed_contents().as_str());
            i += 1;
            assert(s@ =~= head + change_types_text(self@.change_types, i as nat));
        }
        s
    }

    /// Whether this is the release of what is not released yet.
    pub fn is_unreleased(&self) -> (r: bool)
        ensures
            r == is_unreleased_name(self@.version),
    {
        let v = to_chars(self.version.as_str());
        let word = to_chars("unreleased");
        if v.len() != word.len() {
            assert(self@.version.map_values(|c: char| ascii_lower(c)).len() != "unreleased"@.len());
            return false;
        }
        assert(v@.subrange(0, word@.len() as int) =~= self@.version);
        match_at_any_case(&v, 0, "unreleased")
    }

    /// Whether the release is exempt from the checks. The unreleased one
    /// never is, and no release is without a legacy version.
    pub fn is_legacy(&self, config: &Config) -> (r: Result<bool, ReleaseError>)
        ensures
            r == legacy(config@, self@.version),
    {
        if self.is_unreleased() {
            return Ok(false);
        }
        let limit = match &config.legacy_version {
            None => {
                return Ok(false);
            },
            Some(limit) => match crate::version::parse(limit.as_str()) {
                Ok(v) => v,
                Err(e) => {
                    return Err(ReleaseError::InvalidVersion(e));
                },
            },
        };
        match crate::version::parse(self.version.as_str()) {
            Ok(v) => Ok(!v.gt(&limit)),
            Err(e) => Err(ReleaseError::InvalidVersion(e)),
        }
    }
}

/// Where the white space at the end of `s` begins, looking back from index
/// `i`.
pub open spec fn space_start(s: Seq<char>, i: int) -> int
    decreases i,
{
    if i > 0 && is_space(s[i - 1]) {
        space_start(s, i - 1)
    } else {
        i
    }
}

/// Whether a directory of this name holds what is not released yet: the
/// name ends with the word `unreleased`, in any mixture of ASCII capitals and
/// lower-case letters, and white space may follow the word.
pub open spec fn ends_unreleased(name: Seq<char>) -> bool {
    has_at_any_case(
        name,
        space_start(name, name.len() as int) - "unreleased"@.len(),
        "unreleased"@,
    )
}

/// Whether a version stands in `s` at index `i`: the letter `v` and three
/// numbers with a full stop between them.
pub open spec fn version_at(s: Seq<char>, i: int) -> bool {
    let n = s.len() as int;
    let minor = run_end(s, i + 1, Class::Digit);
    let patch = run_end(s, minor + 1, Class::Digit);
    &&& 0 <= i < n && s[i] == 'v'
    &&& i + 1 < minor < n && s[minor] == '.'
    &&& minor + 1 < patch < n && s[patch] == '.'
    &&& patch + 1 < n && is_digit(s[patch + 1])
}

/// Whether a version stands somewhere in `s`.
pub open spec fn holds_version(s: Seq<char>) -> bool {
    exists|i: int| version_at(s, i)
}

/// The problem of a directory whose name neither ends with `unreleased` nor
/// holds a version, if that is so.
pub open spec fn name_check(name: Seq<char>) -> Seq<Seq<char>> {
    if !ends_unreleased(name) && !holds_version(name) {
        seq!["invalid version string: "@ + name]
    } else {
        seq![]
    }
}

/// The release that the directory `dir` with the name `name` and the given
/// change types stands for.
pub open spec fn release_of(dir: Seq<char>, name: Seq<char>, change_types: Seq<ChangeTypeView>)
    -> ReleaseView {
    ReleaseView {
        change_types,
        path: dir,
        problems: name_check(name),
        summary: None,
        version: name,
    }
}

/// Tests whether a directory of this name holds what is not released yet.
pub fn is_unreleased(dir_name: &str) -> (r: bool)
    ensures
        r == ends_unreleased(dir_name@),
{
    let v = to_chars(dir_name);
    let word = to_chars("unreleased");
    let mut to: usize = v.len();
    while to > 0 && Class::Space.test(v[to - 1])
        invariant
            to <= v.len(),
            space_start(v@, v.len() as int) == space_start(v@, to as int),
        decreases to,
    {
        to -= 1;
    }
    if to < word.len() {
        return false;
    }
    match_at_any_case(&v, to - word.len(), "unreleased")
}

/// Tests whether a version stands in `v` at index `i`.
fn is_version_at(v: &Vec<char>, i: usize) -> (r: bool)
    requires
        i < v.len(),
    ensures
        r == version_at(v@, i as int),
{
    let n = v.len();
    if v[i] != 'v' {
        return false;
    }
    let minor = scan_run(v, i + 1, Class::Digit);
    if !(i + 1 < minor && minor < n && v[minor] == '.') {
        return false;
    }
    let patch = scan_run(v, minor + 1, Class::Digit);
    if !(minor + 1 < patch && patch < n && v[patch] == '.') {
        return false;
    }
    n - patch > 1 && Class::Digit.test(v[patch + 1])
}

/// Tests whether a version stands somewhere in `name`.
pub fn has_version(name: &str) -> (r: bool)
    ensures
        r == holds_version(name@),
{
    let v = to_chars(name);
    let mut i: usize = 0;
    while i < v.len()
        invariant
            i <= v.len(),
            v@ == name@,
            forall|j: int| 0 <= j < i ==> !version_at(v@, j),
        decreases v.len() - i,
    {
        if is_version_at(&v, i) {
            return true;
        }
        i += 1;
    }
    false
}

/// Reads the directory `dir` of a release from its name and the change
/// types that were read from its directories.
pub fn parse(dir: &str, base_name: &str, change_types: Vec<ChangeType>) -> (r: Release)
    ensures
        r@ == release_of(dir@, base_name@, change_types.deep_view()),
{
    let mut problems: Vec<String> = Vec::new();
    if !is_unreleased(base_name) && !has_version(base_name) {
        let mut p = String::from_str("invalid version string: ");
        p.append(base_name);
        push_text(&mut problems, p);
    }
    assert(problems.deep_view() =~= name_check(base_name@));
    Release {
        change_types,
        path: dir.to_string(),
        problems,
        summary: None,
        version: base_name.to_string(),
    }
}

} // verus!
