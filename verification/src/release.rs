//! Releases: the sections of a changelog that each hold one version.
//!
//! The header of a release reads `## Unreleased` or
//! `## [version](link) - YYYY-MM-DD`.

use crate::change_type::{change_type_text, ChangeType, ChangeTypeView};
use crate::config::{Config, ConfigView};
use crate::errors::ReleaseError;
use crate::text::{ascii_lower, find_last, has_at, has_at_any_case, is_digit, last_index_of, match_at, match_at_any_case, push_text, run_end, same_text, scan_run, slice_string, to_chars, Class};
use crate::version::{newer, version_of};
use vstd::prelude::*;
use vstd::string::*;

verus! {

/// One release of a changelog, with its change types.
#[derive(Clone, Debug)]
pub struct Release {
    /// The header line as it was found.
    pub line: String,
    /// The header line as it should read.
    pub fixed: String,
    /// The version of the release, or `Unreleased`.
    pub version: String,
    /// The change types of the release, in the order of the document.
    pub change_types: Vec<ChangeType>,
    /// What is wrong with the header as it was found.
    pub problems: Vec<String>,
}

/// What a `Release` holds.
pub struct ReleaseView {
    pub line: Seq<char>,
    pub fixed: Seq<char>,
    pub version: Seq<char>,
    pub change_types: Seq<ChangeTypeView>,
    pub problems: Seq<Seq<char>>,
}

impl DeepView for Release {
    type V = ReleaseView;

    open spec fn deep_view(&self) -> ReleaseView {
        ReleaseView {
            line: self.line@,
            fixed: self.fixed@,
            version: self.version@,
            change_types: self.change_types.deep_view(),
            problems: self.problems.deep_view(),
        }
    }
}

impl View for Release {
    type V = ReleaseView;

    open spec fn view(&self) -> ReleaseView {
        self.deep_view()
    }
}

/// The sections of the first `n` change types, each with an empty line
/// before it.
pub open spec fn change_types_text(types: Seq<ChangeTypeView>, n: nat) -> Seq<char>
    decreases n,
{
    if n == 0 {
        seq![]
    } else {
        change_types_text(types, (n - 1) as nat) + "\n"@ + change_type_text(types[n - 1])
    }
}

/// The section of a release as it should read: the header and the sections
/// of its change types.
pub open spec fn release_text(r: ReleaseView) -> Seq<char> {
    r.fixed + "\n"@ + change_types_text(r.change_types, r.change_types.len())
}

/// Whether a release with this version is exempt from the checks: a legacy
/// version is configured, the release is not the unreleased one, and its
/// version is not newer than the legacy version.
pub open spec fn legacy(config: ConfigView, version: Seq<char>) -> Result<bool, ReleaseError> {
    if version == "Unreleased"@ {
        Ok(false)
    } else {
        match config.legacy_version {
            None => Ok(false),
            Some(limit) => match version_of(limit) {
                Err(e) => Err(ReleaseError::InvalidVersion(e)),
                Ok(limit) => match version_of(version) {
                    Err(e) => Err(ReleaseError::InvalidVersion(e)),
                    Ok(v) => Ok(!newer(v, limit)),
                },
            },
        }
    }
}

impl Release {
    /// The section as it should read.
    pub fn get_fixed_contents(&self) -> (s: String)
        ensures
            s@ == release_text(self@),
    {
        let mut s = String::new();
        s.append(self.fixed.as_str());
        s.append("\n");
        let ghost head = s@;
        assert(head =~= self@.fixed + "\n"@);
        let mut i: usize = 0;
        while i < self.change_types.len()
            invariant
                i <= self.change_types.len(),
                s@ == head + change_types_text(self@.change_types, i as nat),
            decreases self.change_types.len() - i,
        {
            s.append("\n");
            s.append(self.change_types[i].get_fixed_contents().as_str());
            i += 1;
            assert(s@ =~= head + change_types_text(self@.change_types, i as nat));
        }
        s
    }

    /// Whether this is the section of what is not released yet.
    pub fn is_unreleased(&self) -> (r: bool)
        ensures
            r == (self@.version == "Unreleased"@),
    {
        same_text(self.version.as_str(), "Unreleased")
    }

    /// Whether the release is exempt from the checks. The unreleased
    /// section never is, and no release is without a legacy version.
    pub fn is_legacy(&self, config: &Config) -> (r: Result<bool, ReleaseError>)
        ensures
            r == legacy(config@, self@.version),
            self@.version == "Unreleased"@ ==> r == Ok::<bool, ReleaseError>(false),
            config@.legacy_version is None ==> r == Ok::<bool, ReleaseError>(false),
    {
        if self.is_unreleased() {
            return Ok(false);
        }
        let limit = match &config.legacy_version {
            None => {
                return Ok(false);
            },
            Some(limit) => match crate::version::parse(limit.as_str()) {
                Ok(v) => v,
                Err(e) => {
                    return Err(ReleaseError::InvalidVersion(e));
                },
            },
        };
        match crate::version::parse(self.version.as_str()) {
            Ok(v) => Ok(!v.gt(&limit)),
            Err(e) => Err(ReleaseError::InvalidVersion(e)),
        }
    }
}

/// The section of what is not released yet, without change types.
pub fn new_unreleased() -> (r: Release)
    ensures
        r@ == (ReleaseView {
            line: "## Unreleased"@,
            fixed: "## Unreleased"@,
            version: "Unreleased"@,
            change_types: seq![],
            problems: seq![],
        }),
{
    let r = Release {
        line: String::from_str("## Unreleased"),
        fixed: String::from_str("## Unreleased"),
        version: String::from_str("Unreleased"),
        change_types: Vec::new(),
        problems: Vec::new(),
    };
    assert(r.change_types.deep_view() =~= seq![]);
    assert(r.problems.deep_view() =~= seq![]);
    r
}

/// A release without a header, a version or change types.
pub fn new_empty_release() -> (r: Release)
    ensures
        r@ == (ReleaseView {
            line: seq![],
            fixed: seq![],
            version: seq![],
            change_types: seq![],
            problems: seq![],
        }),
{
    let r = Release {
        line: String::new(),
        fixed: String::new(),
        version: String::new(),
        change_types: Vec::new(),
        problems: Vec::new(),
    };
    assert(r.change_types.deep_view() =~= seq![]);
    assert(r.problems.deep_view() =~= seq![]);
    r
}

/// The link to the release of `version` in the repository at `repo`.
pub open spec fn release_link(repo: Seq<char>, version: Seq<char>) -> Seq<char> {
    repo + "/releases/tag/"@ + version
}

/// What the check of a release's link gives: the link as the configuration
/// and the version make it, and one problem where the link found is missing
/// or another.
pub open spec fn release_link_check(config: ConfigView, link: Seq<char>, version: Seq<char>) -> (
    Seq<char>,
    Seq<Seq<char>>,
) {
    let fixed = release_link(config.target_repo, version);
    if link.len() == 0 {
        (fixed, seq!["Release link is missing for version "@ + version])
    } else if link != fixed {
        (
            fixed,
            seq![
                "Release link should point to the GitHub release for "@ + version
                    + "; expected: '"@ + fixed + "'; got: '"@ + link + "'"@,
            ],
        )
    } else {
        (fixed, seq![])
    }
}

/// Checks the link of a release header against the repository of the
/// configuration and the version.
pub fn check_link(config: &Config, link: &str, version: &str) -> (r: (String, Vec<String>))
    ensures
        (r.0@, r.1.deep_view()) == release_link_check(config@, link@, version@),
{
    let mut problems: Vec<String> = Vec::new();
    assert(problems.deep_view() =~= seq![]);
    let mut fixed = config.target_repo.clone();
    fixed.append("/releases/tag/");
    fixed.append(version);
    if link.is_empty() {
        let mut p = String::from_str("Release link is missing for version ");
        p.append(version);
        push_text(&mut problems, p);
        assert(problems.deep_view() =~= release_link_check(config@, link@, version@).1);
        return (fixed, problems);
    }
    if !same_text(link, fixed.as_str()) {
        let mut p = String::from_str("Release link should point to the GitHub release for ");
        p.append(version);
        p.append("; expected: '");
        p.append(fixed.as_str());
        p.append("'; got: '");
        p.append(link);
        p.append("'");
        push_text(&mut problems, p);
    }
    assert(problems.deep_view() =~= release_link_check(config@, link@, version@).1);
    (fixed, problems)
}

/// The grammar of the header of what is not released yet: `##` and the word
/// `unreleased`, in capitals or lower case, with any white space around
/// them.
pub open spec fn is_unreleased_header(s: Seq<char>) -> bool {
    let hashes = run_end(s, 0, Class::Space);
    let word = run_end(s, hashes + 2, Class::Space);
    &&& has_at(s, hashes, "##"@)
    &&& has_at_any_case(s, word, "unreleased"@)
    &&& run_end(s, word + 10, Class::Space) == s.len()
}

/// The release that the header of what is not released yet stands for. A
/// header that does not read `## Unreleased` to the letter is a problem.
pub open spec fn unreleased_of(line: Seq<char>) -> ReleaseView {
    ReleaseView {
        line,
        fixed: "## Unreleased"@,
        version: "Unreleased"@,
        change_types: seq![],
        problems: if line != "## Unreleased"@ {
            seq![
                "Unreleased header is malformed; expected: '"@ + "## Unreleased"@ + "'; got: '"@
                    + line + "'"@,
            ]
        } else {
            seq![]
        },
    }
}

/// Reads the header of what is not released yet.
pub fn check_unreleased(line: &str) -> (r: Option<Release>)
    ensures
        r.deep_view() == if is_unreleased_header(line@) {
            Some(unreleased_of(line@))
        } else {
            None
        },
{
    let v = to_chars(line);
    let hashes = scan_run(&v, 0, Class::Space);
    if !match_at(&v, hashes, "##") {
        return None;
    }
    proof {
        reveal_strlit("##");
        reveal_strlit("unreleased");
    }
    let word = scan_run(&v, hashes + 2, Class::Space);
    if !match_at_any_case(&v, word, "unreleased") {
        return None;
    }
    if scan_run(&v, word + 10, Class::Space) != v.len() {
        return None;
    }
    let fixed = String::from_str("## Unreleased");
    let mut problems: Vec<String> = Vec::new();
    assert(problems.deep_view() =~= seq![]);
    if !same_text(fixed.as_str(), line) {
        let mut p = String::from_str("Unreleased header is malformed; expected: '");
        p.append(fixed.as_str());
        p.append("'; got: '");
        p.append(line);
        p.append("'");
        push_text(&mut problems, p);
    }
    let r = Release {
        line: line.to_string(),
        fixed,
        version: String::from_str("Unreleased"),
        change_types: Vec::new(),
        problems,
    };
    assert(r.change_types.deep_view() =~= seq![]);
    assert(r.problems.deep_view() =~= unreleased_of(line@).problems);
    Some(r)
}

/// The parts that the grammar of a dated release header divides a line into.
pub struct ReleaseFields {
    /// The version as written.
    pub version: Seq<char>,
    /// What stands between the round brackets; nothing without them.
    pub link: Seq<char>,
    /// The date as written.
    pub date: Seq<char>,
}

/// Where the version that begins at index `i` ends: behind `v` or `V`, three
/// numbers with a full stop between them and, where it follows, `-rc` in
/// capitals or lower case with a fourth number.
pub open spec fn version_end(s: Seq<char>, i: int) -> Option<int> {
    let n = s.len() as int;
    let a = run_end(s, i + 1, Class::Digit);
    let b = run_end(s, a + 1, Class::Digit);
    let c = run_end(s, b + 1, Class::Digit);
    let d = run_end(s, c + 3, Class::Digit);
    if {
        &&& 0 <= i < n && ascii_lower(s[i]) == 'v'
        &&& i + 1 < a < n && s[a] == '.'
        &&& a + 1 < b < n && s[b] == '.'
        &&& b + 1 < c
    } {
        if has_at_any_case(s, c, "-rc"@) && c + 3 < d {
            Some(d)
        } else {
            Some(c)
        }
    } else {
        None
    }
}

/// Whether a date, `YYYY-MM-DD` in digits, begins at index `i` and ends the
/// text.
pub open spec fn is_date(s: Seq<char>, i: int) -> bool {
    &&& 0 <= i
    &&& i + 10 == s.len()
    &&& is_digit(s[i]) && is_digit(s[i + 1]) && is_digit(s[i + 2]) && is_digit(s[i + 3])
    &&& s[i + 4] == '-'
    &&& is_digit(s[i + 5]) && is_digit(s[i + 6])
    &&& s[i + 7] == '-'
    &&& is_digit(s[i + 8]) && is_digit(s[i + 9])
}

/// The grammar of a dated release header: `##`, a version in square
/// brackets, a link in round brackets or none, a dash and a date, with any
/// white space before the `##`, the version, the dash and the date. The link
/// reaches to the last closing bracket of the line and holds no line feed.
pub open spec fn release_fields(s: Seq<char>) -> Option<ReleaseFields> {
    let n = s.len() as int;
    let hashes = run_end(s, 0, Class::Space);
    let square = run_end(s, hashes + 2, Class::Space);
    match version_end(s, square + 1) {
        None => None,
        Some(end) => {
            let linked = end + 1 < n && s[end + 1] == '(';
            let close = last_index_of(s, ')', n);
            let rest = if linked {
                close + 1
            } else {
                end + 1
            };
            let dash = run_end(s, rest, Class::Space);
            let date = run_end(s, dash + 1, Class::Space);
            if {
                &&& has_at(s, hashes, "##"@)
                &&& square < n && s[square] == '['
                &&& end < n && s[end] == ']'
                &&& linked ==> end + 1 < close && run_end(s, end + 2, Class::Line) >= close
                &&& dash < n && s[dash] == '-'
                &&& is_date(s, date)
            } {
                Some(
                    ReleaseFields {
                        version: s.subrange(square + 1, end),
                        link: if linked {
                            s.subrange(end + 2, close)
                        } else {
                            seq![]
                        },
                        date: s.subrange(date, n),
                    },
                )
            } else {
                None
            }
        },
    }
}

/// The parts of a line that follows the grammar of a dated release header.
pub struct ReleaseParts {
    pub version: String,
    pub link: String,
    pub date: String,
}

impl ReleaseParts {
    /// Whether the parts are those that the grammar names `f`.
    pub open spec fn holds(self, f: ReleaseFields) -> bool {
        &&& self.version@ == f.version
        &&& self.link@ == f.link
        &&& self.date@ == f.date
    }
}

/// Finds the end of the version that begins at index `i`.
fn scan_version(v: &Vec<char>, i: usize) -> (r: Option<usize>)
    requires
        i <= v.len(),
    ensures
        match r {
            Some(end) => version_end(v@, i as int) == Some(end as int) && i < end <= v.len(),
            None => version_end(v@, i as int) is None,
        },
{
    let n = v.len();
    if !(i < n && (v[i] == 'v' || v[i] == 'V')) {
        return None;
    }
    let a = scan_run(v, i + 1, Class::Digit);
    if !(i + 1 < a && a < n && v[a] == '.') {
        return None;
    }
    let b = scan_run(v, a + 1, Class::Digit);
    if !(a + 1 < b && b < n && v[b] == '.') {
        return None;
    }
    let c = scan_run(v, b + 1, Class::Digit);
    if !(b + 1 < c) {
        return None;
    }
    proof {
        reveal_strlit("-rc");
    }
    if match_at_any_case(v, c, "-rc") {
        let d = scan_run(v, c + 3, Class::Digit);
        if c + 3 < d {
            return Some(d);
        }
    }
    Some(c)
}

/// Tests whether a date begins at index `i` and ends the text.
fn check_date(v: &Vec<char>, i: usize) -> (r: bool)
    requires
        i <= v.len(),
    ensures
        r == is_date(v@, i as int),
{
    if v.len() - i != 10 {
        return false;
    }
    let d = Class::Digit;
    d.test(v[i]) && d.test(v[i + 1]) && d.test(v[i + 2]) && d.test(v[i + 3]) && v[i + 4] == '-'
        && d.test(v[i + 5]) && d.test(v[i + 6]) && v[i + 7] == '-' && d.test(v[i + 8]) && d.test(
        v[i + 9],
    )
}

/// Divides a line by the grammar of a dated release header.
pub fn split_release(line: &str) -> (r: Option<ReleaseParts>)
    ensures
        r is Some <==> release_fields(line@) is Some,
        r matches Some(p) ==> p.holds(release_fields(line@)->0),
{
    let v = to_chars(line);
    let n = v.len();
    let hashes = scan_run(&v, 0, Class::Space);
    if !match_at(&v, hashes, "##") {
        return None;
    }
    proof {
        reveal_strlit("##");
    }
    let square = scan_run(&v, hashes + 2, Class::Space);
    if !(square < n && v[square] == '[') {
        return None;
    }
    let end = match scan_version(&v, square + 1) {
        Some(end) => end,
        None => {
            return None;
        },
    };
    if !(end < n && v[end] == ']') {
        return None;
    }
    let linked = end + 1 < n && v[end + 1] == '(';
    let mut rest: usize = end + 1;
    let mut link = String::new();
    if linked {
        let close = match find_last(&v, ')', n) {
            Some(close) => close,
            None => {
                return None;
            },
        };
        if !(end + 1 < close) {
            return None;
        }
        if scan_run(&v, end + 2, Class::Line) < close {
            return None;
        }
        link = slice_string(&v, end + 2, close);
        rest = close + 1;
    }
    let dash = scan_run(&v, rest, Class::Space);
    if !(dash < n && v[dash] == '-') {
        return None;
    }
    let date = scan_run(&v, dash + 1, Class::Space);
    if !check_date(&v, date) {
        return None;
    }
    Some(
        ReleaseParts {
            version: slice_string(&v, square + 1, end),
            link,
            date: slice_string(&v, date, n),
        },
    )
}

/// The release that a header stands for: the unreleased section, or a
/// release with its version, its link made anew and its date.
pub open spec fn release_of(config: ConfigView, line: Seq<char>) -> Result<
    ReleaseView,
    ReleaseError,
> {
    if is_unreleased_header(line) {
        Ok(unreleased_of(line))
    } else {
        match release_fields(line) {
            None => Err(ReleaseError::NoMatchFound),
            Some(f) => {
                let link = release_link_check(config, f.link, f.version);
                Ok(
                    ReleaseView {
                        line,
                        fixed: "## ["@ + f.version + "]("@ + link.0 + ") - "@ + f.date,
                        version: f.version,
                        change_types: seq![],
                        problems: link.1,
                    },
                )
            },
        }
    }
}

/// Parses the header of a release.
pub fn parse(config: &Config, line: &str) -> (r: Result<Release, ReleaseError>)
    ensures
        match r {
            Ok(release) => release_of(config@, line@) == Ok::<ReleaseView, ReleaseError>(
                release@,
            ),
            Err(e) => release_of(config@, line@) == Err::<ReleaseView, ReleaseError>(e),
        },
{
    if let Some(r) = check_unreleased(line) {
        return Ok(r);
    }
    let parts = match split_release(line) {
        Some(parts) => parts,
        None => {
            return Err(ReleaseError::NoMatchFound);
        },
    };
    let (fixed_link, problems) = check_link(config, parts.link.as_str(), parts.version.as_str());
    let mut fixed = String::from_str("## [");
    fixed.append(parts.version.as_str());
    fixed.append("](");
    fixed.append(fixed_link.as_str());
    fixed.append(") - ");
    fixed.append(parts.date.as_str());
    let release = Release {
        line: line.to_string(),
        fixed,
        version: parts.version,
        change_types: Vec::new(),
        problems,
    };
    assert(release.change_types.deep_view() =~= seq![]);
    Ok(release)
}

} // verus!
