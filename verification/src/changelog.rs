//! The changelog as a whole: how its lines are read, one after the other,
//! into releases, change types and entries, and how it is written out again.
//!
//! Reading is a state machine. `line_kind` says what a line is read as,
//! `line_scanned` what it does to the state and to the document read so far;
//! `changelog_of` is the document after the last line.

use crate::change_type::{change_type_of, ChangeType, ChangeTypeView};
use crate::config::{Config, ConfigView};
use crate::entry::{entry_of, Entry, EntryView};
use crate::errors::{ChangeTypeError, ChangelogError};
use crate::escapes::{check_escape_pattern, escape_of, LinterEscape};
use crate::release::{legacy, release_of, release_text, Release, ReleaseView};
use crate::text::{contains_text, decimal, find_text, is_space, lines_from, lines_of, match_at, push_decimal, push_text, run_end, scan_run, slice_string, starts_with, to_chars, Class};
use vstd::prelude::*;
use vstd::string::*;

verus! {

/// A changelog: what was read from a document, and what was found wrong.
#[derive(Clone, Debug)]
pub struct Changelog {
    /// Where the document is kept.
    pub path: String,
    /// The lines of the document before its legacy part, each as it should
    /// read: headers and entries corrected, every other line as it was
    /// found.
    pub fixed: Vec<String>,
    /// The lines of the comments at the head of the document.
    pub comments: Vec<String>,
    /// The lines behind the header of the first legacy release, as they were
    /// found.
    pub legacy_contents: Vec<String>,
    /// The releases, in the order of the document.
    pub releases: Vec<Release>,
    /// Every problem found, with its place, in the order of the lines.
    pub problems: Vec<String>,
}

/// What a `Changelog` holds.
pub struct ChangelogView {
    pub path: Seq<char>,
    pub fixed: Seq<Seq<char>>,
    pub comments: Seq<Seq<char>>,
    pub legacy_contents: Seq<Seq<char>>,
    pub releases: Seq<ReleaseView>,
    pub problems: Seq<Seq<char>>,
}

impl DeepView for Changelog {
    type V = ChangelogView;

    open spec fn deep_view(&self) -> ChangelogView {
        ChangelogView {
            path: self.path@,
            fixed: self.fixed.deep_view(),
            comments: self.comments.deep_view(),
            legacy_contents: self.legacy_contents.deep_view(),
            releases: self.releases.deep_view(),
            problems: self.problems.deep_view(),
        }
    }
}

impl View for Changelog {
    type V = ChangelogView;

    open spec fn view(&self) -> ChangelogView {
        self.deep_view()
    }
}

/// The first `n` of the given lines, each with a line feed behind it.
pub open spec fn lines_text(lines: Seq<Seq<char>>, n: nat) -> Seq<char>
    decreases n,
{
    if n == 0 {
        seq![]
    } else {
        lines_text(lines, (n - 1) as nat) + lines[n - 1] + "\n"@
    }
}

/// The sections of the first `n` releases, each with an empty line before
/// it.
pub open spec fn releases_text(releases: Seq<ReleaseView>, n: nat) -> Seq<char>
    decreases n,
{
    if n == 0 {
        seq![]
    } else {
        releases_text(releases, (n - 1) as nat) + "\n"@ + release_text(releases[n - 1])
    }
}

/// The changelog as it should read: the comments at its head, the title, the
/// releases with their change types and entries, and the legacy part as it
/// was found.
pub open spec fn changelog_text(c: ChangelogView) -> Seq<char> {
    lines_text(c.comments, c.comments.len()) + "# Changelog\n"@ + releases_text(
        c.releases,
        c.releases.len(),
    ) + lines_text(c.legacy_contents, c.legacy_contents.len())
}

/// The changelog as it should read line by line: every line of the
/// document in its fixed form, the legacy part as it was found.
pub open spec fn fixed_text(c: ChangelogView) -> Seq<char> {
    lines_text(c.fixed + c.legacy_contents, (c.fixed + c.legacy_contents).len())
}

/// The lines of the first list and, behind them, those of the second, are
/// the lines of both.
pub proof fn lemma_lines_text_add(a: Seq<Seq<char>>, b: Seq<Seq<char>>, n: nat)
    requires
        n <= b.len(),
    ensures
        lines_text(a + b, a.len() + n) == lines_text(a, a.len()) + lines_text(b, n),
    decreases n,
{
    if n == 0 {
        lemma_lines_text_same(a + b, a, a.len());
        assert(lines_text(a, a.len()) + lines_text(b, 0) =~= lines_text(a, a.len()));
    } else {
        lemma_lines_text_add(a, b, (n - 1) as nat);
        assert((a + b)[a.len() + n - 1] == b[n - 1]);
        assert(lines_text(a + b, a.len() + n) =~= lines_text(a, a.len()) + lines_text(b, n));
    }
}

/// The text of the first `n` lines depends on these lines only.
pub proof fn lemma_lines_text_same(a: Seq<Seq<char>>, b: Seq<Seq<char>>, n: nat)
    requires
        n <= a.len(),
        n <= b.len(),
        forall|i: int| 0 <= i < n ==> a[i] == b[i],
    ensures
        lines_text(a, n) == lines_text(b, n),
    decreases n,
{
    if n > 0 {
        lemma_lines_text_same(a, b, (n - 1) as nat);
    }
}

/// Appends the given lines to `s`, each with a line feed behind it.
fn push_lines(s: &mut String, lines: &Vec<String>)
    ensures
        final(s)@ == old(s)@ + lines_text(lines.deep_view(), lines.deep_view().len()),
{
    let ghost head = s@;
    let mut i: usize = 0;
    assert(s@ =~= head + lines_text(lines.deep_view(), 0));
    while i < lines.len()
        invariant
            i <= lines.len(),
            s@ == head + lines_text(lines.deep_view(), i as nat),
        decreases lines.len() - i,
    {
        s.append(lines[i].as_str());
        s.append("\n");
        i += 1;
        assert(s@ =~= head + lines_text(lines.deep_view(), i as nat));
    }
}

impl Changelog {
    /// The changelog as it should read.
    pub fn get_fixed_contents(&self) -> (s: String)
        ensures
            s@ == changelog_text(self@),
    {
        let mut s = String::new();
        push_lines(&mut s, &self.comments);
        s.append("# Changelog\n");
        let ghost head = s@;
        assert(head =~= lines_text(self@.comments, self@.comments.len()) + "# Changelog\n"@);
        let mut i: usize = 0;
        assert(s@ =~= head + releases_text(self@.releases, 0));
        while i < self.releases.len()
            invariant
                i <= self.releases.len(),
                s@ == head + releases_text(self@.releases, i as nat),
            decreases self.releases.len() - i,
        {
            s.append("\n");
            s.append(self.releases[i].get_fixed_contents().as_str());
            i += 1;
            assert(s@ =~= head + releases_text(self@.releases, i as nat));
        }
        push_lines(&mut s, &self.legacy_contents);
        s
    }

    /// The changelog as it should read.
    pub fn get_fixed(&self) -> (s: String)
        ensures
            s@ == changelog_text(self@),
    {
        self.get_fixed_contents()
    }

    /// Whether a problem was found.
    pub fn has_problems(&self) -> (r: bool)
        ensures
            r == (self@.problems.len() > 0),
    {
        self.problems.len() > 0
    }

    /// The changelog as it should read line by line: what is no header and
    /// no entry stays where it was found.
    pub fn get_fixed_lines(&self) -> (s: String)
        ensures
            s@ == fixed_text(self@),
    {
        let mut s = String::new();
        push_lines(&mut s, &self.fixed);
        push_lines(&mut s, &self.legacy_contents);
        proof {
            lemma_lines_text_add(
                self@.fixed,
                self@.legacy_contents,
                self@.legacy_contents.len(),
            );
            assert(s@ =~= lines_text(self@.fixed, self@.fixed.len()) + lines_text(
                self@.legacy_contents,
                self@.legacy_contents.len(),
            ));
        }
        s
    }
}

/// A problem with its place: the path, the number of the line where one is
/// given, counted from one, and the message.
pub open spec fn located(path: Seq<char>, line: Option<nat>, problem: Seq<char>) -> Seq<char> {
    match line {
        Some(l) => path + ":"@ + decimal(l + 1) + ": "@ + problem,
        None => path + ": "@ + problem,
    }
}

/// The given problems, each with the place of line `index`.
pub open spec fn located_all(path: Seq<char>, index: nat, problems: Seq<Seq<char>>) -> Seq<
    Seq<char>,
> {
    problems.map_values(|p: Seq<char>| located(path, Some(index), p))
}

/// Appends a problem with its place to the list. `line` counts from zero;
/// the text counts from one.
pub fn add_to_problems(problems: &mut Vec<String>, fp: &str, line: Option<usize>, problem: &str)
    requires
        line matches Some(l) ==> l < usize::MAX,
    ensures
        final(problems).deep_view() == old(problems).deep_view().push(
            located(
                fp@,
                match line {
                    Some(l) => Some(l as nat),
                    None => None,
                },
                problem@,
            ),
        ),
{
    let mut s = String::from_str(fp);
    match line {
        Some(l) => {
            s.append(":");
            push_decimal(&mut s, (l + 1) as u64);
            s.append(": ");
        },
        None => {
            s.append(": ");
        },
    }
    s.append(problem);
    push_text(problems, s);
}

/// Appends the given problems to the list, each with the place of line
/// `index`.
fn report(problems: &mut Vec<String>, path: &str, index: usize, found: &Vec<String>)
    requires
        index < usize::MAX,
    ensures
        final(problems).deep_view() == old(problems).deep_view() + located_all(
            path@,
            index as nat,
            found.deep_view(),
        ),
{
    let ghost before = problems.deep_view();
    let mut i: usize = 0;
    assert(problems.deep_view() =~= before + located_all(
        path@,
        index as nat,
        found.deep_view().subrange(0, 0),
    ));
    while i < found.len()
        invariant
            i <= found.len(),
            index < usize::MAX,
            problems.deep_view() == before + located_all(
                path@,
                index as nat,
                found.deep_view().subrange(0, i as int),
            ),
        decreases found.len() - i,
    {
        add_to_problems(problems, path, Some(index), found[i].as_str());
        i += 1;
        assert(problems.deep_view() =~= before + located_all(
            path@,
            index as nat,
            found.deep_view().subrange(0, i as int),
        ));
    }
    assert(found.deep_view().subrange(0, i as int) == found.deep_view());
}

/// Where the white space at the end of `s` begins, looking back from index
/// `i`.
pub open spec fn trim_end(s: Seq<char>, i: int) -> int
    decreases i,
{
    if i > 0 && is_space(s[i - 1]) {
        trim_end(s, i - 1)
    } else {
        i
    }
}

/// `s` without the white space at its start and at its end.
pub open spec fn trimmed(s: Seq<char>) -> Seq<char> {
    let from = run_end(s, 0, Class::Space);
    let to = trim_end(s, s.len() as int);
    if from < to {
        s.subrange(from, to)
    } else {
        seq![]
    }
}

/// The characters of `line` without the white space at both ends.
fn trim_chars(line: &str) -> (t: Vec<char>)
    ensures
        t@ == trimmed(line@),
{
    let v = to_chars(line);
    let from = scan_run(&v, 0, Class::Space);
    let mut to: usize = v.len();
    while to > 0 && Class::Space.test(v[to - 1])
        invariant
            to <= v.len(),
            trim_end(v@, v.len() as int) == trim_end(v@, to as int),
        decreases to,
    {
        to -= 1;
    }
    let mut t: Vec<char> = Vec::new();
    if from < to {
        let mut i: usize = from;
        while i < to
            invariant
                from <= i <= to <= v.len(),
                t@ == v@.subrange(from as int, i as int),
            decreases to - i,
        {
            t.push(v[i]);
            i += 1;
            assert(t@ =~= v@.subrange(from as int, i as int));
        }
    }
    assert(t@ =~= trimmed(line@));
    t
}

/// The lines of a text.
pub fn split_lines(contents: &str) -> (lines: Vec<String>)
    ensures
        lines.deep_view() == lines_of(contents@),
{
    let v = to_chars(contents);
    let n = v.len();
    let mut lines: Vec<String> = Vec::new();
    let mut i: usize = 0;
    assert(lines.deep_view() + lines_from(v@, 0) =~= lines_of(contents@));
    while i < n
        invariant
            i <= n,
            n == v.len(),
            v@ == contents@,
            lines.deep_view() + lines_from(v@, i as int) == lines_of(contents@),
        decreases n - i,
    {
        let ghost before = lines.deep_view();
        let e = scan_run(&v, i, Class::Line);
        if e < n {
            let to = if e > i && v[e - 1] == '\r' {
                e - 1
            } else {
                e
            };
            let line = slice_string(&v, i, to);
            proof {
                let whole = v@.subrange(i as int, e as int);
                if e > i && v[e - 1] == '\r' {
                    assert(whole.drop_last() == v@.subrange(i as int, to as int));
                }
            }
            let ghost text = line@;
            push_text(&mut lines, line);
            assert(lines.deep_view() + lines_from(v@, e + 1) =~= before + (seq![text]
                + lines_from(v@, e + 1)));
            i = e + 1;
        } else {
            let line = slice_string(&v, i, n);
            let ghost text = line@;
            push_text(&mut lines, line);
            assert(lines_from(v@, n as int) =~= seq![]);
            assert(lines.deep_view() + lines_from(v@, n as int) =~= before + seq![text]);
            i = n;
        }
    }
    assert(lines_from(v@, i as int) =~= seq![]);
    assert(lines.deep_view() + lines_from(v@, i as int) =~= lines.deep_view());
    lines
}

/// Where the reading of a changelog stands.
#[derive(Clone, Copy, Debug, PartialEq, Eq)]
pub enum ScanMode {
    /// Between the constructs of the document.
    Normal,
    /// Inside a comment at the head of the document that is not closed yet.
    InLeadingComment,
    /// Behind the header of a legacy release: nothing is read any more.
    InLegacyPassthrough,
}

/// What the reading of a changelog remembers from line to line.
#[derive(Debug)]
pub struct ScanState {
    /// Where the reading stands.
    pub mode: ScanMode,
    /// The versions of the releases read so far.
    pub seen_releases: Vec<String>,
    /// The names of the change types read so far in the release at hand.
    pub seen_change_types: Vec<String>,
    /// The numbers of the pull requests of all entries read so far.
    pub seen_prs: Vec<u64>,
    /// The escape that waits for the next entry.
    pub escape: Option<LinterEscape>,
}

/// What a `ScanState` holds.
pub struct ScanStateView {
    pub mode: ScanMode,
    pub seen_releases: Seq<Seq<char>>,
    pub seen_change_types: Seq<Seq<char>>,
    pub seen_prs: Seq<u64>,
    pub escape: Option<LinterEscape>,
}

impl DeepView for ScanState {
    type V = ScanStateView;

    open spec fn deep_view(&self) -> ScanStateView {
        ScanStateView {
            mode: self.mode,
            seen_releases: self.seen_releases.deep_view(),
            seen_change_types: self.seen_change_types.deep_view(),
            seen_prs: self.seen_prs@,
            escape: self.escape,
        }
    }
}

impl View for ScanState {
    type V = ScanStateView;

    open spec fn view(&self) -> ScanStateView {
        self.deep_view()
    }
}

/// The state before the first line.
pub open spec fn start_state() -> ScanStateView {
    ScanStateView {
        mode: ScanMode::Normal,
        seen_releases: seq![],
        seen_change_types: seq![],
        seen_prs: seq![],
        escape: None,
    }
}

/// The changelog before the first line.
pub open spec fn empty_changelog(path: Seq<char>) -> ChangelogView {
    ChangelogView {
        path,
        fixed: seq![],
        comments: seq![],
        legacy_contents: seq![],
        releases: seq![],
        problems: seq![],
    }
}

impl ScanState {
    /// The state before the first line.
    pub fn new() -> (s: ScanState)
        ensures
            s@ == start_state(),
    {
        let s = ScanState {
            mode: ScanMode::Normal,
            seen_releases: Vec::new(),
            seen_change_types: Vec::new(),
            seen_prs: Vec::new(),
            escape: None,
        };
        assert(s.seen_releases.deep_view() =~= seq![]);
        assert(s.seen_change_types.deep_view() =~= seq![]);
        s
    }
}

impl Changelog {
    /// The changelog of an empty document that is kept at `path`.
    pub fn new(path: &str) -> (c: Changelog)
        ensures
            c@ == empty_changelog(path@),
    {
        let c = Changelog {
            path: path.to_string(),
            fixed: Vec::new(),
            comments: Vec::new(),
            legacy_contents: Vec::new(),
            releases: Vec::new(),
            problems: Vec::new(),
        };
        assert(c.fixed.deep_view() =~= seq![]);
        assert(c.comments.deep_view() =~= seq![]);
        assert(c.legacy_contents.deep_view() =~= seq![]);
        assert(c.releases.deep_view() =~= seq![]);
        assert(c.problems.deep_view() =~= seq![]);
        c
    }
}

/// The releases with one more change type in the last of them. Without a
/// release there is no place for it.
pub open spec fn with_change_type(releases: Seq<ReleaseView>, c: ChangeTypeView) -> Seq<
    ReleaseView,
> {
    if releases.len() > 0 {
        let r = releases.last();
        releases.update(
            releases.len() - 1,
            ReleaseView { change_types: r.change_types.push(c), ..r },
        )
    } else {
        releases
    }
}

/// The releases with one more entry in the last change type of the last of
/// them. Without a release, or a change type in it, there is no place for it.
pub open spec fn with_entry(releases: Seq<ReleaseView>, e: EntryView) -> Seq<ReleaseView> {
    if releases.len() > 0 && releases.last().change_types.len() > 0 {
        let r = releases.last();
        let c = r.change_types.last();
        releases.update(
            releases.len() - 1,
            ReleaseView {
                change_types: r.change_types.update(
                    r.change_types.len() - 1,
                    ChangeTypeView { entries: c.entries.push(e), ..c },
                ),
                ..r
            },
        )
    } else {
        releases
    }
}

/// What a line of a comment does: it is kept as it is, among the comments
/// while no release was read. A line that closes the comment may hold an
/// escape for the next entry; a line that does not leaves the comment open
/// while no release was read, and is passed over behind the first release.
pub open spec fn comment_scanned(state: ScanStateView, doc: ChangelogView, line: Seq<char>) -> (
    ScanStateView,
    ChangelogView,
) {
    let closes = contains_text(trimmed(line), "-->"@);
    (
        ScanStateView {
            mode: if closes {
                ScanMode::Normal
            } else if doc.releases.len() == 0 {
                ScanMode::InLeadingComment
            } else {
                state.mode
            },
            escape: if closes && escape_of(trimmed(line)) is Some {
                escape_of(trimmed(line))
            } else {
                state.escape
            },
            ..state
        },
        ChangelogView {
            comments: if doc.releases.len() == 0 {
                doc.comments.push(line)
            } else {
                doc.comments
            },
            fixed: doc.fixed.push(line),
            ..doc
        },
    )
}

/// What the header of a release does: the release becomes the one at hand,
/// the change types seen are forgotten, a waiting escape is dropped. A
/// version seen before is a problem, reported before those of the header.
/// A legacy release ends the reading.
pub open spec fn release_scanned(
    config: ConfigView,
    state: ScanStateView,
    doc: ChangelogView,
    index: nat,
    release: ReleaseView,
) -> Result<(ScanStateView, ChangelogView), ChangelogError> {
    match legacy(config, release.version) {
        Err(e) => Err(ChangelogError::InvalidRelease(e)),
        Ok(old) => {
            let twice = state.seen_releases.contains(release.version);
            let found = if twice {
                seq!["duplicate release: "@ + release.version] + release.problems
            } else {
                release.problems
            };
            Ok(
                (
                    ScanStateView {
                        mode: if old {
                            ScanMode::InLegacyPassthrough
                        } else {
                            ScanMode::Normal
                        },
                        seen_releases: if twice {
                            state.seen_releases
                        } else {
                            state.seen_releases.push(release.version)
                        },
                        seen_change_types: seq![],
                        seen_prs: state.seen_prs,
                        escape: None,
                    },
                    ChangelogView {
                        releases: doc.releases.push(release),
                        fixed: doc.fixed.push(release.fixed),
                        problems: doc.problems + located_all(doc.path, index, found),
                        ..doc
                    },
                ),
            )
        },
    }
}

/// The version of the release at hand; nothing before the first release.
pub open spec fn version_at_hand(doc: ChangelogView) -> Seq<char> {
    if doc.releases.len() > 0 {
        doc.releases.last().version
    } else {
        seq![]
    }
}

/// What the header of a change type does: the change type is added to the
/// release at hand and a waiting escape is dropped. A name seen before in
/// this release is a problem, reported before those of the header; both
/// sections are kept.
pub open spec fn change_type_scanned(
    state: ScanStateView,
    doc: ChangelogView,
    index: nat,
    change_type: ChangeTypeView,
) -> (ScanStateView, ChangelogView) {
    let twice = state.seen_change_types.contains(change_type.name);
    let found = if twice {
        seq![
            "duplicate change type in release "@ + version_at_hand(doc) + ": "@
                + change_type.name,
        ] + change_type.problems
    } else {
        change_type.problems
    };
    (
        ScanStateView {
            seen_change_types: if twice {
                state.seen_change_types
            } else {
                state.seen_change_types.push(change_type.name)
            },
            escape: None,
            ..state
        },
        ChangelogView {
            releases: with_change_type(doc.releases, change_type),
            fixed: doc.fixed.push(change_type.fixed),
            problems: doc.problems + located_all(doc.path, index, found),
            ..doc
        },
    )
}

/// What a line that begins with a dash does. One that is no entry is kept as
/// it is and is a problem, unless an escape for the whole line waits. An
/// entry is added to the change type at hand; a pull request seen before,
/// anywhere in the document, is a problem unless an escape of either kind
/// waits, and the problems of the entry follow unless an escape for the
/// whole line waits. The escape is used up in every case.
pub open spec fn entry_scanned(
    config: ConfigView,
    state: ScanStateView,
    doc: ChangelogView,
    index: nat,
    line: Seq<char>,
) -> (ScanStateView, ChangelogView) {
    let silent = state.escape == Some(LinterEscape::FullLine);
    match entry_of(config, line) {
        None => (
            ScanStateView { escape: None, ..state },
            ChangelogView {
                fixed: doc.fixed.push(line),
                problems: if silent {
                    doc.problems
                } else {
                    doc.problems.push(located(doc.path, Some(index), "invalid entry: "@ + line))
                },
                ..doc
            },
        ),
        Some(e) => {
            let twice = state.seen_prs.contains(e.pr_number as u64);
            let again = if twice && state.escape is None {
                seq!["duplicate PR: #"@ + decimal(e.pr_number)]
            } else {
                seq![]
            };
            let found = if silent {
                again
            } else {
                again + e.problems
            };
            (
                ScanStateView {
                    seen_prs: if twice {
                        state.seen_prs
                    } else {
                        state.seen_prs.push(e.pr_number as u64)
                    },
                    escape: None,
                    ..state
                },
                ChangelogView {
                    releases: with_entry(doc.releases, e),
                    fixed: doc.fixed.push(e.fixed),
                    problems: doc.problems + located_all(doc.path, index, found),
                    ..doc
                },
            )
        },
    }
}

/// What a line of a changelog is read as.
#[derive(Clone, Copy, Debug, PartialEq, Eq)]
pub enum LineKind {
    /// A line behind the header of a legacy release.
    Legacy,
    /// A line of a comment.
    Comment,
    /// The header of a release.
    Release,
    /// The header of a change type.
    ChangeType,
    /// A line that begins with a dash and is held to be an entry.
    Entry,
    /// Any other line.
    Other,
}

/// What a line is read as, where the reading stands at `mode`.
///
/// Behind the header of a legacy release every line is legacy. A line
/// inside an open comment belongs to it, and a line that opens a comment is
/// one. A line that, without the white space around it, begins with `## `
/// and follows the grammar of a release header is one; likewise `### ` and
/// a change type header. A line that begins with a dash is held to be an
/// entry.
pub open spec fn line_kind(config: ConfigView, mode: ScanMode, line: Seq<char>) -> LineKind {
    let t = trimmed(line);
    if mode == ScanMode::InLegacyPassthrough {
        LineKind::Legacy
    } else if mode == ScanMode::InLeadingComment || contains_text(t, "<!--"@) {
        LineKind::Comment
    } else if starts_with(t, "## "@) && release_of(config, line) is Ok {
        LineKind::Release
    } else if starts_with(t, "### "@) && change_type_of(config, line) != Err::<
        ChangeTypeView,
        ChangeTypeError,
    >(ChangeTypeError::NoMatchesFound) {
        LineKind::ChangeType
    } else if starts_with(t, "-"@) {
        LineKind::Entry
    } else {
        LineKind::Other
    }
}

/// What one line does to the state and to the document read so far: a
/// legacy line and any other line are kept as they are, each in its place;
/// a comment, a header and an entry are read as such.
pub open spec fn line_scanned(
    config: ConfigView,
    state: ScanStateView,
    doc: ChangelogView,
    index: nat,
    line: Seq<char>,
) -> Result<(ScanStateView, ChangelogView), ChangelogError> {
    match line_kind(config, state.mode, line) {
        LineKind::Legacy => Ok(
            (state, ChangelogView { legacy_contents: doc.legacy_contents.push(line), ..doc }),
        ),
        LineKind::Comment => Ok(comment_scanned(state, doc, line)),
        LineKind::Release => release_scanned(
            config,
            state,
            doc,
            index,
            release_of(config, line)->Ok_0,
        ),
        LineKind::ChangeType => match change_type_of(config, line) {
            Err(e) => Err(ChangelogError::InvalidChangeType(e)),
            Ok(c) => Ok(change_type_scanned(state, doc, index, c)),
        },
        LineKind::Entry => Ok(entry_scanned(config, state, doc, index, line)),
        LineKind::Other => Ok((state, ChangelogView { fixed: doc.fixed.push(line), ..doc })),
    }
}

/// The state and the document after the first `n` of the given lines.
pub open spec fn scanned(config: ConfigView, path: Seq<char>, lines: Seq<Seq<char>>, n: nat)
    -> Result<(ScanStateView, ChangelogView), ChangelogError>
    decreases n,
{
    if n == 0 {
        Ok((start_state(), empty_changelog(path)))
    } else {
        match scanned(config, path, lines, (n - 1) as nat) {
            Err(e) => Err(e),
            Ok((state, doc)) => line_scanned(config, state, doc, (n - 1) as nat, lines[n - 1]),
        }
    }
}

/// The changelog that a document stands for.
pub open spec fn changelog_of(config: ConfigView, path: Seq<char>, contents: Seq<char>) -> Result<
    ChangelogView,
    ChangelogError,
> {
    let lines = lines_of(contents);
    match scanned(config, path, lines, lines.len()) {
        Err(e) => Err(e),
        Ok((_, doc)) => Ok(doc),
    }
}

/// Whether the list holds the number.
fn holds_number(list: &Vec<u64>, n: u64) -> (r: bool)
    ensures
        r == list@.contains(n),
{
    let mut i: usize = 0;
    while i < list.len()
        invariant
            i <= list.len(),
            forall|j: int| 0 <= j < i ==> list@[j] != n,
        decreases list.len() - i,
    {
        if list[i] == n {
            return true;
        }
        i += 1;
    }
    false
}

/// Reads a line of a comment.
fn scan_comment(state: &mut ScanState, changelog: &mut Changelog, line: &str, t: &Vec<char>)
    requires
        t@ == trimmed(line@),
    ensures
        (final(state)@, final(changelog)@) == comment_scanned(
            old(state)@,
            old(changelog)@,
            line@,
        ),
{
    if find_text(t, "-->") {
        state.mode = ScanMode::Normal;
        let trimmed_line = slice_string(t, 0, t.len());
        assert(trimmed_line@ == t@);
        match check_escape_pattern(trimmed_line.as_str()) {
            Some(e) => {
                state.escape = Some(e);
            },
            None => {},
        }
    } else if changelog.releases.len() == 0 {
        state.mode = ScanMode::InLeadingComment;
    }
    if changelog.releases.len() == 0 {
        push_text(&mut changelog.comments, line.to_string());
    }
    push_text(&mut changelog.fixed, line.to_string());
}

/// Reads the header of a release.
fn scan_release(
    config: &Config,
    state: &mut ScanState,
    changelog: &mut Changelog,
    index: usize,
    release: Release,
) -> (r: Result<(), ChangelogError>)
    requires
        index < usize::MAX,
    ensures
        match r {
            Ok(()) => release_scanned(
                config@,
                old(state)@,
                old(changelog)@,
                index as nat,
                release@,
            ) == Ok::<(ScanStateView, ChangelogView), ChangelogError>(
                (final(state)@, final(changelog)@),
            ),
            Err(e) => release_scanned(
                config@,
                old(state)@,
                old(changelog)@,
                index as nat,
                release@,
            ) == Err::<(ScanStateView, ChangelogView), ChangelogError>(e),
        },
{
    let old_release = match release.is_legacy(config) {
        Ok(old_release) => old_release,
        Err(e) => {
            return Err(ChangelogError::InvalidRelease(e));
        },
    };
    let ghost problems_before = changelog.problems.deep_view();
    let ghost found = if state@.seen_releases.contains(release@.version) {
        seq!["duplicate release: "@ + release@.version] + release@.problems
    } else {
        release@.problems
    };
    if crate::text::holds_text(&state.seen_releases, release.version.as_str()) {
        let mut p = String::from_str("duplicate release: ");
        p.append(release.version.as_str());
        add_to_problems(&mut changelog.problems, changelog.path.as_str(), Some(index), p.as_str());
    } else {
        push_text(&mut state.seen_releases, release.version.clone());
    }
    report(&mut changelog.problems, changelog.path.as_str(), index, &release.problems);
    assert(changelog.problems.deep_view() =~= problems_before + located_all(
        changelog.path@,
        index as nat,
        found,
    ));
    state.seen_change_types = Vec::new();
    assert(state.seen_change_types.deep_view() =~= seq![]);
    state.escape = None;
    state.mode = if old_release {
        ScanMode::InLegacyPassthrough
    } else {
        ScanMode::Normal
    };
    push_text(&mut changelog.fixed, release.fixed.clone());
    let ghost releases_before = changelog.releases.deep_view();
    let ghost added = release@;
    changelog.releases.push(release);
    assert(changelog.releases.deep_view() =~= releases_before.push(added));
    Ok(())
}

/// Reads the header of a change type.
fn scan_change_type(
    state: &mut ScanState,
    changelog: &mut Changelog,
    index: usize,
    change_type: ChangeType,
)
    requires
        index < usize::MAX,
    ensures
        (final(state)@, final(changelog)@) == change_type_scanned(
            old(state)@,
            old(changelog)@,
            index as nat,
            change_type@,
        ),
{
    let ghost problems_before = changelog.problems.deep_view();
    let ghost found = if state@.seen_change_types.contains(change_type@.name) {
        seq![
            "duplicate change type in release "@ + version_at_hand(changelog@) + ": "@
                + change_type@.name,
        ] + change_type@.problems
    } else {
        change_type@.problems
    };
    if crate::text::holds_text(&state.seen_change_types, change_type.name.as_str()) {
        let mut p = String::from_str("duplicate change type in release ");
        if changelog.releases.len() > 0 {
            let last = changelog.releases.len() - 1;
            p.append(changelog.releases[last].version.as_str());
            assert(changelog.releases.deep_view().last().version
                == changelog.releases[last as int].version@);
        }
        p.append(": ");
        p.append(change_type.name.as_str());
        assert(p@ =~= "duplicate change type in release "@ + version_at_hand(changelog@) + ": "@
            + change_type@.name);
        add_to_problems(&mut changelog.problems, changelog.path.as_str(), Some(index), p.as_str());
    } else {
        push_text(&mut state.seen_change_types, change_type.name.clone());
    }
    report(&mut changelog.problems, changelog.path.as_str(), index, &change_type.problems);
    assert(changelog.problems.deep_view() =~= problems_before + located_all(
        changelog.path@,
        index as nat,
        found,
    ));
    state.escape = None;
    push_text(&mut changelog.fixed, change_type.fixed.clone());
    let ghost releases_before = changelog.releases.deep_view();
    let ghost added = change_type@;
    if changelog.releases.len() > 0 {
        let last = changelog.releases.len() - 1;
        let ghost types_before = changelog.releases[last as int].change_types.deep_view();
        changelog.releases[last].change_types.push(change_type);
        assert(changelog.releases[last as int].change_types.deep_view() =~= types_before.push(
            added,
        ));
        assert(changelog.releases.deep_view() =~= with_change_type(releases_before, added));
    }
}

/// Reads a line that begins with a dash.
fn scan_entry(
    config: &Config,
    state: &mut ScanState,
    changelog: &mut Changelog,
    index: usize,
    line: &str,
)
    requires
        index < usize::MAX,
    ensures
        (final(state)@, final(changelog)@) == entry_scanned(
            config@,
            old(state)@,
            old(changelog)@,
            index as nat,
            line@,
        ),
{
    let silent = match state.escape {
        Some(LinterEscape::FullLine) => true,
        _ => false,
    };
    let escaped = state.escape.is_some();
    state.escape = None;
    match crate::entry::parse(config, line) {
        Err(err) => {
            if !silent {
                add_to_problems(
                    &mut changelog.problems,
                    changelog.path.as_str(),
                    Some(index),
                    err.to_string().as_str(),
                );
            }
            push_text(&mut changelog.fixed, line.to_string());
        },
        Ok(e) => {
            let ghost problems_before = changelog.problems.deep_view();
            let ghost twice = state@.seen_prs.contains(e.pr_number);
            let ghost again = if twice && !escaped {
                seq!["duplicate PR: #"@ + decimal(e.pr_number as nat)]
            } else {
                seq![]
            };
            let ghost found = if silent {
                again
            } else {
                again + e@.problems
            };
            if holds_number(&state.seen_prs, e.pr_number) {
                if !escaped {
                    let mut p = String::from_str("duplicate PR: #");
                    push_decimal(&mut p, e.pr_number);
                    add_to_problems(
                        &mut changelog.problems,
                        changelog.path.as_str(),
                        Some(index),
                        p.as_str(),
                    );
                }
            } else {
                state.seen_prs.push(e.pr_number);
            }
            if !silent {
                report(&mut changelog.problems, changelog.path.as_str(), index, &e.problems);
            }
            assert(changelog.problems.deep_view() =~= problems_before + located_all(
                changelog.path@,
                index as nat,
                found,
            ));
            push_text(&mut changelog.fixed, e.fixed.clone());
            let ghost releases_before = changelog.releases.deep_view();
            let ghost added = e@;
            if changelog.releases.len() > 0 {
                let last = changelog.releases.len() - 1;
                if changelog.releases[last].change_types.len() > 0 {
                    let at = changelog.releases[last].change_types.len() - 1;
                    let ghost types_before = changelog.releases[last as int].change_types.deep_view();
                    let ghost entries_before = changelog.releases[last as int].change_types[at as int].entries.deep_view();
                    changelog.releases[last].change_types[at].entries.push(e);
                    assert(changelog.releases[last as int].change_types[at as int].entries.deep_view()
                        =~= entries_before.push(added));
                    assert(changelog.releases[last as int].change_types.deep_view()
                        =~= types_before.update(
                        at as int,
                        ChangeTypeView {
                            entries: entries_before.push(added),
                            ..types_before[at as int]
                        },
                    ));
                    assert(changelog.releases.deep_view() =~= with_entry(releases_before, added));
                }
            }
        },
    }
}

/// Reads one line of a changelog: `state` and `changelog` are what was read
/// before it, `index` is its number, counted from zero.
pub fn scan_line(
    config: &Config,
    state: &mut ScanState,
    changelog: &mut Changelog,
    index: usize,
    line: &str,
) -> (r: Result<(), ChangelogError>)
    requires
        index < usize::MAX,
    ensures
        match r {
            Ok(()) => line_scanned(config@, old(state)@, old(changelog)@, index as nat, line@)
                == Ok::<(ScanStateView, ChangelogView), ChangelogError>(
                (final(state)@, final(changelog)@),
            ),
            Err(e) => line_scanned(config@, old(state)@, old(changelog)@, index as nat, line@)
                == Err::<(ScanStateView, ChangelogView), ChangelogError>(e),
        },
{
    match state.mode {
        ScanMode::InLegacyPassthrough => {
            push_text(&mut changelog.legacy_contents, line.to_string());
            return Ok(());
        },
        _ => {},
    }
    let t = trim_chars(line);
    let in_comment = match state.mode {
        ScanMode::InLeadingComment => true,
        _ => false,
    };
    if in_comment || find_text(&t, "<!--") {
        scan_comment(state, changelog, line, &t);
        return Ok(());
    }
    if match_at(&t, 0, "## ") {
        match crate::release::parse(config, line) {
            Ok(release) => {
                return scan_release(config, state, changelog, index, release);
            },
            Err(_) => {},
        }
    }
    if match_at(&t, 0, "### ") {
        match crate::change_type::parse_line(config, line) {
            Ok(change_type) => {
                scan_change_type(state, changelog, index, change_type);
                return Ok(());
            },
            Err(ChangeTypeError::InvalidRegex) => {
                return Err(ChangelogError::InvalidChangeType(ChangeTypeError::InvalidRegex));
            },
            Err(ChangeTypeError::NoMatchesFound) => {},
        }
    }
    if match_at(&t, 0, "-") {
        scan_entry(config, state, changelog, index, line);
        return Ok(());
    }
    push_text(&mut changelog.fixed, line.to_string());
    Ok(())
}

/// Reads a changelog from the contents of the document that is kept at
/// `path`. Faults of the document are problems of the changelog; only a
/// configuration that cannot be worked with is an error.
pub fn parse_changelog(config: &Config, path: &str, contents: &str) -> (r: Result<
    Changelog,
    ChangelogError,
>)
    ensures
        match r {
            Ok(c) => changelog_of(config@, path@, contents@) == Ok::<
                ChangelogView,
                ChangelogError,
            >(c@),
            Err(e) => changelog_of(config@, path@, contents@) == Err::<
                ChangelogView,
                ChangelogError,
            >(e),
        },
{
    let lines = split_lines(contents);
    let mut state = ScanState::new();
    let mut changelog = Changelog::new(path);
    let mut i: usize = 0;
    while i < lines.len()
        invariant
            i <= lines.len(),
            lines.deep_view() == lines_of(contents@),
            scanned(config@, path@, lines.deep_view(), i as nat) == Ok::<
                (ScanStateView, ChangelogView),
                ChangelogError,
            >((state@, changelog@)),
        decreases lines.len() - i,
    {
        match scan_line(config, &mut state, &mut changelog, i, lines[i].as_str()) {
            Ok(()) => {},
            Err(e) => {
                proof {
                    lemma_scan_fails(config@, path@, lines.deep_view(), i as nat + 1);
                }
                return Err(e);
            },
        }
        i += 1;
    }
    Ok(changelog)
}

/// A reading that failed after `n` lines has failed, in the same way, after
/// all of them.
pub proof fn lemma_scan_fails(config: ConfigView, path: Seq<char>, lines: Seq<Seq<char>>, n: nat)
    requires
        n <= lines.len(),
        scanned(config, path, lines, n) is Err,
    ensures
        scanned(config, path, lines, lines.len()) == scanned(config, path, lines, n),
    decreases lines.len() - n,
{
    if n < lines.len() {
        lemma_scan_fails(config, path, lines, n + 1);
    }
}

/// What a line of an existing changelog tells about its change types and
/// categories: a line that begins with `### ` names a change type, if it is a
/// header, and nothing else; any other line that is an entry names its
/// category. Names seen before are not taken again.
pub open spec fn settings_scanned(
    config: ConfigView,
    found: (Seq<Seq<char>>, Seq<Seq<char>>),
    line: Seq<char>,
) -> (Seq<Seq<char>>, Seq<Seq<char>>) {
    if starts_with(trimmed(line), "### "@) {
        match change_type_of(config, line) {
            Ok(c) => if found.0.contains(c.name) {
                found
            } else {
                (found.0.push(c.name), found.1)
            },
            Err(_) => found,
        }
    } else {
        match entry_of(config, line) {
            Some(e) => if found.1.contains(e.category) {
                found
            } else {
                (found.0, found.1.push(e.category))
            },
            None => found,
        }
    }
}

/// The change types and the categories that the first `n` of the given
/// lines name, each in the order in which they come up.
pub open spec fn settings_found(config: ConfigView, lines: Seq<Seq<char>>, n: nat) -> (
    Seq<Seq<char>>,
    Seq<Seq<char>>,
)
    decreases n,
{
    if n == 0 {
        (seq![], seq![])
    } else {
        settings_scanned(config, settings_found(config, lines, (n - 1) as nat), lines[n - 1])
    }
}

/// The short name that is made up for a change type: its first four
/// characters, or all where it has fewer, without white space at both ends
/// and in ASCII lower case.
pub open spec fn short_name(long: Seq<char>) -> Seq<char> {
    let n = if long.len() < 4 {
        long.len() as int
    } else {
        4
    };
    trimmed(long.subrange(0, n)).map_values(|c: char| crate::text::ascii_lower(c))
}

/// The change types of a configuration that are made from the given names.
pub open spec fn change_types_from(names: Seq<Seq<char>>) -> Seq<
    crate::config::ChangeTypeConfigView,
> {
    names.map_values(
        |long: Seq<char>| crate::config::ChangeTypeConfigView { short: short_name(long), long },
    )
}

/// Makes up the short name of a change type.
fn make_short_name(long: &str) -> (short: String)
    ensures
        short@ == short_name(long@),
{
    let v = to_chars(long);
    let n = if v.len() < 4 {
        v.len()
    } else {
        4
    };
    let head = slice_string(&v, 0, n);
    let t = trim_chars(head.as_str());
    let mut short = String::new();
    let mut i: usize = 0;
    while i < t.len()
        invariant
            i <= t.len(),
            short@ == t@.subrange(0, i as int).map_values(|c: char| crate::text::ascii_lower(c)),
        decreases t.len() - i,
    {
        let c = t[i];
        let low = if 'A' <= c && c <= 'Z' {
            ((c as u8) + 32) as char
        } else {
            c
        };
        crate::text::push_char(&mut short, low);
        i += 1;
        assert(short@ =~= t@.subrange(0, i as int).map_values(
            |c: char| crate::text::ascii_lower(c),
        ));
    }
    assert(t@.subrange(0, i as int) == t@);
    short
}

/// Takes the categories and the change types of a configuration from an
/// existing changelog: the categories of all its entries, in the order of
/// strings, and the change types of all its headers, in the order of the
/// document, each with a short name made up from its name. Lines that cannot
/// be read are passed over.
pub fn get_settings_from_existing_changelog(config: &mut Config, contents: &str)
    ensures
        ({
            let lines = lines_of(contents@);
            let found = settings_found(old(config)@, lines, lines.len());
            &&& final(config)@.change_types == change_types_from(found.0)
            &&& final(config)@.categories.to_multiset() == found.1.to_multiset()
            &&& crate::text::sorted_texts(final(config)@.categories)
            &&& final(config)@ == (ConfigView {
                categories: final(config)@.categories,
                change_types: final(config)@.change_types,
                ..old(config)@
            })
        }),
{
    let lines = split_lines(contents);
    let mut seen_change_types: Vec<String> = Vec::new();
    let mut seen_categories: Vec<String> = Vec::new();
    assert(seen_change_types.deep_view() =~= seq![]);
    assert(seen_categories.deep_view() =~= seq![]);
    let mut i: usize = 0;
    while i < lines.len()
        invariant
            i <= lines.len(),
            *config == *old(config),
            lines.deep_view() == lines_of(contents@),
            (seen_change_types.deep_view(), seen_categories.deep_view()) == settings_found(
                config@,
                lines.deep_view(),
                i as nat,
            ),
        decreases lines.len() - i,
    {
        let line = lines[i].as_str();
        let t = trim_chars(line);
        if match_at(&t, 0, "### ") {
            match crate::change_type::parse_line(config, line) {
                Ok(c) => {
                    if !crate::text::holds_text(&seen_change_types, c.name.as_str()) {
                        push_text(&mut seen_change_types, c.name);
                    }
                },
                Err(_) => {},
            }
        } else {
            match crate::entry::parse(config, line) {
                Ok(e) => {
                    if !crate::text::holds_text(&seen_categories, e.category.as_str()) {
                        push_text(&mut seen_categories, e.category);
                    }
                },
                Err(_) => {},
            }
        }
        i += 1;
    }
    let mut change_types: Vec<crate::config::ChangeTypeConfig> = Vec::new();
    let mut j: usize = 0;
    assert(change_types.deep_view() =~= change_types_from(
        seen_change_types.deep_view().subrange(0, 0),
    ));
    while j < seen_change_types.len()
        invariant
            j <= seen_change_types.len(),
            change_types.deep_view() == change_types_from(
                seen_change_types.deep_view().subrange(0, j as int),
            ),
        decreases seen_change_types.len() - j,
    {
        let long = seen_change_types[j].clone();
        let short = make_short_name(long.as_str());
        let ghost before = change_types.deep_view();
        let ghost names = seen_change_types.deep_view();
        let ghost added = crate::config::ChangeTypeConfigView { short: short@, long: long@ };
        change_types.push(crate::config::ChangeTypeConfig { short, long });
        j += 1;
        assert(change_types.deep_view() =~= before.push(added));
        assert(names.subrange(0, j as int) =~= names.subrange(0, j - 1).push(names[j - 1]));
        assert(change_types.deep_view() =~= change_types_from(
            seen_change_types.deep_view().subrange(0, j as int),
        ));
    }
    assert(seen_change_types.deep_view().subrange(0, j as int) == seen_change_types.deep_view());
    crate::text::sort_texts(&mut seen_categories);
    config.categories = seen_categories;
    config.change_types = change_types;
}

} // verus!
