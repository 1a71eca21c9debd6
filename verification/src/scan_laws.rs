//! What holds of the reading of a changelog, whatever the document.

use crate::change_type::change_type_of;
use crate::changelog::{entry_scanned, line_kind, line_scanned, located, located_all, scanned, version_at_hand, ChangelogView, LineKind, ScanMode, ScanStateView};
use crate::config::ConfigView;
use crate::entry::entry_of;
use crate::errors::ChangelogError;
use crate::changelog::trimmed;
use crate::escapes::{escape_of, LinterEscape};
use crate::text::contains_text;
use crate::release::release_of;
use crate::text::decimal;
use vstd::prelude::*;

verus! {

/// Whether `longer` begins with all of `shorter`.
pub open spec fn extends(longer: Seq<Seq<char>>, shorter: Seq<Seq<char>>) -> bool {
    shorter.len() <= longer.len() && longer.subrange(0, shorter.len() as int) == shorter
}

/// Whether a problem bears the place of line `index` of the document at
/// `path`.
pub open spec fn is_located(problem: Seq<char>, path: Seq<char>, index: nat) -> bool {
    exists|p: Seq<char>| problem == #[trigger] located(path, Some(index), p)
}

/// Whether every problem from index `from` on is one of line `index` of the
/// document at `path`.
pub open spec fn all_located(problems: Seq<Seq<char>>, from: int, path: Seq<char>, index: nat)
    -> bool {
    forall|k: int| from <= k < problems.len() ==> is_located(#[trigger] problems[k], path, index)
}

/// The problems of a changelog come in the order of its lines: a line
/// leaves the problems found before it as they are, and what it adds bears
/// its own number.
pub proof fn lemma_problems_in_line_order(
    config: ConfigView,
    state: ScanStateView,
    doc: ChangelogView,
    index: nat,
    line: Seq<char>,
)
    requires
        line_scanned(config, state, doc, index, line) is Ok,
    ensures
        ({
            let after = line_scanned(config, state, doc, index, line)->Ok_0.1;
            &&& after.path == doc.path
            &&& extends(after.problems, doc.problems)
            &&& all_located(after.problems, doc.problems.len() as int, doc.path, index)
        }),
{
    let after = line_scanned(config, state, doc, index, line)->Ok_0.1;
    match line_kind(config, state.mode, line) {
        LineKind::Release => {
            let release = release_of(config, line)->Ok_0;
            let found = if state.seen_releases.contains(release.version) {
                seq!["duplicate release: "@ + release.version] + release.problems
            } else {
                release.problems
            };
            lemma_added_are_located(doc.problems, doc.path, index, found);
        },
        LineKind::ChangeType => {
            let change_type = change_type_of(config, line)->Ok_0;
            let found = if state.seen_change_types.contains(change_type.name) {
                seq![
                    "duplicate change type in release "@ + version_at_hand(doc) + ": "@
                        + change_type.name,
                ] + change_type.problems
            } else {
                change_type.problems
            };
            lemma_added_are_located(doc.problems, doc.path, index, found);
        },
        LineKind::Entry => {
            let silent = state.escape == Some(LinterEscape::FullLine);
            match entry_of(config, line) {
                None => {
                    let found = if silent {
                        seq![]
                    } else {
                        seq!["invalid entry: "@ + line]
                    };
                    lemma_added_are_located(doc.problems, doc.path, index, found);
                    assert(after.problems =~= doc.problems + located_all(
                        doc.path,
                        index,
                        found,
                    ));
                },
                Some(e) => {
                    let again = if state.seen_prs.contains(e.pr_number as u64) && state.escape
                        is None {
                        seq!["duplicate PR: #"@ + decimal(e.pr_number)]
                    } else {
                        seq![]
                    };
                    let found = if silent {
                        again
                    } else {
                        again + e.problems
                    };
                    lemma_added_are_located(doc.problems, doc.path, index, found);
                },
            }
        },
        _ => {
            lemma_added_are_located(doc.problems, doc.path, index, seq![]);
            assert(doc.problems + located_all(doc.path, index, seq![]) =~= doc.problems);
        },
    }
}

/// Problems that are added with the place of a line bear the number of that
/// line, and leave the problems before them as they are.
pub proof fn lemma_added_are_located(
    before: Seq<Seq<char>>,
    path: Seq<char>,
    index: nat,
    found: Seq<Seq<char>>,
)
    ensures
        extends(before + located_all(path, index, found), before),
        all_located(before + located_all(path, index, found), before.len() as int, path, index),
{
    let after = before + located_all(path, index, found);
    assert(after.subrange(0, before.len() as int) =~= before);
    assert forall|k: int| before.len() <= k < after.len() implies is_located(
        #[trigger] after[k],
        path,
        index,
    ) by {
        assert(after[k] == located(path, Some(index), found[k - before.len()]));
    }
}

/// Pull requests are remembered for the whole document: no line makes the
/// reading forget a number that it has seen, whatever release the line
/// begins or belongs to.
pub proof fn lemma_seen_prs_are_kept(
    config: ConfigView,
    state: ScanStateView,
    doc: ChangelogView,
    index: nat,
    line: Seq<char>,
    pr: u64,
)
    requires
        line_scanned(config, state, doc, index, line) is Ok,
        state.seen_prs.contains(pr),
    ensures
        line_scanned(config, state, doc, index, line)->Ok_0.0.seen_prs.contains(pr),
{
    let after = line_scanned(config, state, doc, index, line)->Ok_0.0;
    if after.seen_prs != state.seen_prs {
        let i = choose|i: int| 0 <= i < state.seen_prs.len() && state.seen_prs[i] == pr;
        assert(after.seen_prs[i] == pr);
    }
}

/// A number seen after `n` lines is still seen after `m` lines.
pub proof fn lemma_seen_prs_stay(
    config: ConfigView,
    path: Seq<char>,
    lines: Seq<Seq<char>>,
    n: nat,
    m: nat,
    pr: u64,
)
    requires
        n <= m <= lines.len(),
        scanned(config, path, lines, m) is Ok,
        scanned(config, path, lines, n) is Ok,
        scanned(config, path, lines, n)->Ok_0.0.seen_prs.contains(pr),
    ensures
        scanned(config, path, lines, m)->Ok_0.0.seen_prs.contains(pr),
    decreases m - n,
{
    if n < m {
        let before = scanned(config, path, lines, (m - 1) as nat);
        lemma_seen_prs_stay(config, path, lines, n, (m - 1) as nat, pr);
        lemma_seen_prs_are_kept(
            config,
            before->Ok_0.0,
            before->Ok_0.1,
            (m - 1) as nat,
            lines[m - 1],
            pr,
        );
    }
}

/// An entry that names a pull request seen before, with no escape waiting,
/// adds the problem of the duplicate, with its place, before its own
/// problems; and the entry is read all the same.
pub proof fn lemma_duplicate_pr_is_reported(
    config: ConfigView,
    state: ScanStateView,
    doc: ChangelogView,
    index: nat,
    line: Seq<char>,
)
    requires
        entry_of(config, line) is Some,
        state.seen_prs.contains(entry_of(config, line)->0.pr_number as u64),
        state.escape is None,
    ensures
        ({
            let e = entry_of(config, line)->0;
            let after = entry_scanned(config, state, doc, index, line).1;
            &&& after.problems.len() == doc.problems.len() + 1 + e.problems.len()
            &&& after.problems[doc.problems.len() as int] == located(
                doc.path,
                Some(index),
                "duplicate PR: #"@ + decimal(e.pr_number),
            )
            &&& after.fixed == doc.fixed.push(e.fixed)
        }),
{
}

/// An escape for the whole line silences the line that begins with a dash
/// behind it, entry or not: the problems stay as they were. Only a pull
/// request seen before makes no difference to that. The escape is used up:
/// the next line is read without it.
pub proof fn lemma_escape_silences_one_line(
    config: ConfigView,
    state: ScanStateView,
    doc: ChangelogView,
    index: nat,
    line: Seq<char>,
)
    requires
        state.escape == Some(LinterEscape::FullLine),
    ensures
        entry_scanned(config, state, doc, index, line).1.problems == doc.problems,
        entry_scanned(config, state, doc, index, line).0.escape is None,
{
    let after = entry_scanned(config, state, doc, index, line).1;
    assert(after.problems =~= doc.problems);
}

/// No escape outlasts a line that begins with a dash.
pub proof fn lemma_escape_is_used_up(
    config: ConfigView,
    state: ScanStateView,
    doc: ChangelogView,
    index: nat,
    line: Seq<char>,
)
    ensures
        entry_scanned(config, state, doc, index, line).0.escape is None,
{
}

/// Behind the header of a legacy release nothing is read any more: the
/// document after `m` lines is the one after `n` lines with the lines
/// between them, as they are, added to its legacy part.
pub proof fn lemma_legacy_is_kept_as_found(
    config: ConfigView,
    path: Seq<char>,
    lines: Seq<Seq<char>>,
    n: nat,
    m: nat,
)
    requires
        n <= m <= lines.len(),
        scanned(config, path, lines, n) is Ok,
        scanned(config, path, lines, n)->Ok_0.0.mode == ScanMode::InLegacyPassthrough,
    ensures
        ({
            let before = scanned(config, path, lines, n)->Ok_0;
            scanned(config, path, lines, m) == Ok::<
                (ScanStateView, ChangelogView),
                ChangelogError,
            >(
                (
                    before.0,
                    ChangelogView {
                        legacy_contents: before.1.legacy_contents + lines.subrange(
                            n as int,
                            m as int,
                        ),
                        ..before.1
                    },
                ),
            )
        }),
    decreases m - n,
{
    let before = scanned(config, path, lines, n)->Ok_0;
    if n < m {
        lemma_legacy_is_kept_as_found(config, path, lines, n, (m - 1) as nat);
        assert(before.1.legacy_contents + lines.subrange(n as int, m as int) =~= (
        before.1.legacy_contents + lines.subrange(n as int, m - 1)).push(lines[m - 1]));
    } else {
        assert(before.1.legacy_contents + lines.subrange(n as int, m as int)
            =~= before.1.legacy_contents);
    }
}

/// An entry leaves the number of its pull request among those that were
/// seen.
pub proof fn lemma_entry_is_seen(
    config: ConfigView,
    state: ScanStateView,
    doc: ChangelogView,
    index: nat,
    line: Seq<char>,
)
    requires
        entry_of(config, line) is Some,
    ensures
        entry_scanned(config, state, doc, index, line).0.seen_prs.contains(
            entry_of(config, line)->0.pr_number as u64,
        ),
{
    let pr = entry_of(config, line)->0.pr_number as u64;
    let after = entry_scanned(config, state, doc, index, line).0.seen_prs;
    if !state.seen_prs.contains(pr) {
        assert(after[state.seen_prs.len() as int] == pr);
    }
}

/// Duplicates of pull requests are found in the whole document, not in one
/// release only. Where line `i` and a later line `j` are entries that name
/// the same pull request, and no escape waits for line `j`, the problem of
/// the duplicate is reported for line `j`: whatever stands between the two
/// lines, headers of releases too.
pub proof fn lemma_duplicate_pr_in_document(
    config: ConfigView,
    path: Seq<char>,
    lines: Seq<Seq<char>>,
    i: nat,
    j: nat,
)
    requires
        i < j < lines.len(),
        scanned(config, path, lines, j + 1) is Ok,
        scanned(config, path, lines, j) is Ok,
        scanned(config, path, lines, i + 1) is Ok,
        scanned(config, path, lines, i) is Ok,
        line_kind(config, scanned(config, path, lines, i)->Ok_0.0.mode, lines[i as int])
            == LineKind::Entry,
        line_kind(config, scanned(config, path, lines, j)->Ok_0.0.mode, lines[j as int])
            == LineKind::Entry,
        entry_of(config, lines[i as int]) is Some,
        entry_of(config, lines[j as int]) is Some,
        entry_of(config, lines[i as int])->0.pr_number == entry_of(
            config,
            lines[j as int],
        )->0.pr_number,
        scanned(config, path, lines, j)->Ok_0.0.escape is None,
    ensures
        ({
            let before = scanned(config, path, lines, j)->Ok_0.1;
            let after = scanned(config, path, lines, j + 1)->Ok_0.1;
            let e = entry_of(config, lines[j as int])->0;
            &&& after.problems.len() == before.problems.len() + 1 + e.problems.len()
            &&& after.problems[before.problems.len() as int] == located(
                before.path,
                Some(j),
                "duplicate PR: #"@ + decimal(e.pr_number),
            )
        }),
{
    let first = scanned(config, path, lines, i)->Ok_0;
    let second = scanned(config, path, lines, j)->Ok_0;
    let pr = entry_of(config, lines[i as int])->0.pr_number as u64;
    lemma_entry_is_seen(config, first.0, first.1, i, lines[i as int]);
    lemma_seen_prs_stay(config, path, lines, i + 1, j, pr);
    lemma_duplicate_pr_is_reported(config, second.0, second.1, j, lines[j as int]);
}

/// An escape for the whole line covers one line only. Behind a comment that
/// holds it, on one line, the next line that begins with a dash leaves no
/// problem; the line that begins with a dash behind that one is read as
/// though there had been no escape.
pub proof fn lemma_escape_covers_one_line(
    config: ConfigView,
    state: ScanStateView,
    doc: ChangelogView,
    index: nat,
    comment: Seq<char>,
    first: Seq<char>,
    second: Seq<char>,
)
    requires
        state.mode == ScanMode::Normal,
        contains_text(trimmed(comment), "<!--"@),
        contains_text(trimmed(comment), "-->"@),
        escape_of(trimmed(comment)) == Some(LinterEscape::FullLine),
        line_kind(config, ScanMode::Normal, first) == LineKind::Entry,
        line_kind(config, ScanMode::Normal, second) == LineKind::Entry,
    ensures
        ({
            let a = line_scanned(config, state, doc, index, comment);
            let b = line_scanned(config, a->Ok_0.0, a->Ok_0.1, index + 1, first);
            let c = line_scanned(config, b->Ok_0.0, b->Ok_0.1, index + 2, second);
            &&& a is Ok && b is Ok && c is Ok
            &&& b->Ok_0.1.problems == doc.problems
            &&& b->Ok_0.0.escape is None
            &&& c->Ok_0 == entry_scanned(
                config,
                ScanStateView { escape: None, ..b->Ok_0.0 },
                b->Ok_0.1,
                index + 2,
                second,
            )
        }),
{
    let a = line_scanned(config, state, doc, index, comment);
    assert(a->Ok_0.0.escape == Some(LinterEscape::FullLine));
    lemma_escape_silences_one_line(config, a->Ok_0.0, a->Ok_0.1, index + 1, first);
    let b = line_scanned(config, a->Ok_0.0, a->Ok_0.1, index + 1, first);
    assert(ScanStateView { escape: None, ..b->Ok_0.0 } == b->Ok_0.0);
}

} // verus!
