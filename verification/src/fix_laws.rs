//! Fixing a changelog twice is fixing it once.
//!
//! The fixed form of a document is what `Changelog::fixed` and
//! `Changelog::legacy_contents` hold of it, line by line. `lemma_fix_is_final`
//! says that this form is read as itself, for every document whose lines are
//! settled; the lemmas on entries and headers say which lines are.

use crate::change_type::change_type_of;
use crate::change_type_laws::{is_change_type_text, lemma_change_type_fix_is_final, lemma_change_type_text_chars, lemma_typed_name, name_of_change_type, settled_change_type};
use crate::changelog::{changelog_of, fixed_text, lines_text, line_kind, line_scanned, scanned, trim_end, trimmed, ChangelogView, LineKind, ScanMode, ScanStateView};
use crate::config::ConfigView;
use crate::entry::{entry_fields, entry_of, pull_link};
use crate::entry_laws::{lemma_entry_fix_is_final, lemma_entry_text_chars, settled_entry};
use crate::release::{is_unreleased_header, legacy, release_fields, release_link, release_of};
use crate::release_laws::{lemma_release_fix_is_final, lemma_release_text_chars};
use crate::text::{contains_text, lines_from, lines_of, has_at, is_space, lemma_run_is, run_end, starts_with, Class};
use crate::text_laws::lemma_stretch_is;
use vstd::prelude::*;

verus! {

/// What a line becomes when it is fixed, being read as `kind`: a header or
/// an entry is replaced by its canonical form, any other line is kept.
pub open spec fn fixed_line(config: ConfigView, kind: LineKind, line: Seq<char>) -> Seq<char> {
    match kind {
        LineKind::Release => release_of(config, line)->Ok_0.fixed,
        LineKind::ChangeType => match change_type_of(config, line) {
            Ok(c) => c.fixed,
            Err(_) => line,
        },
        LineKind::Entry => match entry_of(config, line) {
            Some(e) => e.fixed,
            None => line,
        },
        _ => line,
    }
}

/// Whether a text opens no comment.
pub open spec fn opens_no_comment(s: Seq<char>) -> bool {
    !contains_text(trimmed(s), "<!--"@)
}

/// Whether a line, read as `kind`, is one whose fix is final: its fixed
/// form opens no comment, and is left alone when it is read again. For a
/// release header that asks for an address of the repository without a
/// line feed, for a change type header and an entry what
/// `settled_change_type` and `settled_entry` say.
pub open spec fn settled_line(config: ConfigView, kind: LineKind, line: Seq<char>) -> bool {
    match kind {
        LineKind::Release => {
            &&& opens_no_comment(fixed_line(config, kind, line))
            &&& forall|i: int|
                0 <= i < config.target_repo.len() ==> #[trigger] config.target_repo[i] != '\n'
        },
        LineKind::ChangeType => settled_change_type(config, line),
        LineKind::Entry => entry_of(config, line) is Some ==> {
            &&& opens_no_comment(fixed_line(config, kind, line))
            &&& settled_entry(config, line)
        },
        _ => true,
    }
}

/// The white space at the end of a text begins behind its last character
/// that is none.
pub proof fn lemma_trim_end(s: Seq<char>, i: int, j: int)
    requires
        0 <= j < i <= s.len(),
        !is_space(s[j]),
    ensures
        j < trim_end(s, i) <= i,
    decreases i,
{
    if i > 0 && is_space(s[i - 1]) {
        lemma_trim_end(s, i - 1, j);
    }
}

/// A text that does not begin with white space keeps its start when the
/// white space around it is taken away, up to its last character that is
/// no white space.
pub proof fn lemma_trimmed_from_start(s: Seq<char>, j: int)
    requires
        0 <= j < s.len(),
        !is_space(s[0]),
        !is_space(s[j]),
    ensures
        trimmed(s).len() > j,
        trimmed(s).len() <= s.len(),
        forall|i: int| 0 <= i < trimmed(s).len() ==> #[trigger] trimmed(s)[i] == s[i],
{
    lemma_run_is(s, 0, 0, Class::Space);
    lemma_trim_end(s, s.len() as int, j);
}

/// A header that begins with `## ` and goes on with a character that is no
/// white space is read as a release header, where it follows the grammar
/// and opens no comment.
pub proof fn lemma_kind_of_release_header(config: ConfigView, s: Seq<char>)
    requires
        s.len() > 3,
        s[0] == '#' && s[1] == '#' && s[2] == ' ' && !is_space(s[3]),
        release_of(config, s) is Ok,
        opens_no_comment(s),
    ensures
        line_kind(config, ScanMode::Normal, s) == LineKind::Release,
{
    reveal_strlit("## ");
    lemma_trimmed_from_start(s, 3);
    lemma_stretch_is(trimmed(s), 0, "## "@);
}

/// The fixed form of a release header is read as a release header of the
/// same version, and is its own fixed form.
pub proof fn lemma_fixed_release_is_read_alike(config: ConfigView, line: Seq<char>)
    requires
        release_of(config, line) is Ok,
        settled_line(config, LineKind::Release, line),
    ensures
        ({
            let fixed = fixed_line(config, LineKind::Release, line);
            &&& line_kind(config, ScanMode::Normal, fixed) == LineKind::Release
            &&& fixed_line(config, LineKind::Release, fixed) == fixed
            &&& release_of(config, fixed) is Ok
            &&& release_of(config, fixed)->Ok_0.version == release_of(config, line)->Ok_0.version
        }),
{
    let fixed = fixed_line(config, LineKind::Release, line);
    lemma_release_fix_is_final(config, line);
    if is_unreleased_header(line) {
        reveal_strlit("## Unreleased");
    } else {
        let f = release_fields(line)->0;
        lemma_release_text_chars(f.version, release_link(config.target_repo, f.version), f.date);
    }
    lemma_kind_of_release_header(config, fixed);
}

/// A text that holds no `<` opens no comment, with or without the white
/// space around it.
pub proof fn lemma_no_comment_without_angle(s: Seq<char>)
    requires
        s.len() > 0,
        !is_space(s[0]),
        forall|i: int| 0 <= i < s.len() ==> #[trigger] s[i] != '<',
    ensures
        !contains_text(trimmed(s), "<!--"@),
{
    reveal_strlit("<!--");
    lemma_trimmed_from_start(s, 0);
    let t = trimmed(s);
    assert forall|i: int| !has_at(t, i, "<!--"@) by {
        if has_at(t, i, "<!--"@) {
            assert(t.subrange(i, i + 4)[0] == t[i]);
            assert(t[i] == s[i]);
        }
    }
}

/// The canonical header of a change type is read as a change type header,
/// where it follows the grammar with the configuration at hand.
pub proof fn lemma_kind_of_change_type_header(config: ConfigView, s: Seq<char>, name: Seq<char>)
    requires
        is_change_type_text(s, name),
        name_of_change_type(name),
        change_type_of(config, s) is Ok,
    ensures
        line_kind(config, ScanMode::Normal, s) == LineKind::ChangeType,
{
    reveal_strlit("## ");
    reveal_strlit("### ");
    assert(s[4 + 0int] == name[0]);
    assert(Class::Name.holds(name[0]));
    assert forall|i: int| 0 <= i < s.len() implies #[trigger] s[i] != '<' by {
        if i >= 4 {
            assert(s[4 + (i - 4)] == name[i - 4]);
            assert(Class::Name.holds(name[i - 4]));
        }
    }
    lemma_no_comment_without_angle(s);
    lemma_trimmed_from_start(s, 4);
    let t = trimmed(s);
    if starts_with(t, "## "@) {
        assert(t.subrange(0, 3)[2] == t[2]);
        assert(false);
    }
    lemma_stretch_is(t, 0, "### "@);
}

/// The fixed form of a change type header is read as a change type header
/// of the same name, and is its own fixed form.
pub proof fn lemma_fixed_change_type_is_read_alike(config: ConfigView, line: Seq<char>)
    requires
        settled_change_type(config, line),
    ensures
        ({
            let fixed = fixed_line(config, LineKind::ChangeType, line);
            &&& line_kind(config, ScanMode::Normal, fixed) == LineKind::ChangeType
            &&& change_type_of(config, fixed) is Ok
            &&& fixed_line(config, LineKind::ChangeType, fixed) == fixed
        }),
{
    let c = change_type_of(config, line)->Ok_0;
    lemma_typed_name(line);
    lemma_change_type_fix_is_final(config, line);
    lemma_change_type_text_chars(c.name);
    lemma_kind_of_change_type_header(config, c.fixed, c.name);
}

/// A line that begins with a dash and opens no comment is held to be an
/// entry.
pub proof fn lemma_kind_of_dash_line(config: ConfigView, s: Seq<char>)
    requires
        s.len() > 0,
        s[0] == '-',
        opens_no_comment(s),
    ensures
        line_kind(config, ScanMode::Normal, s) == LineKind::Entry,
{
    reveal_strlit("## ");
    reveal_strlit("### ");
    reveal_strlit("-");
    lemma_trimmed_from_start(s, 0);
    let t = trimmed(s);
    if starts_with(t, "## "@) {
        assert(t.subrange(0, 3)[0] == t[0]);
        assert(false);
    }
    if starts_with(t, "### "@) {
        assert(t.subrange(0, 4)[0] == t[0]);
        assert(false);
    }
    lemma_stretch_is(t, 0, "-"@);
}

/// The fixed form of an entry is held to be an entry again, and is its own
/// fixed form.
pub proof fn lemma_fixed_entry_is_read_alike(config: ConfigView, line: Seq<char>)
    requires
        entry_of(config, line) is Some,
        settled_line(config, LineKind::Entry, line),
    ensures
        ({
            let fixed = fixed_line(config, LineKind::Entry, line);
            &&& line_kind(config, ScanMode::Normal, fixed) == LineKind::Entry
            &&& entry_of(config, fixed) is Some
            &&& fixed_line(config, LineKind::Entry, fixed) == fixed
        }),
{
    let e = entry_of(config, line)->0;
    lemma_entry_fix_is_final(config, line);
    let description = crate::entry::description_check(
        config,
        entry_fields(line)->0.description,
    ).0;
    lemma_entry_text_chars(
        e.category,
        e.pr_number,
        pull_link(config.target_repo, e.pr_number),
        description,
    );
    lemma_kind_of_dash_line(config, e.fixed);
}

/// A fixed line is read as what the line was read as that it was made
/// from, and is its own fixed form: for every line that is settled, and
/// wherever the reading stands.
pub proof fn lemma_fixed_line_is_read_alike(config: ConfigView, mode: ScanMode, line: Seq<char>)
    requires
        settled_line(config, line_kind(config, mode, line), line),
        line_kind(config, mode, line) == LineKind::ChangeType ==> change_type_of(
            config,
            line,
        ) is Ok,
    ensures
        ({
            let kind = line_kind(config, mode, line);
            let fixed = fixed_line(config, kind, line);
            &&& line_kind(config, mode, fixed) == kind
            &&& fixed_line(config, kind, fixed) == fixed
            &&& kind == LineKind::Release ==> release_of(config, fixed)->Ok_0.version
                == release_of(config, line)->Ok_0.version
            &&& kind == LineKind::ChangeType ==> change_type_of(config, fixed) is Ok
        }),
{
    let kind = line_kind(config, mode, line);
    match kind {
        LineKind::Release => {
            lemma_fixed_release_is_read_alike(config, line);
        },
        LineKind::ChangeType => {
            lemma_fixed_change_type_is_read_alike(config, line);
        },
        LineKind::Entry => {
            if entry_of(config, line) is Some {
                lemma_fixed_entry_is_read_alike(config, line);
            }
        },
        _ => {},
    }
}

/// Whether a line ends the reading of a changelog, being read as `kind`: as
/// the header of a legacy release, or behind one.
pub open spec fn ends_reading(config: ConfigView, kind: LineKind, line: Seq<char>) -> bool {
    match kind {
        LineKind::Legacy => true,
        LineKind::Release => legacy(config, release_of(config, line)->Ok_0.version) == Ok::<
            bool,
            crate::errors::ReleaseError,
        >(true),
        _ => false,
    }
}

/// Where the reading stands behind a line that is read as `kind`.
pub open spec fn mode_behind(
    config: ConfigView,
    mode: ScanMode,
    first: bool,
    kind: LineKind,
    line: Seq<char>,
) -> ScanMode {
    match kind {
        LineKind::Legacy => ScanMode::InLegacyPassthrough,
        LineKind::Comment => if contains_text(trimmed(line), "-->"@) {
            ScanMode::Normal
        } else if first {
            ScanMode::InLeadingComment
        } else {
            mode
        },
        LineKind::Release => if ends_reading(config, kind, line) {
            ScanMode::InLegacyPassthrough
        } else {
            ScanMode::Normal
        },
        _ => mode,
    }
}

/// What a line that is read leaves behind: its fixed form, at the end of
/// the fixed lines or, behind the header of a legacy release, of the legacy
/// part; the place where the reading stands; and a release, if it is the
/// header of one.
pub proof fn lemma_line_leaves(
    config: ConfigView,
    state: ScanStateView,
    doc: ChangelogView,
    index: nat,
    line: Seq<char>,
)
    requires
        line_scanned(config, state, doc, index, line) is Ok,
    ensures
        ({
            let kind = line_kind(config, state.mode, line);
            let after = line_scanned(config, state, doc, index, line)->Ok_0;
            &&& after.0.mode == mode_behind(config, state.mode, doc.releases.len() == 0, kind, line)
            &&& (after.1.releases.len() == 0) == (doc.releases.len() == 0 && kind
                != LineKind::Release)
            &&& kind == LineKind::Legacy ==> after.1.fixed == doc.fixed
                && after.1.legacy_contents == doc.legacy_contents.push(line)
            &&& kind != LineKind::Legacy ==> after.1.fixed == doc.fixed.push(
                fixed_line(config, kind, line),
            ) && after.1.legacy_contents == doc.legacy_contents
            &&& kind == LineKind::ChangeType ==> change_type_of(config, line) is Ok
            &&& kind == LineKind::Release ==> legacy(
                config,
                release_of(config, line)->Ok_0.version,
            ) is Ok
        }),
{
}

/// The fixed form of the first `n` lines of a document, line by line.
pub open spec fn fixed_lines(config: ConfigView, path: Seq<char>, lines: Seq<Seq<char>>, n: nat)
    -> Seq<Seq<char>>
    decreases n,
{
    if n == 0 {
        seq![]
    } else {
        let before = scanned(config, path, lines, (n - 1) as nat)->Ok_0;
        fixed_lines(config, path, lines, (n - 1) as nat).push(
            fixed_line(
                config,
                line_kind(config, before.0.mode, lines[n - 1]),
                lines[n - 1],
            ),
        )
    }
}

/// Whether each of the first `n` lines of a document is settled, as what
/// it is read as.
pub open spec fn settled_lines(
    config: ConfigView,
    path: Seq<char>,
    lines: Seq<Seq<char>>,
    n: nat,
) -> bool
    decreases n,
{
    if n == 0 {
        true
    } else {
        let before = scanned(config, path, lines, (n - 1) as nat)->Ok_0;
        &&& settled_lines(config, path, lines, (n - 1) as nat)
        &&& settled_line(config, line_kind(config, before.0.mode, lines[n - 1]), lines[n - 1])
    }
}

/// A reading that went well after `n` lines went well after each line
/// before.
pub proof fn lemma_scan_went_well(
    config: ConfigView,
    path: Seq<char>,
    lines: Seq<Seq<char>>,
    k: nat,
    n: nat,
)
    requires
        k <= n <= lines.len(),
        scanned(config, path, lines, n) is Ok,
    ensures
        scanned(config, path, lines, k) is Ok,
    decreases n - k,
{
    if k < n {
        lemma_scan_went_well(config, path, lines, k, (n - 1) as nat);
    }
}

/// The fixed lines and the legacy part of a document that was read are,
/// one behind the other, the fixed form of its lines; and there is a legacy
/// part only behind the header of a legacy release.
pub proof fn lemma_fixed_lines_are_kept(
    config: ConfigView,
    path: Seq<char>,
    lines: Seq<Seq<char>>,
    n: nat,
)
    requires
        n <= lines.len(),
        scanned(config, path, lines, n) is Ok,
    ensures
        ({
            let read = scanned(config, path, lines, n)->Ok_0;
            &&& read.1.fixed + read.1.legacy_contents == fixed_lines(config, path, lines, n)
            &&& fixed_lines(config, path, lines, n).len() == n
            &&& read.1.legacy_contents.len() > 0 ==> read.0.mode == ScanMode::InLegacyPassthrough
        }),
    decreases n,
{
    let read = scanned(config, path, lines, n)->Ok_0;
    if n == 0 {
        assert(read.1.fixed + read.1.legacy_contents =~= fixed_lines(config, path, lines, n));
    } else {
        lemma_scan_went_well(config, path, lines, (n - 1) as nat, n);
        lemma_fixed_lines_are_kept(config, path, lines, (n - 1) as nat);
        let before = scanned(config, path, lines, (n - 1) as nat)->Ok_0;
        lemma_line_leaves(config, before.0, before.1, (n - 1) as nat, lines[n - 1]);
        assert(read.1.fixed + read.1.legacy_contents =~= fixed_lines(config, path, lines, n));
    }
}

/// Reading the fixed form of a document goes as reading the document went:
/// after each line, both readings stand at the same place, and hold the
/// same fixed lines and the same legacy part.
pub proof fn lemma_fixed_lines_are_read_alike(
    config: ConfigView,
    path: Seq<char>,
    lines: Seq<Seq<char>>,
    fixed: Seq<Seq<char>>,
    k: nat,
)
    requires
        k <= lines.len(),
        k <= fixed.len(),
        scanned(config, path, lines, k) is Ok,
        settled_lines(config, path, lines, k),
        fixed.subrange(0, k as int) == fixed_lines(config, path, lines, k),
    ensures
        ({
            let read = scanned(config, path, lines, k)->Ok_0;
            let again = scanned(config, path, fixed, k);
            &&& again is Ok
            &&& again->Ok_0.0.mode == read.0.mode
            &&& (again->Ok_0.1.releases.len() == 0) == (read.1.releases.len() == 0)
            &&& again->Ok_0.1.fixed == read.1.fixed
            &&& again->Ok_0.1.legacy_contents == read.1.legacy_contents
        }),
    decreases k,
{
    if k > 0 {
        let j = (k - 1) as nat;
        lemma_scan_went_well(config, path, lines, j, k);
        assert(fixed.subrange(0, j as int) =~= fixed_lines(config, path, lines, j)) by {
            assert(fixed.subrange(0, j as int) =~= fixed.subrange(0, k as int).subrange(
                0,
                j as int,
            ));
        }
        lemma_fixed_lines_are_read_alike(config, path, lines, fixed, j);
        let before = scanned(config, path, lines, j)->Ok_0;
        let other = scanned(config, path, fixed, j)->Ok_0;
        let kind = line_kind(config, before.0.mode, lines[j as int]);
        let line = fixed_line(config, kind, lines[j as int]);
        assert(fixed[j as int] == line) by {
            assert(fixed.subrange(0, k as int)[j as int] == fixed[j as int]);
        }
        lemma_line_leaves(config, before.0, before.1, j, lines[j as int]);
        lemma_fixed_line_is_read_alike(config, before.0.mode, lines[j as int]);
        lemma_fixed_line_step(config, before.0, before.1, other.0, other.1, j, lines[j as int]);
    }
}

/// One step of reading the fixed form: where two readings agree, the one
/// reads a settled line and the other its fixed form alike.
pub proof fn lemma_fixed_line_step(
    config: ConfigView,
    state: ScanStateView,
    doc: ChangelogView,
    other_state: ScanStateView,
    other_doc: ChangelogView,
    index: nat,
    line: Seq<char>,
)
    requires
        line_scanned(config, state, doc, index, line) is Ok,
        settled_line(config, line_kind(config, state.mode, line), line),
        other_state.mode == state.mode,
        (other_doc.releases.len() == 0) == (doc.releases.len() == 0),
        other_doc.fixed == doc.fixed,
        other_doc.legacy_contents == doc.legacy_contents,
    ensures
        ({
            let kind = line_kind(config, state.mode, line);
            let read = line_scanned(config, state, doc, index, line)->Ok_0;
            let again = line_scanned(
                config,
                other_state,
                other_doc,
                index,
                fixed_line(config, kind, line),
            );
            &&& again is Ok
            &&& again->Ok_0.0.mode == read.0.mode
            &&& (again->Ok_0.1.releases.len() == 0) == (read.1.releases.len() == 0)
            &&& again->Ok_0.1.fixed == read.1.fixed
            &&& again->Ok_0.1.legacy_contents == read.1.legacy_contents
        }),
{
    let kind = line_kind(config, state.mode, line);
    let fixed = fixed_line(config, kind, line);
    lemma_line_leaves(config, state, doc, index, line);
    lemma_fixed_line_is_read_alike(config, state.mode, line);
    assert(line_kind(config, other_state.mode, fixed) == kind);
    assert(line_scanned(config, other_state, other_doc, index, fixed) is Ok);
    lemma_line_leaves(config, other_state, other_doc, index, fixed);
}

/// Whether each of the lines is one that a text can hold as a line: it
/// holds no line feed and does not end with a carriage return.
pub open spec fn fit_lines(lines: Seq<Seq<char>>) -> bool {
    forall|i: int|
        0 <= i < lines.len() ==> {
            &&& run_end(#[trigger] lines[i], 0, Class::Line) == lines[i].len()
            &&& lines[i].len() > 0 ==> lines[i].last() != '\r'
        }
}

/// The lines of a text that begins with the first `n` of the given lines,
/// each with a line feed behind it, are these lines and the lines of what
/// follows them.
pub proof fn lemma_lines_of_text_from(lines: Seq<Seq<char>>, n: nat, rest: Seq<char>)
    requires
        n <= lines.len(),
        fit_lines(lines),
    ensures
        lines_from(lines_text(lines, n) + rest, 0) == lines.subrange(0, n as int) + lines_from(
            lines_text(lines, n) + rest,
            lines_text(lines, n).len() as int,
        ),
    decreases n,
{
    reveal_strlit("\n");
    let text = lines_text(lines, n);
    let whole = text + rest;
    if n == 0 {
        assert(lines.subrange(0, 0) + lines_from(whole, 0) =~= lines_from(whole, 0));
    } else {
        let before = lines_text(lines, (n - 1) as nat);
        let line = lines[n - 1];
        let tail = line + "\n"@ + rest;
        assert(whole =~= before + tail);
        lemma_lines_of_text_from(lines, (n - 1) as nat, tail);
        let at = before.len() as int;
        let end = at + line.len();
        crate::text::lemma_run_end(line, 0, Class::Line);
        assert forall|x: int| at <= x < end implies Class::Line.holds(#[trigger] whole[x]) by {
            assert(whole[x] == line[x - at]);
            assert(Class::Line.holds(line[x - at]));
        }
        assert(whole[end] == '\n');
        lemma_run_is(whole, at, end, Class::Line);
        assert(whole.subrange(at, end) =~= line);
        assert(text.len() == end + 1);
        assert(lines.subrange(0, n as int) =~= lines.subrange(0, n - 1).push(line));
        assert(lines_from(whole, at) == seq![line] + lines_from(whole, end + 1));
        assert(lines.subrange(0, n - 1) + (seq![line] + lines_from(whole, end + 1))
            =~= lines.subrange(0, n as int) + lines_from(whole, end + 1));
    }
}

/// Lines that are written out, each with a line feed behind it, are read
/// back as they were.
pub proof fn lemma_lines_of_text(lines: Seq<Seq<char>>)
    requires
        fit_lines(lines),
    ensures
        lines_of(lines_text(lines, lines.len())) == lines,
{
    let text = lines_text(lines, lines.len());
    lemma_lines_of_text_from(lines, lines.len(), seq![]);
    assert(text + Seq::<char>::empty() =~= text);
    assert(lines.subrange(0, lines.len() as int) =~= lines);
    assert(lines_from(text, text.len() as int) =~= Seq::<Seq<char>>::empty());
    assert(lines + Seq::<Seq<char>>::empty() =~= lines);
}

/// Fixing the text of a changelog twice is fixing it once: the text that
/// the fixed lines of a document make, where these are settled and are lines
/// that a text can hold, is read without an error, and the text that its
/// fixed lines make is itself.
pub proof fn lemma_fix_of_text_is_final(config: ConfigView, path: Seq<char>, contents: Seq<char>)
    requires
        changelog_of(config, path, contents) is Ok,
        settled_lines(config, path, lines_of(contents), lines_of(contents).len()),
        fit_lines(
            changelog_of(config, path, contents)->Ok_0.fixed + changelog_of(
                config,
                path,
                contents,
            )->Ok_0.legacy_contents,
        ),
    ensures
        ({
            let fixed = fixed_text(changelog_of(config, path, contents)->Ok_0);
            &&& changelog_of(config, path, fixed) is Ok
            &&& fixed_text(changelog_of(config, path, fixed)->Ok_0) == fixed
        }),
{
    let lines = lines_of(contents);
    let read = changelog_of(config, path, contents)->Ok_0;
    let fixed = read.fixed + read.legacy_contents;
    lemma_fix_is_final(config, path, lines);
    lemma_lines_of_text(fixed);
}

/// Fixing a changelog twice is fixing it once. The fixed form of a document
/// whose lines are settled is read without an error, line by line as the
/// document was read, and its fixed form is itself: the same fixed lines and
/// the same legacy part.
pub proof fn lemma_fix_is_final(config: ConfigView, path: Seq<char>, lines: Seq<Seq<char>>)
    requires
        scanned(config, path, lines, lines.len()) is Ok,
        settled_lines(config, path, lines, lines.len()),
    ensures
        ({
            let read = scanned(config, path, lines, lines.len())->Ok_0.1;
            let fixed = read.fixed + read.legacy_contents;
            let again = scanned(config, path, fixed, fixed.len());
            &&& fixed.len() == lines.len()
            &&& again is Ok
            &&& again->Ok_0.1.fixed == read.fixed
            &&& again->Ok_0.1.legacy_contents == read.legacy_contents
        }),
{
    let read = scanned(config, path, lines, lines.len())->Ok_0.1;
    let fixed = read.fixed + read.legacy_contents;
    lemma_fixed_lines_are_kept(config, path, lines, lines.len());
    assert(fixed.subrange(0, lines.len() as int) =~= fixed);
    lemma_fixed_lines_are_read_alike(config, path, lines, fixed, lines.len());
}

} // verus!
