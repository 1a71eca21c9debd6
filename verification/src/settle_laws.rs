//! A changelog that was read from a document with settled lines is a
//! settled changelog: writing it out twice is writing it out once.

use crate::change_type::change_type_of;
use crate::changelog::{changelog_of, changelog_text, empty_changelog, line_kind, line_scanned, scanned, ChangelogView, LineKind, ScanMode, ScanStateView};
use crate::config::ConfigView;
use crate::entry::entry_of;
use crate::fix_laws::{lemma_fixed_change_type_is_read_alike, lemma_fixed_entry_is_read_alike, lemma_fixed_release_is_read_alike, lemma_scan_went_well, settled_line, settled_lines};
use crate::release::{legacy, release_of};
use crate::render_laws::{lemma_rendering_is_final, lemma_shape_of_push, lemma_shape_of_with_change_type, lemma_shape_of_with_entry, rendered_lines, settled_entry_line, settled_release, settled_release_header, settled_releases, settled_section, settled_section_header, shape, shape_with_entry, shape_with_release, shape_with_section, ReleaseShape, SectionShape};
use crate::text::lines_of;
use vstd::prelude::*;

verus! {

/// Releases that are settled stay settled when a settled release is added
/// behind them, none of them being a legacy release.
pub proof fn lemma_settled_with_release(
    config: ConfigView,
    shapes: Seq<ReleaseShape>,
    old: bool,
    header: Seq<char>,
)
    requires
        settled_releases(config, false, shapes, shapes.len()),
        settled_release_header(config, old, header),
    ensures
        settled_releases(
            config,
            old,
            shape_with_release(shapes, header),
            shapes.len() + 1,
        ),
{
    let after = shape_with_release(shapes, header);
    assert forall|i: int| 0 <= i < shapes.len() + 1 implies settled_release(
        config,
        old && i == shapes.len() + 1 - 1,
        #[trigger] after[i],
    ) by {
        if i < shapes.len() {
            assert(after[i] == shapes[i]);
            assert(settled_release(config, false && i == shapes.len() - 1, shapes[i]));
        }
    }
}

/// Releases that are settled stay settled when the settled header of a
/// change type is added to the last of them.
pub proof fn lemma_settled_with_section(
    config: ConfigView,
    shapes: Seq<ReleaseShape>,
    header: Seq<char>,
)
    requires
        settled_releases(config, false, shapes, shapes.len()),
        settled_section_header(config, header),
    ensures
        settled_releases(config, false, shape_with_section(shapes, header), shapes.len()),
{
    let after = shape_with_section(shapes, header);
    assert forall|i: int| 0 <= i < shapes.len() implies settled_release(
        config,
        false && i == shapes.len() - 1,
        #[trigger] after[i],
    ) by {
        assert(settled_release(config, false && i == shapes.len() - 1, shapes[i]));
        if i == shapes.len() - 1 {
            let added = SectionShape { header, entries: seq![] };
            assert forall|j: int| 0 <= j < after[i].sections.len() implies settled_section(
                config,
                #[trigger] after[i].sections[j],
            ) by {
                if j < shapes[i].sections.len() {
                    assert(after[i].sections[j] == shapes[i].sections[j]);
                    assert(settled_section(config, shapes[i].sections[j]));
                } else {
                    assert(after[i].sections[j] == added);
                }
            }
        }
    }
}

/// Releases that are settled stay settled when a settled entry is added to
/// the last change type of the last of them.
pub proof fn lemma_settled_with_entry(
    config: ConfigView,
    shapes: Seq<ReleaseShape>,
    line: Seq<char>,
)
    requires
        settled_releases(config, false, shapes, shapes.len()),
        settled_entry_line(config, line),
    ensures
        settled_releases(config, false, shape_with_entry(shapes, line), shapes.len()),
{
    let after = shape_with_entry(shapes, line);
    assert forall|i: int| 0 <= i < shapes.len() implies settled_release(
        config,
        false && i == shapes.len() - 1,
        #[trigger] after[i],
    ) by {
        assert(settled_release(config, false && i == shapes.len() - 1, shapes[i]));
        if i == shapes.len() - 1 && shapes[i].sections.len() > 0 {
            let at = shapes[i].sections.len() - 1;
            assert forall|j: int| 0 <= j < after[i].sections.len() implies settled_section(
                config,
                #[trigger] after[i].sections[j],
            ) by {
                assert(settled_section(config, shapes[i].sections[j]));
                if j == at {
                    let section = after[i].sections[j];
                    assert forall|k: int| 0 <= k < section.entries.len() implies settled_entry_line(
                        config,
                        #[trigger] section.entries[k],
                    ) by {
                        if k < shapes[i].sections[j].entries.len() {
                            assert(section.entries[k] == shapes[i].sections[j].entries[k]);
                        }
                    }
                } else {
                    assert(after[i].sections[j] == shapes[i].sections[j]);
                }
            }
        }
    }
}

/// Whether a reading has read nothing but what is settled: what is written
/// of its releases is settled, the reading has ended exactly behind a last
/// release that is a legacy release, and only then is there a legacy part.
pub open spec fn well_read(config: ConfigView, at: (ScanStateView, ChangelogView)) -> bool {
    let old = at.0.mode == ScanMode::InLegacyPassthrough;
    &&& settled_releases(config, old, shape(at.1.releases), at.1.releases.len())
    &&& old ==> at.1.releases.len() > 0
    &&& !old ==> at.1.legacy_contents.len() == 0
    &&& at.1.releases.len() > 0 ==> at.0.mode != ScanMode::InLeadingComment
}

/// A reading that has read nothing but what is settled stays so with the
/// settled header of a release.
pub proof fn lemma_well_read_release(
    config: ConfigView,
    at: (ScanStateView, ChangelogView),
    index: nat,
    line: Seq<char>,
)
    requires
        well_read(config, at),
        line_kind(config, at.0.mode, line) == LineKind::Release,
        line_scanned(config, at.0, at.1, index, line) is Ok,
        settled_line(config, LineKind::Release, line),
    ensures
        well_read(config, line_scanned(config, at.0, at.1, index, line)->Ok_0),
{
    let shapes = shape(at.1.releases);
    let r = release_of(config, line)->Ok_0;
    let old = legacy(config, r.version)->Ok_0;
    lemma_fixed_release_is_read_alike(config, line);
    assert(settled_release_header(config, old, r.fixed)) by {
        reveal(settled_release_header);
    }
    lemma_shape_of_push(at.1.releases, r);
    lemma_settled_with_release(config, shapes, old, r.fixed);
}

/// A reading that has read nothing but what is settled stays so with the
/// settled header of a change type.
pub proof fn lemma_well_read_change_type(
    config: ConfigView,
    at: (ScanStateView, ChangelogView),
    index: nat,
    line: Seq<char>,
)
    requires
        well_read(config, at),
        line_kind(config, at.0.mode, line) == LineKind::ChangeType,
        line_scanned(config, at.0, at.1, index, line) is Ok,
        settled_line(config, LineKind::ChangeType, line),
    ensures
        well_read(config, line_scanned(config, at.0, at.1, index, line)->Ok_0),
{
    let shapes = shape(at.1.releases);
    let c = change_type_of(config, line)->Ok_0;
    if at.1.releases.len() > 0 {
        lemma_fixed_change_type_is_read_alike(config, line);
        assert(settled_section_header(config, c.fixed)) by {
            reveal(settled_section_header);
        }
        lemma_shape_of_with_change_type(at.1.releases, c);
        lemma_settled_with_section(config, shapes, c.fixed);
    }
}

/// A reading that has read nothing but what is settled stays so with a
/// settled line that begins with a dash.
pub proof fn lemma_well_read_entry(
    config: ConfigView,
    at: (ScanStateView, ChangelogView),
    index: nat,
    line: Seq<char>,
)
    requires
        well_read(config, at),
        line_kind(config, at.0.mode, line) == LineKind::Entry,
        settled_line(config, LineKind::Entry, line),
    ensures
        well_read(config, line_scanned(config, at.0, at.1, index, line)->Ok_0),
{
    let shapes = shape(at.1.releases);
    if entry_of(config, line) is Some {
        let e = entry_of(config, line)->0;
        lemma_shape_of_with_entry(at.1.releases, e);
        if at.1.releases.len() > 0 {
            lemma_fixed_entry_is_read_alike(config, line);
            assert(settled_entry_line(config, e.fixed)) by {
                reveal(settled_entry_line);
            }
            lemma_settled_with_entry(config, shapes, e.fixed);
        }
    }
}

/// A reading that has read nothing but what is settled stays so with a
/// line that is kept as it is, or is one of a comment.
pub proof fn lemma_well_read_kept(
    config: ConfigView,
    at: (ScanStateView, ChangelogView),
    index: nat,
    line: Seq<char>,
)
    requires
        well_read(config, at),
        ({
            let kind = line_kind(config, at.0.mode, line);
            kind == LineKind::Legacy || kind == LineKind::Comment || kind == LineKind::Other
        }),
    ensures
        well_read(config, line_scanned(config, at.0, at.1, index, line)->Ok_0),
{
}

/// A reading that has read nothing but what is settled stays so with each
/// settled line that it reads.
pub proof fn lemma_well_read_step(
    config: ConfigView,
    at: (ScanStateView, ChangelogView),
    index: nat,
    line: Seq<char>,
)
    requires
        well_read(config, at),
        line_scanned(config, at.0, at.1, index, line) is Ok,
        settled_line(config, line_kind(config, at.0.mode, line), line),
    ensures
        well_read(config, line_scanned(config, at.0, at.1, index, line)->Ok_0),
{
    match line_kind(config, at.0.mode, line) {
        LineKind::Release => lemma_well_read_release(config, at, index, line),
        LineKind::ChangeType => lemma_well_read_change_type(config, at, index, line),
        LineKind::Entry => lemma_well_read_entry(config, at, index, line),
        _ => lemma_well_read_kept(config, at, index, line),
    }
}

/// The reading of a document with settled lines has read nothing but what
/// is settled.
pub proof fn lemma_well_read(config: ConfigView, path: Seq<char>, lines: Seq<Seq<char>>, n: nat)
    requires
        n <= lines.len(),
        scanned(config, path, lines, n) is Ok,
        settled_lines(config, path, lines, n),
    ensures
        well_read(config, scanned(config, path, lines, n)->Ok_0),
    decreases n,
{
    if n == 0 {
        assert(shape(empty_changelog(path).releases) =~= Seq::<ReleaseShape>::empty());
    } else {
        lemma_scan_went_well(config, path, lines, (n - 1) as nat, n);
        lemma_well_read(config, path, lines, (n - 1) as nat);
        let before = scanned(config, path, lines, (n - 1) as nat)->Ok_0;
        lemma_well_read_step(config, before, (n - 1) as nat, lines[n - 1]);
    }
}

/// Whether the comments that a reading holds are read, on their own, as
/// these comments, up to where the reading stood when the first release
/// began.
pub open spec fn comments_read(
    config: ConfigView,
    path: Seq<char>,
    at: (ScanStateView, ChangelogView),
) -> bool {
    let again = scanned(config, path, at.1.comments, at.1.comments.len());
    &&& again is Ok
    &&& again->Ok_0.1.comments == at.1.comments
    &&& again->Ok_0.1.releases.len() == 0
    &&& again->Ok_0.1.legacy_contents.len() == 0
    &&& again->Ok_0.0.mode == if at.1.releases.len() == 0 {
        at.0.mode
    } else {
        ScanMode::Normal
    }
}

/// The reading of lines with one more line behind them is the reading of
/// the lines, and then of the line.
pub proof fn lemma_scanned_push(
    config: ConfigView,
    path: Seq<char>,
    lines: Seq<Seq<char>>,
    line: Seq<char>,
)
    ensures
        scanned(config, path, lines.push(line), lines.len() + 1) == match scanned(
            config,
            path,
            lines,
            lines.len(),
        ) {
            Err(e) => Err(e),
            Ok((state, doc)) => line_scanned(config, state, doc, lines.len(), line),
        },
{
    lemma_scanned_same(config, path, lines.push(line), lines, lines.len());
}

/// The reading of the first `n` lines depends on these lines only.
pub proof fn lemma_scanned_same(
    config: ConfigView,
    path: Seq<char>,
    a: Seq<Seq<char>>,
    b: Seq<Seq<char>>,
    n: nat,
)
    requires
        n <= a.len(),
        n <= b.len(),
        forall|i: int| 0 <= i < n ==> a[i] == b[i],
    ensures
        scanned(config, path, a, n) == scanned(config, path, b, n),
    decreases n,
{
    if n > 0 {
        lemma_scanned_same(config, path, a, b, (n - 1) as nat);
    }
}

/// The comments of a reading are read as these comments after each line
/// that the reading goes on with.
pub proof fn lemma_comments_read_step(
    config: ConfigView,
    path: Seq<char>,
    at: (ScanStateView, ChangelogView),
    index: nat,
    line: Seq<char>,
)
    requires
        comments_read(config, path, at),
        at.0.mode == ScanMode::InLegacyPassthrough ==> at.1.releases.len() > 0,
        at.1.releases.len() > 0 ==> at.0.mode != ScanMode::InLeadingComment,
        line_scanned(config, at.0, at.1, index, line) is Ok,
    ensures
        comments_read(config, path, line_scanned(config, at.0, at.1, index, line)->Ok_0),
{
    let kind = line_kind(config, at.0.mode, line);
    if kind == LineKind::Comment && at.1.releases.len() == 0 {
        lemma_scanned_push(config, path, at.1.comments, line);
    }
}

/// The comments of a document are read, on their own, as these comments.
pub proof fn lemma_comments_read(
    config: ConfigView,
    path: Seq<char>,
    lines: Seq<Seq<char>>,
    n: nat,
)
    requires
        n <= lines.len(),
        scanned(config, path, lines, n) is Ok,
        settled_lines(config, path, lines, n),
    ensures
        comments_read(config, path, scanned(config, path, lines, n)->Ok_0),
    decreases n,
{
    if n > 0 {
        lemma_scan_went_well(config, path, lines, (n - 1) as nat, n);
        lemma_comments_read(config, path, lines, (n - 1) as nat);
        lemma_well_read(config, path, lines, (n - 1) as nat);
        let before = scanned(config, path, lines, (n - 1) as nat)->Ok_0;
        lemma_comments_read_step(config, path, before, (n - 1) as nat, lines[n - 1]);
    }
}

/// Fixing a changelog twice is fixing it once. A document is read and
/// written out as it should read; what was written is read and written
/// out again; the two texts are one. This holds of every document whose
/// lines are settled and whose last comment is closed, where headers,
/// entries and comments are lines that a text can hold.
pub proof fn lemma_written_changelog_is_final(
    config: ConfigView,
    path: Seq<char>,
    contents: Seq<char>,
)
    requires
        changelog_of(config, path, contents) is Ok,
        settled_lines(config, path, lines_of(contents), lines_of(contents).len()),
        scanned(config, path, lines_of(contents), lines_of(contents).len())->Ok_0.0.mode
            != ScanMode::InLeadingComment,
        crate::fix_laws::fit_lines(rendered_lines(changelog_of(config, path, contents)->Ok_0)),
    ensures
        ({
            let written = changelog_text(changelog_of(config, path, contents)->Ok_0);
            &&& changelog_of(config, path, written) is Ok
            &&& changelog_text(changelog_of(config, path, written)->Ok_0) == written
        }),
{
    let lines = lines_of(contents);
    let at = scanned(config, path, lines, lines.len())->Ok_0;
    lemma_well_read(config, path, lines, lines.len());
    lemma_comments_read(config, path, lines, lines.len());
    let old = at.0.mode == ScanMode::InLegacyPassthrough;
    lemma_rendering_is_final(config, path, old, at.1);
}

} // verus!
