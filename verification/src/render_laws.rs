//! Writing a changelog out and reading it again.
//!
//! `Changelog::get_fixed_contents` writes a changelog as it should read.
//! `lemma_rendering_is_final` says that what it writes, read again, is
//! written as the same text, for every changelog whose headers and entries
//! are settled.

use crate::change_type::{change_type_of, change_type_text, entries_text, ChangeTypeView};
use crate::changelog::{changelog_text, lemma_lines_text_add, line_kind, line_scanned, lines_text, releases_text, scanned, start_state, empty_changelog, trimmed, with_change_type, with_entry, ChangelogView, LineKind, ScanMode, ScanStateView};
use crate::config::ConfigView;
use crate::entry::{entry_of, EntryView};
use crate::errors::ChangelogError;
use crate::release::{change_types_text, legacy, release_of, release_text, ReleaseView};
use crate::text::{has_at, starts_with};
use vstd::prelude::*;

verus! {

/// The lines of the first `n` entries.
pub open spec fn entry_lines(entries: Seq<EntryView>, n: nat) -> Seq<Seq<char>>
    decreases n,
{
    if n == 0 {
        seq![]
    } else {
        entry_lines(entries, (n - 1) as nat).push(entries[n - 1].fixed)
    }
}

/// The lines of the section of a change type: an empty line, the header, an
/// empty line, the entries.
pub open spec fn change_type_lines(c: ChangeTypeView) -> Seq<Seq<char>> {
    seq![Seq::<char>::empty(), c.fixed, Seq::<char>::empty()] + entry_lines(
        c.entries,
        c.entries.len(),
    )
}

/// The lines of the sections of the first `n` change types.
pub open spec fn change_types_lines(types: Seq<ChangeTypeView>, n: nat) -> Seq<Seq<char>>
    decreases n,
{
    if n == 0 {
        seq![]
    } else {
        change_types_lines(types, (n - 1) as nat) + change_type_lines(types[n - 1])
    }
}

/// The lines of the section of a release: an empty line, the header, the
/// sections of the change types.
pub open spec fn release_lines(r: ReleaseView) -> Seq<Seq<char>> {
    seq![Seq::<char>::empty(), r.fixed] + change_types_lines(
        r.change_types,
        r.change_types.len(),
    )
}

/// The lines of the sections of the first `n` releases.
pub open spec fn releases_lines(releases: Seq<ReleaseView>, n: nat) -> Seq<Seq<char>>
    decreases n,
{
    if n == 0 {
        seq![]
    } else {
        releases_lines(releases, (n - 1) as nat) + release_lines(releases[n - 1])
    }
}

/// The lines of a changelog as it should read.
pub open spec fn rendered_lines(c: ChangelogView) -> Seq<Seq<char>> {
    c.comments + seq!["# Changelog"@] + releases_lines(c.releases, c.releases.len())
        + c.legacy_contents
}

/// The text of the whole of some lines.
pub open spec fn text_of(lines: Seq<Seq<char>>) -> Seq<char> {
    lines_text(lines, lines.len())
}

/// The text of lines, one list behind another, is the text of the one
/// behind the text of the other.
pub proof fn lemma_text_of_add(a: Seq<Seq<char>>, b: Seq<Seq<char>>)
    ensures
        text_of(a + b) == text_of(a) + text_of(b),
{
    lemma_lines_text_add(a, b, b.len());
}

/// The text of the entries is the text of their lines.
pub proof fn lemma_entries_text(entries: Seq<EntryView>, n: nat)
    requires
        n <= entries.len(),
    ensures
        entries_text(entries, n) == text_of(entry_lines(entries, n)),
        entry_lines(entries, n).len() == n,
    decreases n,
{
    if n > 0 {
        lemma_entries_text(entries, (n - 1) as nat);
        let before = entry_lines(entries, (n - 1) as nat);
        let lines = entry_lines(entries, n);
        crate::changelog::lemma_lines_text_same(lines, before, (n - 1) as nat);
    }
}

/// The text of the section of a change type is the text of its lines.
pub proof fn lemma_change_type_text(c: ChangeTypeView)
    ensures
        "\n"@ + change_type_text(c) == text_of(change_type_lines(c)),
{
    reveal_strlit("\n");
    reveal_strlit("\n\n");
    let head = seq![Seq::<char>::empty(), c.fixed, Seq::<char>::empty()];
    lemma_entries_text(c.entries, c.entries.len());
    lemma_text_of_add(head, entry_lines(c.entries, c.entries.len()));
    assert(lines_text(head, 0) =~= Seq::<char>::empty());
    assert(lines_text(head, 1) =~= "\n"@);
    assert(lines_text(head, 2) =~= "\n"@ + c.fixed + "\n"@);
    assert(text_of(head) =~= "\n"@ + c.fixed + "\n\n"@);
    assert("\n"@ + change_type_text(c) =~= text_of(head) + entries_text(
        c.entries,
        c.entries.len(),
    ));
}

/// The text of the sections of the change types is the text of their lines.
pub proof fn lemma_change_types_text(types: Seq<ChangeTypeView>, n: nat)
    requires
        n <= types.len(),
    ensures
        change_types_text(types, n) == text_of(change_types_lines(types, n)),
    decreases n,
{
    if n > 0 {
        lemma_change_types_text(types, (n - 1) as nat);
        lemma_change_type_text(types[n - 1]);
        lemma_text_of_add(
            change_types_lines(types, (n - 1) as nat),
            change_type_lines(types[n - 1]),
        );
        assert(change_types_text(types, n) =~= change_types_text(types, (n - 1) as nat) + ("\n"@
            + change_type_text(types[n - 1])));
    }
}

/// The text of the section of a release is the text of its lines.
pub proof fn lemma_release_text(r: ReleaseView)
    ensures
        "\n"@ + release_text(r) == text_of(release_lines(r)),
{
    reveal_strlit("\n");
    let head = seq![Seq::<char>::empty(), r.fixed];
    lemma_change_types_text(r.change_types, r.change_types.len());
    lemma_text_of_add(head, change_types_lines(r.change_types, r.change_types.len()));
    assert(lines_text(head, 0) =~= Seq::<char>::empty());
    assert(lines_text(head, 1) =~= "\n"@);
    assert(text_of(head) =~= "\n"@ + r.fixed + "\n"@);
    assert("\n"@ + release_text(r) =~= text_of(head) + change_types_text(
        r.change_types,
        r.change_types.len(),
    ));
}

/// The text of the sections of the releases is the text of their lines.
pub proof fn lemma_releases_text(releases: Seq<ReleaseView>, n: nat)
    requires
        n <= releases.len(),
    ensures
        releases_text(releases, n) == text_of(releases_lines(releases, n)),
    decreases n,
{
    if n > 0 {
        lemma_releases_text(releases, (n - 1) as nat);
        lemma_release_text(releases[n - 1]);
        lemma_text_of_add(releases_lines(releases, (n - 1) as nat), release_lines(releases[n - 1]));
        assert(releases_text(releases, n) =~= releases_text(releases, (n - 1) as nat) + ("\n"@
            + release_text(releases[n - 1])));
    }
}

/// A changelog as it should read is the text of its lines.
pub proof fn lemma_changelog_text(c: ChangelogView)
    ensures
        changelog_text(c) == text_of(rendered_lines(c)),
{
    let title = seq!["# Changelog"@];
    let sections = releases_lines(c.releases, c.releases.len());
    lemma_releases_text(c.releases, c.releases.len());
    lemma_text_of_add(c.comments, title);
    lemma_text_of_add(c.comments + title, sections);
    lemma_text_of_add(c.comments + title + sections, c.legacy_contents);
    assert(lines_text(title, 0) =~= Seq::<char>::empty());
    assert(text_of(title) =~= "# Changelog\n"@) by {
        reveal_strlit("# Changelog\n");
        reveal_strlit("# Changelog");
        reveal_strlit("\n");
    }
}

/// What is written of a change type: its header and the lines of its
/// entries.
pub struct SectionShape {
    pub header: Seq<char>,
    pub entries: Seq<Seq<char>>,
}

/// What is written of a release: its header and what is written of its
/// change types.
pub struct ReleaseShape {
    pub header: Seq<char>,
    pub sections: Seq<SectionShape>,
}

/// What is written of a change type.
pub open spec fn section_shape(c: ChangeTypeView) -> SectionShape {
    SectionShape { header: c.fixed, entries: c.entries.map_values(|e: EntryView| e.fixed) }
}

/// What is written of a release.
pub open spec fn release_shape(r: ReleaseView) -> ReleaseShape {
    ReleaseShape {
        header: r.fixed,
        sections: r.change_types.map_values(|c: ChangeTypeView| section_shape(c)),
    }
}

/// What is written of the releases of a changelog.
pub open spec fn shape(releases: Seq<ReleaseView>) -> Seq<ReleaseShape> {
    releases.map_values(|r: ReleaseView| release_shape(r))
}

/// The lines of what is written of a change type.
pub open spec fn section_lines(s: SectionShape) -> Seq<Seq<char>> {
    seq![Seq::<char>::empty(), s.header, Seq::<char>::empty()] + s.entries
}

/// The lines of what is written of the first `n` change types.
pub open spec fn sections_lines(sections: Seq<SectionShape>, n: nat) -> Seq<Seq<char>>
    decreases n,
{
    if n == 0 {
        seq![]
    } else {
        sections_lines(sections, (n - 1) as nat) + section_lines(sections[n - 1])
    }
}

/// The lines of what is written of the first `n` releases.
pub open spec fn shapes_lines(shapes: Seq<ReleaseShape>, n: nat) -> Seq<Seq<char>>
    decreases n,
{
    if n == 0 {
        seq![]
    } else {
        shapes_lines(shapes, (n - 1) as nat) + (seq![Seq::<char>::empty(), shapes[n - 1].header]
            + sections_lines(shapes[n - 1].sections, shapes[n - 1].sections.len()))
    }
}

/// The lines of the entries are what is written of them.
pub proof fn lemma_entry_lines_shape(entries: Seq<EntryView>, n: nat)
    requires
        n <= entries.len(),
    ensures
        entry_lines(entries, n) == entries.map_values(|e: EntryView| e.fixed).subrange(
            0,
            n as int,
        ),
    decreases n,
{
    let texts = entries.map_values(|e: EntryView| e.fixed);
    if n == 0 {
        assert(entry_lines(entries, n) =~= texts.subrange(0, 0));
    } else {
        lemma_entry_lines_shape(entries, (n - 1) as nat);
        assert(entry_lines(entries, n) =~= texts.subrange(0, n as int));
    }
}

/// The lines of the change types are the lines of what is written of them.
pub proof fn lemma_change_types_lines_shape(types: Seq<ChangeTypeView>, n: nat)
    requires
        n <= types.len(),
    ensures
        change_types_lines(types, n) == sections_lines(
            types.map_values(|c: ChangeTypeView| section_shape(c)),
            n,
        ),
    decreases n,
{
    if n > 0 {
        lemma_change_types_lines_shape(types, (n - 1) as nat);
        let c = types[n - 1];
        lemma_entry_lines_shape(c.entries, c.entries.len());
        assert(c.entries.map_values(|e: EntryView| e.fixed).subrange(0, c.entries.len() as int)
            =~= c.entries.map_values(|e: EntryView| e.fixed));
    }
}

/// The lines of the releases are the lines of what is written of them.
pub proof fn lemma_releases_lines_shape(releases: Seq<ReleaseView>, n: nat)
    requires
        n <= releases.len(),
    ensures
        releases_lines(releases, n) == shapes_lines(shape(releases), n),
    decreases n,
{
    if n > 0 {
        lemma_releases_lines_shape(releases, (n - 1) as nat);
        let r = releases[n - 1];
        lemma_change_types_lines_shape(r.change_types, r.change_types.len());
    }
}

/// Two changelogs of which the same is written read the same: what decides
/// is the comments, the headers and the lines of the entries as they should
/// read, and the legacy part.
pub proof fn lemma_same_shape_same_text(a: ChangelogView, b: ChangelogView)
    requires
        a.comments == b.comments,
        shape(a.releases) == shape(b.releases),
        a.legacy_contents == b.legacy_contents,
    ensures
        changelog_text(a) == changelog_text(b),
{
    lemma_changelog_text(a);
    lemma_changelog_text(b);
    lemma_releases_lines_shape(a.releases, a.releases.len());
    lemma_releases_lines_shape(b.releases, b.releases.len());
    assert(a.releases.len() == shape(a.releases).len());
    assert(b.releases.len() == shape(b.releases).len());
}

/// What is written of the releases with one more release, which has no
/// change types yet.
pub open spec fn shape_with_release(shapes: Seq<ReleaseShape>, header: Seq<char>) -> Seq<
    ReleaseShape,
> {
    shapes.push(ReleaseShape { header, sections: seq![] })
}

/// What is written of the releases with one more change type in the last
/// of them, which has no entries yet.
pub open spec fn shape_with_section(shapes: Seq<ReleaseShape>, header: Seq<char>) -> Seq<
    ReleaseShape,
> {
    if shapes.len() > 0 {
        let r = shapes.last();
        shapes.update(
            shapes.len() - 1,
            ReleaseShape {
                sections: r.sections.push(SectionShape { header, entries: seq![] }),
                ..r
            },
        )
    } else {
        shapes
    }
}

/// What is written of the releases with one more entry in the last change
/// type of the last of them.
pub open spec fn shape_with_entry(shapes: Seq<ReleaseShape>, line: Seq<char>) -> Seq<ReleaseShape> {
    if shapes.len() > 0 && shapes.last().sections.len() > 0 {
        let r = shapes.last();
        let s = r.sections.last();
        shapes.update(
            shapes.len() - 1,
            ReleaseShape {
                sections: r.sections.update(
                    r.sections.len() - 1,
                    SectionShape { entries: s.entries.push(line), ..s },
                ),
                ..r
            },
        )
    } else {
        shapes
    }
}

/// What is written of releases to which a release without change types is
/// added.
pub proof fn lemma_shape_of_push(releases: Seq<ReleaseView>, r: ReleaseView)
    requires
        r.change_types.len() == 0,
    ensures
        shape(releases.push(r)) == shape_with_release(shape(releases), r.fixed),
{
    assert(release_shape(r).sections =~= seq![]);
    assert(shape(releases.push(r)) =~= shape_with_release(shape(releases), r.fixed));
}

/// What is written of releases to which a change type without entries is
/// added.
pub proof fn lemma_shape_of_with_change_type(releases: Seq<ReleaseView>, c: ChangeTypeView)
    requires
        c.entries.len() == 0,
    ensures
        shape(with_change_type(releases, c)) == shape_with_section(shape(releases), c.fixed),
{
    if releases.len() > 0 {
        let r = releases.last();
        assert(section_shape(c).entries =~= seq![]);
        let after = with_change_type(releases, c);
        assert(release_shape(after.last()).sections =~= release_shape(r).sections.push(
            SectionShape { header: c.fixed, entries: seq![] },
        ));
        assert(shape(after) =~= shape_with_section(shape(releases), c.fixed));
    }
}

/// What is written of releases to which an entry is added.
pub proof fn lemma_shape_of_with_entry(releases: Seq<ReleaseView>, e: EntryView)
    ensures
        shape(with_entry(releases, e)) == shape_with_entry(shape(releases), e.fixed),
{
    if releases.len() > 0 && releases.last().change_types.len() > 0 {
        let r = releases.last();
        let c = r.change_types.last();
        let after = with_entry(releases, e);
        let at = r.change_types.len() - 1;
        assert(section_shape(after.last().change_types[at]).entries =~= section_shape(
            c,
        ).entries.push(e.fixed));
        assert(release_shape(after.last()).sections =~= release_shape(r).sections.update(
            at,
            SectionShape {
                entries: section_shape(c).entries.push(e.fixed),
                ..section_shape(c)
            },
        ));
        assert(shape(after) =~= shape_with_entry(shape(releases), e.fixed));
    } else {
        assert(shape(releases).len() == releases.len());
        if releases.len() > 0 {
            assert(shape(releases).last().sections.len() == 0);
        }
    }
}

/// What one line does to a reading that stands at `at`.
#[verifier::opaque]
pub open spec fn line_read(
    config: ConfigView,
    at: (ScanStateView, ChangelogView),
    index: nat,
    line: Seq<char>,
) -> Result<(ScanStateView, ChangelogView), ChangelogError> {
    line_scanned(config, at.0, at.1, index, line)
}

/// The state and the document after the first `n` of the given lines,
/// where the reading begins at `start` and the first line bears the number
/// `offset`.
pub open spec fn scanned_on(
    config: ConfigView,
    start: (ScanStateView, ChangelogView),
    lines: Seq<Seq<char>>,
    offset: nat,
    n: nat,
) -> Result<(ScanStateView, ChangelogView), ChangelogError>
    decreases n,
{
    if n == 0 {
        Ok(start)
    } else {
        match scanned_on(config, start, lines, offset, (n - 1) as nat) {
            Err(e) => Err(e),
            Ok(at) => line_read(config, at, (offset + n - 1) as nat, lines[n - 1]),
        }
    }
}

/// The reading of a document is the reading of its lines from the start.
pub proof fn lemma_scanned_from_start(
    config: ConfigView,
    path: Seq<char>,
    lines: Seq<Seq<char>>,
    n: nat,
)
    ensures
        scanned(config, path, lines, n) == scanned_on(
            config,
            (start_state(), empty_changelog(path)),
            lines,
            0,
            n,
        ),
    decreases n,
{
    reveal(line_read);
    if n > 0 {
        lemma_scanned_from_start(config, path, lines, (n - 1) as nat);
    }
}

/// The reading of the first `n` lines depends on these lines only.
pub proof fn lemma_scanned_on_same(
    config: ConfigView,
    start: (ScanStateView, ChangelogView),
    a: Seq<Seq<char>>,
    b: Seq<Seq<char>>,
    offset: nat,
    n: nat,
)
    requires
        n <= a.len(),
        n <= b.len(),
        forall|i: int| 0 <= i < n ==> a[i] == b[i],
    ensures
        scanned_on(config, start, a, offset, n) == scanned_on(config, start, b, offset, n),
    decreases n,
{
    if n > 0 {
        lemma_scanned_on_same(config, start, a, b, offset, (n - 1) as nat);
    }
}

/// Lines that are read behind others are read from where the reading of
/// those ended.
pub proof fn lemma_scanned_on_add(
    config: ConfigView,
    start: (ScanStateView, ChangelogView),
    a: Seq<Seq<char>>,
    b: Seq<Seq<char>>,
    offset: nat,
    n: nat,
)
    requires
        n <= b.len(),
        scanned_on(config, start, a, offset, a.len()) is Ok,
    ensures
        scanned_on(config, start, a + b, offset, a.len() + n) == scanned_on(
            config,
            scanned_on(config, start, a, offset, a.len())->Ok_0,
            b,
            offset + a.len(),
            n,
        ),
    decreases n,
{
    if n == 0 {
        lemma_scanned_on_same(config, start, a + b, a, offset, a.len());
    } else {
        lemma_scanned_on_add(config, start, a, b, offset, (n - 1) as nat);
        assert((a + b)[a.len() + n - 1] == b[n - 1]);
    }
}

/// Whether a line is kept as it is, where the reading stands between the
/// constructs of a document.
#[verifier::opaque]
pub open spec fn kept_line(config: ConfigView, line: Seq<char>) -> bool {
    line_kind(config, ScanMode::Normal, line) == LineKind::Other
}

/// An empty line is kept as it is, wherever the reading stands between the
/// constructs of a document.
pub proof fn lemma_empty_line_is_other(config: ConfigView)
    ensures
        kept_line(config, Seq::<char>::empty()),
{
    reveal(kept_line);
    reveal_strlit("<!--");
    reveal_strlit("## ");
    reveal_strlit("### ");
    reveal_strlit("-");
    let t = trimmed(Seq::<char>::empty());
    assert(t.len() == 0);
    assert forall|i: int| !has_at(t, i, "<!--"@) by {}
}

/// The title of a changelog is kept as it is.
pub proof fn lemma_title_is_other(config: ConfigView)
    ensures
        kept_line(config, "# Changelog"@),
{
    reveal(kept_line);
    reveal_strlit("# Changelog");
    reveal_strlit("## ");
    reveal_strlit("### ");
    reveal_strlit("-");
    let s = "# Changelog"@;
    crate::fix_laws::lemma_no_comment_without_angle(s);
    crate::fix_laws::lemma_trimmed_from_start(s, 0);
    let t = trimmed(s);
    if starts_with(t, "## "@) {
        assert(t.subrange(0, 3)[1] == t[1]);
        assert(false);
    }
    if starts_with(t, "### "@) {
        assert(t.subrange(0, 4)[1] == t[1]);
        assert(false);
    }
    if starts_with(t, "-"@) {
        assert(t.subrange(0, 1)[0] == t[0]);
        assert(false);
    }
}

/// Whether a line is an entry in its fixed form: between the constructs of
/// a release it is held to be an entry, it is one, and it is its own fixed
/// line.
#[verifier::opaque]
pub open spec fn settled_entry_line(config: ConfigView, line: Seq<char>) -> bool {
    &&& line_kind(config, ScanMode::Normal, line) == LineKind::Entry
    &&& entry_of(config, line) is Some
    &&& entry_of(config, line)->0.fixed == line
}

/// Whether a line is the header of a change type in its fixed form: in a
/// release it is read as such a header, and it is its own fixed header.
#[verifier::opaque]
pub open spec fn settled_section_header(config: ConfigView, line: Seq<char>) -> bool {
    &&& line_kind(config, ScanMode::Normal, line) == LineKind::ChangeType
    &&& change_type_of(config, line) is Ok
    &&& change_type_of(config, line)->Ok_0.fixed == line
}

/// Whether a line is the header of a release in its fixed form: it is read
/// as such a header, it is its own fixed header, and it is the header of a
/// legacy release exactly if `old` says so.
#[verifier::opaque]
pub open spec fn settled_release_header(config: ConfigView, old: bool, line: Seq<char>) -> bool {
    &&& line_kind(config, ScanMode::Normal, line) == LineKind::Release
    &&& release_of(config, line)->Ok_0.fixed == line
    &&& legacy(config, release_of(config, line)->Ok_0.version) == Ok::<
        bool,
        crate::errors::ReleaseError,
    >(old)
}

/// What is written of the releases with the first `n` of the given lines
/// added as entries, one after the other.
pub open spec fn shape_with_entries(shapes: Seq<ReleaseShape>, lines: Seq<Seq<char>>, n: nat)
    -> Seq<ReleaseShape>
    decreases n,
{
    if n == 0 {
        shapes
    } else {
        shape_with_entry(shape_with_entries(shapes, lines, (n - 1) as nat), lines[n - 1])
    }
}

/// Whether a reading stands between the constructs of a release: a release
/// was read, and nothing of a legacy part.
pub open spec fn in_release(at: (ScanStateView, ChangelogView)) -> bool {
    &&& at.0.mode == ScanMode::Normal
    &&& at.1.releases.len() > 0
}

/// Whether two readings hold the same comments and the same legacy part.
pub open spec fn same_frame(a: ChangelogView, b: ChangelogView) -> bool {
    a.comments == b.comments && a.legacy_contents == b.legacy_contents
}

/// A line that is kept as it is leaves the reading where it stands.
pub proof fn lemma_other_is_read(
    config: ConfigView,
    at: (ScanStateView, ChangelogView),
    index: nat,
    line: Seq<char>,
)
    requires
        at.0.mode == ScanMode::Normal,
        kept_line(config, line),
    ensures
        line_read(config, at, index, line) == Ok::<(ScanStateView, ChangelogView), ChangelogError>(
            (at.0, ChangelogView { fixed: at.1.fixed.push(line), ..at.1 }),
        ),
{
    reveal(line_read);
    reveal(kept_line);
}

/// An entry in its fixed form is read as that entry: it is added to the
/// change type at hand.
pub proof fn lemma_entry_is_read(
    config: ConfigView,
    at: (ScanStateView, ChangelogView),
    index: nat,
    line: Seq<char>,
)
    requires
        in_release(at),
        settled_entry_line(config, line),
    ensures
        ({
            let read = line_read(config, at, index, line);
            &&& read is Ok
            &&& in_release(read->Ok_0)
            &&& same_frame(read->Ok_0.1, at.1)
            &&& shape(read->Ok_0.1.releases) == shape_with_entry(shape(at.1.releases), line)
        }),
{
    reveal(line_read);
    reveal(settled_entry_line);
    lemma_shape_of_with_entry(at.1.releases, entry_of(config, line)->0);
}

/// The header of a change type in its fixed form is read as that header:
/// the change type is added to the release at hand.
pub proof fn lemma_section_header_is_read(
    config: ConfigView,
    at: (ScanStateView, ChangelogView),
    index: nat,
    line: Seq<char>,
)
    requires
        in_release(at),
        settled_section_header(config, line),
    ensures
        ({
            let read = line_read(config, at, index, line);
            &&& read is Ok
            &&& in_release(read->Ok_0)
            &&& same_frame(read->Ok_0.1, at.1)
            &&& shape(read->Ok_0.1.releases) == shape_with_section(shape(at.1.releases), line)
        }),
{
    reveal(line_read);
    reveal(settled_section_header);
    let c = change_type_of(config, line)->Ok_0;
    assert(c.entries.len() == 0);
    lemma_shape_of_with_change_type(at.1.releases, c);
}

/// The header of a release in its fixed form is read as that header: the
/// release becomes the one at hand, and a legacy release ends the reading.
pub proof fn lemma_release_header_is_read(
    config: ConfigView,
    at: (ScanStateView, ChangelogView),
    index: nat,
    old: bool,
    line: Seq<char>,
)
    requires
        at.0.mode == ScanMode::Normal,
        settled_release_header(config, old, line),
    ensures
        ({
            let read = line_read(config, at, index, line);
            &&& read is Ok
            &&& read->Ok_0.0.mode == if old {
                ScanMode::InLegacyPassthrough
            } else {
                ScanMode::Normal
            }
            &&& read->Ok_0.1.releases.len() > 0
            &&& same_frame(read->Ok_0.1, at.1)
            &&& shape(read->Ok_0.1.releases) == shape_with_release(shape(at.1.releases), line)
        }),
{
    reveal(line_read);
    reveal(settled_release_header);
    let r = release_of(config, line)->Ok_0;
    assert(r.change_types.len() == 0);
    lemma_shape_of_push(at.1.releases, r);
}

/// Behind the header of a legacy release a line is kept as it is.
pub proof fn lemma_legacy_is_read(
    config: ConfigView,
    at: (ScanStateView, ChangelogView),
    index: nat,
    line: Seq<char>,
)
    requires
        at.0.mode == ScanMode::InLegacyPassthrough,
    ensures
        line_read(config, at, index, line) == Ok::<(ScanStateView, ChangelogView), ChangelogError>(
            (at.0, ChangelogView { legacy_contents: at.1.legacy_contents.push(line), ..at.1 }),
        ),
{
    reveal(line_read);
}

/// Entries in their fixed form are read as these entries: each is added to
/// the change type at hand.
pub proof fn lemma_entries_are_read(
    config: ConfigView,
    start: (ScanStateView, ChangelogView),
    lines: Seq<Seq<char>>,
    offset: nat,
    n: nat,
)
    requires
        n <= lines.len(),
        in_release(start),
        forall|i: int| 0 <= i < n ==> settled_entry_line(config, #[trigger] lines[i]),
    ensures
        ({
            let read = scanned_on(config, start, lines, offset, n);
            &&& read is Ok
            &&& in_release(read->Ok_0)
            &&& same_frame(read->Ok_0.1, start.1)
            &&& shape(read->Ok_0.1.releases) == shape_with_entries(
                shape(start.1.releases),
                lines,
                n,
            )
        }),
    decreases n,
{
    if n > 0 {
        lemma_entries_are_read(config, start, lines, offset, (n - 1) as nat);
        let before = scanned_on(config, start, lines, offset, (n - 1) as nat)->Ok_0;
        let line = lines[n - 1];
        assert(settled_entry_line(config, line));
        lemma_entry_is_read(config, before, (offset + n - 1) as nat, line);
    }
}

/// What is written of the releases with one more change type, entries and
/// all, in the last of them.
pub open spec fn shape_with_whole_section(shapes: Seq<ReleaseShape>, section: SectionShape) -> Seq<
    ReleaseShape,
> {
    if shapes.len() > 0 {
        let r = shapes.last();
        shapes.update(shapes.len() - 1, ReleaseShape { sections: r.sections.push(section), ..r })
    } else {
        shapes
    }
}

/// Adding a change type and then its entries, one after the other, is
/// adding the change type with its entries.
pub proof fn lemma_shape_with_entries(
    shapes: Seq<ReleaseShape>,
    header: Seq<char>,
    lines: Seq<Seq<char>>,
    n: nat,
)
    requires
        shapes.len() > 0,
        n <= lines.len(),
    ensures
        shape_with_entries(shape_with_section(shapes, header), lines, n)
            == shape_with_whole_section(
            shapes,
            SectionShape { header, entries: lines.subrange(0, n as int) },
        ),
    decreases n,
{
    let r = shapes.last();
    if n == 0 {
        assert(lines.subrange(0, 0) =~= Seq::<Seq<char>>::empty());
    } else {
        lemma_shape_with_entries(shapes, header, lines, (n - 1) as nat);
        let before = shape_with_whole_section(
            shapes,
            SectionShape { header, entries: lines.subrange(0, n - 1) },
        );
        assert(lines.subrange(0, n - 1).push(lines[n - 1]) =~= lines.subrange(0, n as int));
        let after = shape_with_entry(before, lines[n - 1]);
        let whole = shape_with_whole_section(
            shapes,
            SectionShape { header, entries: lines.subrange(0, n as int) },
        );
        assert(after.last().sections =~= whole.last().sections);
        assert(after =~= whole);
    }
}

/// The first lines of the section of a change type in its fixed form, an
/// empty line, the header and an empty line, are read as the header of a
/// change type.
pub proof fn lemma_section_head_is_read(
    config: ConfigView,
    start: (ScanStateView, ChangelogView),
    header: Seq<char>,
    offset: nat,
)
    requires
        in_release(start),
        settled_section_header(config, header),
    ensures
        ({
            let head = seq![Seq::<char>::empty(), header, Seq::<char>::empty()];
            let read = scanned_on(config, start, head, offset, 3);
            &&& read is Ok
            &&& in_release(read->Ok_0)
            &&& same_frame(read->Ok_0.1, start.1)
            &&& shape(read->Ok_0.1.releases) == shape_with_section(
                shape(start.1.releases),
                header,
            )
        }),
{
    let head = seq![Seq::<char>::empty(), header, Seq::<char>::empty()];
    lemma_empty_line_is_other(config);
    let zero = scanned_on(config, start, head, offset, 0);
    assert(zero == Ok::<(ScanStateView, ChangelogView), ChangelogError>(start));
    lemma_other_is_read(config, start, offset, head[0]);
    let one = scanned_on(config, start, head, offset, 1);
    assert(one == line_read(config, start, offset, head[0]));
    lemma_section_header_is_read(config, one->Ok_0, offset + 1, header);
    let two = scanned_on(config, start, head, offset, 2);
    assert(two == line_read(config, one->Ok_0, offset + 1, head[1]));
    lemma_other_is_read(config, two->Ok_0, offset + 2, head[2]);
    let three = scanned_on(config, start, head, offset, 3);
    assert(three == line_read(config, two->Ok_0, offset + 2, head[2]));
}

/// The section of a change type in its fixed form is read as that change
/// type with its entries.
pub proof fn lemma_section_is_read(
    config: ConfigView,
    start: (ScanStateView, ChangelogView),
    section: SectionShape,
    offset: nat,
)
    requires
        in_release(start),
        settled_section_header(config, section.header),
        forall|i: int|
            0 <= i < section.entries.len() ==> settled_entry_line(
                config,
                #[trigger] section.entries[i],
            ),
    ensures
        ({
            let lines = section_lines(section);
            let read = scanned_on(config, start, lines, offset, lines.len());
            &&& read is Ok
            &&& in_release(read->Ok_0)
            &&& same_frame(read->Ok_0.1, start.1)
            &&& shape(read->Ok_0.1.releases) == shape_with_whole_section(
                shape(start.1.releases),
                section,
            )
        }),
{
    let head = seq![Seq::<char>::empty(), section.header, Seq::<char>::empty()];
    lemma_section_head_is_read(config, start, section.header, offset);
    let middle = scanned_on(config, start, head, offset, 3)->Ok_0;
    lemma_entries_are_read(config, middle, section.entries, offset + 3, section.entries.len());
    lemma_scanned_on_add(config, start, head, section.entries, offset, section.entries.len());
    lemma_shape_with_entries(
        shape(start.1.releases),
        section.header,
        section.entries,
        section.entries.len(),
    );
    assert(section.entries.subrange(0, section.entries.len() as int) =~= section.entries);
}

/// What is written of the releases with the first `n` of the given change
/// types, entries and all, added to the last of them.
pub open spec fn shape_with_sections(
    shapes: Seq<ReleaseShape>,
    sections: Seq<SectionShape>,
    n: nat,
) -> Seq<ReleaseShape>
    decreases n,
{
    if n == 0 {
        shapes
    } else {
        shape_with_whole_section(
            shape_with_sections(shapes, sections, (n - 1) as nat),
            sections[n - 1],
        )
    }
}

/// Whether what is written of a change type is settled: its header and
/// each of its entries.
pub open spec fn settled_section(config: ConfigView, section: SectionShape) -> bool {
    &&& settled_section_header(config, section.header)
    &&& forall|i: int|
        0 <= i < section.entries.len() ==> settled_entry_line(config, #[trigger] section.entries[i])
}

/// The sections of change types in their fixed form are read as these
/// change types.
pub proof fn lemma_sections_are_read(
    config: ConfigView,
    start: (ScanStateView, ChangelogView),
    sections: Seq<SectionShape>,
    offset: nat,
    n: nat,
)
    requires
        n <= sections.len(),
        in_release(start),
        forall|i: int| 0 <= i < n ==> settled_section(config, #[trigger] sections[i]),
    ensures
        ({
            let lines = sections_lines(sections, n);
            let read = scanned_on(config, start, lines, offset, lines.len());
            &&& read is Ok
            &&& in_release(read->Ok_0)
            &&& same_frame(read->Ok_0.1, start.1)
            &&& shape(read->Ok_0.1.releases) == shape_with_sections(
                shape(start.1.releases),
                sections,
                n,
            )
        }),
    decreases n,
{
    if n > 0 {
        lemma_sections_are_read(config, start, sections, offset, (n - 1) as nat);
        let before = sections_lines(sections, (n - 1) as nat);
        let middle = scanned_on(config, start, before, offset, before.len())->Ok_0;
        let section = sections[n - 1];
        assert(settled_section(config, section));
        lemma_section_is_read(config, middle, section, offset + before.len());
        lemma_scanned_on_add(
            config,
            start,
            before,
            section_lines(section),
            offset,
            section_lines(section).len(),
        );
    }
}

/// Adding a release and then its change types, one after the other, is
/// adding the release with its change types.
pub proof fn lemma_shape_with_sections(
    shapes: Seq<ReleaseShape>,
    header: Seq<char>,
    sections: Seq<SectionShape>,
    n: nat,
)
    requires
        n <= sections.len(),
    ensures
        shape_with_sections(shape_with_release(shapes, header), sections, n) == shapes.push(
            ReleaseShape { header, sections: sections.subrange(0, n as int) },
        ),
    decreases n,
{
    if n == 0 {
        assert(sections.subrange(0, 0) =~= Seq::<SectionShape>::empty());
    } else {
        lemma_shape_with_sections(shapes, header, sections, (n - 1) as nat);
        assert(sections.subrange(0, n - 1).push(sections[n - 1]) =~= sections.subrange(
            0,
            n as int,
        ));
        let before = shapes.push(
            ReleaseShape { header, sections: sections.subrange(0, n - 1) },
        );
        let after = shape_with_whole_section(before, sections[n - 1]);
        let whole = shapes.push(
            ReleaseShape { header, sections: sections.subrange(0, n as int) },
        );
        assert(after =~= whole);
    }
}

/// Whether what is written of a release is settled: its header, and each
/// of its change types. A legacy release has no change types.
pub open spec fn settled_release(config: ConfigView, old: bool, release: ReleaseShape) -> bool {
    &&& settled_release_header(config, old, release.header)
    &&& old ==> release.sections.len() == 0
    &&& forall|i: int|
        0 <= i < release.sections.len() ==> settled_section(config, #[trigger] release.sections[i])
}

/// The lines of what is written of a release.
pub open spec fn shape_lines(release: ReleaseShape) -> Seq<Seq<char>> {
    seq![Seq::<char>::empty(), release.header] + sections_lines(
        release.sections,
        release.sections.len(),
    )
}

/// The section of a release in its fixed form is read as that release with
/// its change types; behind the header of a legacy release the reading has
/// ended.
pub proof fn lemma_release_is_read(
    config: ConfigView,
    start: (ScanStateView, ChangelogView),
    old: bool,
    release: ReleaseShape,
    offset: nat,
)
    requires
        start.0.mode == ScanMode::Normal,
        settled_release(config, old, release),
    ensures
        ({
            let lines = shape_lines(release);
            let read = scanned_on(config, start, lines, offset, lines.len());
            &&& read is Ok
            &&& read->Ok_0.0.mode == if old {
                ScanMode::InLegacyPassthrough
            } else {
                ScanMode::Normal
            }
            &&& read->Ok_0.1.releases.len() > 0
            &&& same_frame(read->Ok_0.1, start.1)
            &&& shape(read->Ok_0.1.releases) == shape(start.1.releases).push(release)
        }),
{
    let head = seq![Seq::<char>::empty(), release.header];
    lemma_empty_line_is_other(config);
    let zero = scanned_on(config, start, head, offset, 0);
    assert(zero == Ok::<(ScanStateView, ChangelogView), ChangelogError>(start));
    lemma_other_is_read(config, start, offset, head[0]);
    let one = scanned_on(config, start, head, offset, 1);
    assert(one == line_read(config, start, offset, head[0]));
    lemma_release_header_is_read(config, one->Ok_0, offset + 1, old, release.header);
    let two = scanned_on(config, start, head, offset, 2);
    assert(two == line_read(config, one->Ok_0, offset + 1, head[1]));
    let sections = sections_lines(release.sections, release.sections.len());
    if old {
        assert(sections =~= Seq::<Seq<char>>::empty());
        assert(shape_lines(release) =~= head);
        assert(release.sections =~= Seq::<SectionShape>::empty());
        assert(shape_with_release(shape(start.1.releases), release.header) =~= shape(
            start.1.releases,
        ).push(release));
    } else {
        lemma_sections_are_read(
            config,
            two->Ok_0,
            release.sections,
            offset + 2,
            release.sections.len(),
        );
        lemma_scanned_on_add(config, start, head, sections, offset, sections.len());
        lemma_shape_with_sections(
            shape(start.1.releases),
            release.header,
            release.sections,
            release.sections.len(),
        );
        assert(release.sections.subrange(0, release.sections.len() as int) =~= release.sections);
    }
}

/// Whether what is written of the first `n` releases is settled, where
/// `old` says that the last of them is a legacy release.
pub open spec fn settled_releases(config: ConfigView, old: bool, shapes: Seq<ReleaseShape>, n: nat)
    -> bool {
    forall|i: int|
        0 <= i < n ==> settled_release(config, old && i == n - 1, #[trigger] shapes[i])
}

/// The sections of releases in their fixed form, behind one another from
/// the first release on, are read as these releases.
pub proof fn lemma_releases_are_read(
    config: ConfigView,
    start: (ScanStateView, ChangelogView),
    old: bool,
    shapes: Seq<ReleaseShape>,
    offset: nat,
    n: nat,
)
    requires
        n <= shapes.len(),
        start.0.mode == ScanMode::Normal,
        start.1.releases.len() == 0,
        settled_releases(config, old, shapes, n),
    ensures
        ({
            let lines = shapes_lines(shapes, n);
            let read = scanned_on(config, start, lines, offset, lines.len());
            &&& read is Ok
            &&& read->Ok_0.0.mode == if old && n > 0 {
                ScanMode::InLegacyPassthrough
            } else {
                ScanMode::Normal
            }
            &&& read->Ok_0.1.releases.len() == n
            &&& same_frame(read->Ok_0.1, start.1)
            &&& shape(read->Ok_0.1.releases) == shapes.subrange(0, n as int)
        }),
    decreases n,
{
    if n == 0 {
        assert(shape(start.1.releases) =~= shapes.subrange(0, 0));
    } else {
        assert forall|i: int| 0 <= i < n - 1 implies settled_release(
            config,
            false && i == n - 2,
            #[trigger] shapes[i],
        ) by {
            assert(settled_release(config, old && i == n - 1, shapes[i]));
        }
        lemma_releases_are_read(config, start, false, shapes, offset, (n - 1) as nat);
        let before = shapes_lines(shapes, (n - 1) as nat);
        let middle = scanned_on(config, start, before, offset, before.len())->Ok_0;
        let release = shapes[n - 1];
        assert(settled_release(config, old && n - 1 == n - 1, release));
        lemma_release_is_read(config, middle, old, release, offset + before.len());
        lemma_scanned_on_add(
            config,
            start,
            before,
            shape_lines(release),
            offset,
            shape_lines(release).len(),
        );
        assert(shapes.subrange(0, n - 1).push(release) =~= shapes.subrange(0, n as int));
    }
}

/// Behind the header of a legacy release, lines are kept as they are.
pub proof fn lemma_legacy_lines_are_read(
    config: ConfigView,
    start: (ScanStateView, ChangelogView),
    lines: Seq<Seq<char>>,
    offset: nat,
    n: nat,
)
    requires
        n <= lines.len(),
        start.0.mode == ScanMode::InLegacyPassthrough,
    ensures
        scanned_on(config, start, lines, offset, n) == Ok::<
            (ScanStateView, ChangelogView),
            ChangelogError,
        >(
            (
                start.0,
                ChangelogView {
                    legacy_contents: start.1.legacy_contents + lines.subrange(0, n as int),
                    ..start.1
                },
            ),
        ),
    decreases n,
{
    if n == 0 {
        assert(start.1.legacy_contents + lines.subrange(0, 0) =~= start.1.legacy_contents);
    } else {
        lemma_legacy_lines_are_read(config, start, lines, offset, (n - 1) as nat);
        let before = scanned_on(config, start, lines, offset, (n - 1) as nat)->Ok_0;
        lemma_legacy_is_read(config, before, (offset + n - 1) as nat, lines[n - 1]);
        assert((start.1.legacy_contents + lines.subrange(0, n - 1)).push(lines[n - 1])
            =~= start.1.legacy_contents + lines.subrange(0, n as int));
    }
}

/// Whether a changelog is settled: its comments are read as comments that
/// are closed, what is written of its releases is settled, and it has a
/// legacy part only behind a last release that is a legacy release, which
/// `old` says.
pub open spec fn settled_changelog(config: ConfigView, path: Seq<char>, old: bool, c: ChangelogView)
    -> bool {
    let comments = scanned(config, path, c.comments, c.comments.len());
    &&& comments is Ok
    &&& comments->Ok_0.0.mode == ScanMode::Normal
    &&& comments->Ok_0.1.comments == c.comments
    &&& comments->Ok_0.1.releases.len() == 0
    &&& comments->Ok_0.1.legacy_contents.len() == 0
    &&& settled_releases(config, old, shape(c.releases), c.releases.len())
    &&& old ==> c.releases.len() > 0
    &&& !old ==> c.legacy_contents.len() == 0
}

/// The lines of a settled changelog as it should read are read, without an
/// error, as a changelog of which the same is written.
pub proof fn lemma_rendered_lines_are_read(
    config: ConfigView,
    path: Seq<char>,
    old: bool,
    c: ChangelogView,
)
    requires
        settled_changelog(config, path, old, c),
    ensures
        ({
            let lines = rendered_lines(c);
            let read = scanned(config, path, lines, lines.len());
            &&& read is Ok
            &&& read->Ok_0.1.comments == c.comments
            &&& shape(read->Ok_0.1.releases) == shape(c.releases)
            &&& read->Ok_0.1.legacy_contents == c.legacy_contents
        }),
{
    let start = (start_state(), empty_changelog(path));
    let title = seq!["# Changelog"@];
    let shapes = shape(c.releases);
    let n = c.releases.len();
    let sections = shapes_lines(shapes, n);
    lemma_releases_lines_shape(c.releases, n);
    let lines = rendered_lines(c);
    lemma_scanned_from_start(config, path, lines, lines.len());
    lemma_scanned_from_start(config, path, c.comments, c.comments.len());
    // the comments
    let first = scanned_on(config, start, c.comments, 0, c.comments.len())->Ok_0;
    // the title
    lemma_title_is_other(config);
    lemma_other_is_read(config, first, c.comments.len(), title[0]);
    let zero = scanned_on(config, first, title, c.comments.len(), 0);
    assert(zero == Ok::<(ScanStateView, ChangelogView), ChangelogError>(first));
    let second = scanned_on(config, first, title, c.comments.len(), 1);
    assert(second == line_read(config, first, c.comments.len(), title[0]));
    lemma_scanned_on_add(config, start, c.comments, title, 0, 1);
    let head = c.comments + title;
    // the releases
    lemma_releases_are_read(config, second->Ok_0, old, shapes, head.len(), n);
    let third = scanned_on(config, second->Ok_0, sections, head.len(), sections.len());
    lemma_scanned_on_add(config, start, head, sections, 0, sections.len());
    assert(shapes.subrange(0, n as int) =~= shapes);
    let body = head + sections;
    // the legacy part
    if old {
        lemma_legacy_lines_are_read(
            config,
            third->Ok_0,
            c.legacy_contents,
            body.len(),
            c.legacy_contents.len(),
        );
        assert(c.legacy_contents.subrange(0, c.legacy_contents.len() as int)
            =~= c.legacy_contents);
        assert(third->Ok_0.1.legacy_contents + c.legacy_contents =~= c.legacy_contents);
    } else {
        assert(c.legacy_contents =~= Seq::<Seq<char>>::empty());
    }
    lemma_scanned_on_add(config, start, body, c.legacy_contents, 0, c.legacy_contents.len());
    assert(lines =~= body + c.legacy_contents);
}

/// Writing a changelog out twice is writing it out once. The text of a
/// settled changelog as it should read, where its lines are lines that a
/// text can hold, is read without an error, and what is read is written as
/// the same text.
pub proof fn lemma_rendering_is_final(
    config: ConfigView,
    path: Seq<char>,
    old: bool,
    c: ChangelogView,
)
    requires
        settled_changelog(config, path, old, c),
        crate::fix_laws::fit_lines(rendered_lines(c)),
    ensures
        crate::changelog::changelog_of(config, path, changelog_text(c)) is Ok,
        changelog_text(crate::changelog::changelog_of(config, path, changelog_text(c))->Ok_0)
            == changelog_text(c),
{
    lemma_changelog_text(c);
    crate::fix_laws::lemma_lines_of_text(rendered_lines(c));
    lemma_rendered_lines_are_read(config, path, old, c);
    let read = crate::changelog::changelog_of(config, path, changelog_text(c))->Ok_0;
    lemma_same_shape_same_text(read, c);
}

} // verus!
