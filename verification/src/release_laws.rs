//! What holds of the reading of release headers, whatever the line.

use crate::config::ConfigView;
use crate::errors::ReleaseError;
use crate::release::{is_date, is_unreleased_header, release_fields, release_link, release_link_check, release_of, unreleased_of, version_end, ReleaseFields, ReleaseView};
use crate::text::{ascii_lower, has_at, has_at_any_case, last_index_of, lemma_run_end, lemma_run_is, run_end, Class};
use crate::text_laws::{lemma_last_index_is, lemma_stretch_is};
use vstd::prelude::*;

verus! {

/// Whether the characters of `s` from `i` on, `m` of them and the one
/// behind them, are those of `t` from `j` on.
pub open spec fn same_stretch(s: Seq<char>, i: int, t: Seq<char>, j: int, m: int) -> bool {
    &&& 0 <= i && 0 <= j && 0 <= m
    &&& i + m < s.len()
    &&& j + m < t.len()
    &&& s.subrange(i, i + m + 1) == t.subrange(j, j + m + 1)
}

/// Two texts with the same stretch hold the same character at each place
/// of it.
pub proof fn lemma_same_stretch_at(s: Seq<char>, i: int, t: Seq<char>, j: int, m: int, x: int)
    requires
        same_stretch(s, i, t, j, m),
        0 <= x <= m,
    ensures
        s[i + x] == t[j + x],
{
    assert(s.subrange(i, i + m + 1)[x] == t.subrange(j, j + m + 1)[x]);
}

/// What is left of a stretch that two texts share is shared as well.
pub proof fn lemma_same_stretch_rest(s: Seq<char>, i: int, t: Seq<char>, j: int, m: int, x: int)
    requires
        same_stretch(s, i, t, j, m),
        0 <= x <= m,
    ensures
        same_stretch(s, i + x, t, j + x, m - x),
{
    let a = s.subrange(i + x, i + m + 1);
    let b = t.subrange(j + x, j + m + 1);
    assert(a =~= b) by {
        assert forall|y: int| 0 <= y < m + 1 - x implies #[trigger] a[y] == b[y] by {
            lemma_same_stretch_at(s, i, t, j, m, x + y);
        }
    }
}

/// A run ends in a second text where it ends in a first, if the two hold
/// the same characters from the start of the run to the character behind
/// it.
pub proof fn lemma_run_moved(s: Seq<char>, i: int, t: Seq<char>, j: int, m: int, k: Class)
    requires
        same_stretch(s, i, t, j, m),
        run_end(s, i, k) <= i + m,
    ensures
        run_end(t, j, k) - j == run_end(s, i, k) - i,
{
    lemma_run_end(s, i, k);
    let e = run_end(s, i, k);
    assert forall|x: int| j <= x < j + (e - i) implies k.holds(#[trigger] t[x]) by {
        lemma_same_stretch_at(s, i, t, j, m, x - j);
    }
    lemma_same_stretch_at(s, i, t, j, m, e - i);
    lemma_run_is(t, j, j + (e - i), k);
}

/// A version that ends before a closing square bracket is found again, with
/// the same end, where the same characters stand in another text.
pub proof fn lemma_version_moved(s: Seq<char>, i: int, t: Seq<char>, j: int, m: int)
    requires
        same_stretch(s, i, t, j, m),
        version_end(s, i) == Some(i + m),
        s[i + m] == ']',
    ensures
        version_end(t, j) == Some(j + m),
{
    reveal_strlit("-rc");
    let a = run_end(s, i + 1, Class::Digit);
    let b = run_end(s, a + 1, Class::Digit);
    let c = run_end(s, b + 1, Class::Digit);
    let d = run_end(s, c + 3, Class::Digit);
    lemma_run_end(s, i + 1, Class::Digit);
    lemma_run_end(s, a + 1, Class::Digit);
    lemma_run_end(s, b + 1, Class::Digit);
    lemma_same_stretch_at(s, i, t, j, m, 0);
    assert(c <= i + m);
    lemma_same_stretch_rest(s, i, t, j, m, 1);
    lemma_run_moved(s, i + 1, t, j + 1, m - 1, Class::Digit);
    let a2 = run_end(t, j + 1, Class::Digit);
    assert(a2 - j == a - i);
    lemma_same_stretch_at(s, i, t, j, m, a - i);
    lemma_same_stretch_rest(s, i, t, j, m, a + 1 - i);
    lemma_run_moved(s, a + 1, t, a2 + 1, m - (a + 1 - i), Class::Digit);
    let b2 = run_end(t, a2 + 1, Class::Digit);
    assert(b2 - j == b - i);
    lemma_same_stretch_at(s, i, t, j, m, b - i);
    lemma_same_stretch_rest(s, i, t, j, m, b + 1 - i);
    lemma_run_moved(s, b + 1, t, b2 + 1, m - (b + 1 - i), Class::Digit);
    let c2 = run_end(t, b2 + 1, Class::Digit);
    assert(c2 - j == c - i);
    let d2 = run_end(t, c2 + 3, Class::Digit);
    if has_at_any_case(s, c, "-rc"@) && c + 3 < d {
        assert(d == i + m);
        lemma_run_end(s, c + 3, Class::Digit);
        lemma_same_stretch_rest(s, i, t, j, m, c + 3 - i);
        lemma_run_moved(s, c + 3, t, c2 + 3, m - (c + 3 - i), Class::Digit);
        assert(d2 - j == d - i);
        let low = s.subrange(c, c + 3).map_values(|x: char| ascii_lower(x));
        let low2 = t.subrange(c2, c2 + 3).map_values(|x: char| ascii_lower(x));
        assert(low2 =~= low) by {
            assert forall|x: int| 0 <= x < 3 implies low2[x] == low[x] by {
                lemma_same_stretch_at(s, i, t, j, m, c - i + x);
            }
        }
        assert(has_at_any_case(t, c2, "-rc"@));
    } else {
        assert(c == i + m);
        lemma_same_stretch_at(s, i, t, j, m, m);
        assert(t[c2] == ']');
        if has_at_any_case(t, c2, "-rc"@) {
            let low2 = t.subrange(c2, c2 + 3).map_values(|x: char| ascii_lower(x));
            assert(low2[0] == ascii_lower(t[c2]));
            assert(false);
        }
    }
}

/// The characters of a version are `v`, `r`, `c`, in capitals or lower
/// case, digits, full stops and hyphens: none of them is a line feed.
pub proof fn lemma_version_chars(s: Seq<char>, i: int, x: int)
    requires
        version_end(s, i) is Some,
        i <= x < version_end(s, i)->0,
    ensures
        s[x] != '\n',
{
    reveal_strlit("-rc");
    let a = run_end(s, i + 1, Class::Digit);
    let b = run_end(s, a + 1, Class::Digit);
    let c = run_end(s, b + 1, Class::Digit);
    let d = run_end(s, c + 3, Class::Digit);
    lemma_run_end(s, i + 1, Class::Digit);
    lemma_run_end(s, a + 1, Class::Digit);
    lemma_run_end(s, b + 1, Class::Digit);
    if x == i {
        assert(ascii_lower(s[i]) == 'v');
    } else if x < a {
        assert(Class::Digit.holds(s[x]));
    } else if x == a {
    } else if x < b {
        assert(Class::Digit.holds(s[x]));
    } else if x == b {
    } else if x < c {
        assert(Class::Digit.holds(s[x]));
    } else {
        assert(has_at_any_case(s, c, "-rc"@) && c + 3 < d);
        lemma_run_end(s, c + 3, Class::Digit);
        if x < c + 3 {
            let low = s.subrange(c, c + 3).map_values(|y: char| ascii_lower(y));
            assert(low[x - c] == ascii_lower(s[x]));
            assert(low[x - c] == "-rc"@[x - c]);
        } else {
            assert(Class::Digit.holds(s[x]));
        }
    }
}

/// Where the parts of a dated release header in its canonical form stand in
/// it.
pub struct ReleaseOffsets {
    /// Where the closing bracket of the version stands.
    pub version_end: int,
    /// Where the link begins.
    pub link: int,
    /// Where the closing bracket of the link stands.
    pub link_end: int,
    /// Where the date begins.
    pub date: int,
    /// Where the line ends.
    pub end: int,
}

/// Where the parts of the canonical header of a dated release stand in it.
pub open spec fn release_offsets(version: Seq<char>, link: Seq<char>, date: Seq<char>)
    -> ReleaseOffsets {
    let version_end: int = 4 + version.len() as int;
    let link_end: int = version_end + 2 + link.len();
    ReleaseOffsets {
        version_end,
        link: version_end + 2,
        link_end,
        date: link_end + 4,
        end: link_end + 4 + date.len(),
    }
}

/// The canonical header of a dated release with the given parts.
pub open spec fn release_header_text(version: Seq<char>, link: Seq<char>, date: Seq<char>) -> Seq<
    char,
> {
    "## ["@ + version + "]("@ + link + ") - "@ + date
}

/// Whether `s` is the canonical header of a dated release with the given
/// parts, character by character.
pub open spec fn is_release_text(
    s: Seq<char>,
    version: Seq<char>,
    link: Seq<char>,
    date: Seq<char>,
) -> bool {
    let o = release_offsets(version, link, date);
    &&& s.len() == o.end
    &&& s[0] == '#' && s[1] == '#' && s[2] == ' ' && s[3] == '['
    &&& forall|i: int| 0 <= i < version.len() ==> s[4 + i] == #[trigger] version[i]
    &&& s[o.version_end] == ']' && s[o.version_end + 1] == '('
    &&& forall|i: int| 0 <= i < link.len() ==> s[o.link + i] == #[trigger] link[i]
    &&& s[o.link_end] == ')' && s[o.link_end + 1] == ' ' && s[o.link_end + 2] == '-' && s[o.link_end
        + 3] == ' '
    &&& forall|i: int| 0 <= i < date.len() ==> s[o.date + i] == #[trigger] date[i]
}

/// The canonical header of a dated release, character by character.
pub proof fn lemma_release_text_chars(version: Seq<char>, link: Seq<char>, date: Seq<char>)
    ensures
        is_release_text(release_header_text(version, link, date), version, link, date),
{
    reveal_strlit("## [");
    reveal_strlit("](");
    reveal_strlit(") - ");
}

/// Whether a text is a date: `YYYY-MM-DD` in digits.
pub open spec fn date_text(d: Seq<char>) -> bool {
    is_date(d, 0)
}

/// Whether a text is a version as a release header holds it, being followed
/// by a closing square bracket.
pub open spec fn version_text_in_header(v: Seq<char>) -> bool {
    version_end(v.push(']'), 0) == Some(v.len() as int)
}

/// The grammar reads the canonical header of a dated release as the parts
/// that it was made from: a version, a link without a line feed that is not
/// empty, and a date.
pub proof fn lemma_release_text_read(
    s: Seq<char>,
    version: Seq<char>,
    link: Seq<char>,
    date: Seq<char>,
)
    requires
        is_release_text(s, version, link, date),
        version_text_in_header(version),
        link.len() > 0,
        forall|i: int| 0 <= i < link.len() ==> #[trigger] link[i] != '\n',
        date_text(date),
    ensures
        release_fields(s) == Some(ReleaseFields { version, link, date }),
        !is_unreleased_header(s),
{
    reveal_strlit("##");
    reveal_strlit("unreleased");
    let o = release_offsets(version, link, date);
    let n = s.len() as int;
    assert(run_end(s, 0, Class::Space) == 0) by {
        lemma_run_is(s, 0, 0, Class::Space);
    }
    assert(has_at(s, 0, "##"@)) by {
        lemma_stretch_is(s, 0, "##"@);
    }
    assert(run_end(s, 2, Class::Space) == 3) by {
        lemma_run_is(s, 2, 3, Class::Space);
    }
    assert(!has_at_any_case(s, 3, "unreleased"@)) by {
        if has_at_any_case(s, 3, "unreleased"@) {
            let low = s.subrange(3, 13).map_values(|x: char| ascii_lower(x));
            assert(low[0] == ascii_lower(s[3]));
            assert(false);
        }
    }
    assert(version_end(s, 4) == Some(o.version_end)) by {
        let v = version.push(']');
        let m = version.len() as int;
        assert(v.subrange(0, m + 1) =~= s.subrange(4, 4 + m + 1)) by {
            assert forall|x: int| 0 <= x <= m implies v[x] == s.subrange(4, 4 + m + 1)[x] by {
                if x < m {
                    assert(s[4 + x] == version[x]);
                }
            }
        }
        lemma_version_moved(v, 0, s, 4, m);
    }
    assert(last_index_of(s, ')', n) == o.link_end) by {
        assert forall|x: int| o.link_end < x < n implies s[x] != ')' by {
            if x >= o.date {
                assert(s[o.date + (x - o.date)] == date[x - o.date]);
            }
        }
        lemma_last_index_is(s, ')', o.link_end, n);
    }
    assert(run_end(s, o.link, Class::Line) >= o.link_end) by {
        lemma_run_end(s, o.link, Class::Line);
        let e = run_end(s, o.link, Class::Line);
        if e < o.link_end {
            assert(s[o.link + (e - o.link)] == link[e - o.link]);
        }
    }
    assert(run_end(s, o.link_end + 1, Class::Space) == o.link_end + 2) by {
        lemma_run_is(s, o.link_end + 1, o.link_end + 2, Class::Space);
    }
    assert(run_end(s, o.link_end + 3, Class::Space) == o.date) by {
        assert(s[o.date + 0] == date[0]);
        lemma_run_is(s, o.link_end + 3, o.date, Class::Space);
    }
    assert(is_date(s, o.date)) by {
        assert(s[o.date + 0] == date[0]);
        assert(s[o.date + 1] == date[1]);
        assert(s[o.date + 2] == date[2]);
        assert(s[o.date + 3] == date[3]);
        assert(s[o.date + 4] == date[4]);
        assert(s[o.date + 5] == date[5]);
        assert(s[o.date + 6] == date[6]);
        assert(s[o.date + 7] == date[7]);
        assert(s[o.date + 8] == date[8]);
        assert(s[o.date + 9] == date[9]);
    }
    lemma_stretch_is(s, 4, version);
    lemma_stretch_is(s, o.link, link);
    lemma_stretch_is(s, o.date, date);
}

/// The version and the date that the grammar finds in a dated release
/// header are a version and a date, and the version holds no line feed.
pub proof fn lemma_release_parts(line: Seq<char>)
    requires
        release_fields(line) is Some,
    ensures
        version_text_in_header(release_fields(line)->0.version),
        date_text(release_fields(line)->0.date),
        forall|i: int|
            0 <= i < release_fields(line)->0.version.len() ==> #[trigger] release_fields(
                line,
            )->0.version[i] != '\n',
{
    let f = release_fields(line)->0;
    let n = line.len() as int;
    let hashes = run_end(line, 0, Class::Space);
    let square = run_end(line, hashes + 2, Class::Space);
    let end = version_end(line, square + 1)->0;
    assert(version_text_in_header(f.version)) by {
        let v = f.version.push(']');
        assert(line.subrange(square + 1, end + 1) =~= v.subrange(
            0,
            f.version.len() as int + 1,
        ));
        lemma_version_moved(line, square + 1, v, 0, f.version.len() as int);
    }
    assert forall|i: int| 0 <= i < f.version.len() implies #[trigger] f.version[i] != '\n' by {
        assert(f.version[i] == line[square + 1 + i]);
        lemma_version_chars(line, square + 1, square + 1 + i);
    }
    assert(date_text(f.date)) by {
        let date = n - 10;
        assert(f.date[0] == line[date + 0]);
        assert(f.date[1] == line[date + 1]);
        assert(f.date[2] == line[date + 2]);
        assert(f.date[3] == line[date + 3]);
        assert(f.date[4] == line[date + 4]);
        assert(f.date[5] == line[date + 5]);
        assert(f.date[6] == line[date + 6]);
        assert(f.date[7] == line[date + 7]);
        assert(f.date[8] == line[date + 8]);
        assert(f.date[9] == line[date + 9]);
    }
}

/// The canonical link of a release holds no line feed where neither the
/// address of the repository nor the version does, and is not empty.
pub proof fn lemma_release_link_chars(repo: Seq<char>, version: Seq<char>)
    requires
        forall|i: int| 0 <= i < version.len() ==> #[trigger] version[i] != '\n',
        forall|i: int| 0 <= i < repo.len() ==> #[trigger] repo[i] != '\n',
    ensures
        release_link(repo, version).len() > 0,
        forall|i: int|
            0 <= i < release_link(repo, version).len() ==> #[trigger] release_link(
                repo,
                version,
            )[i] != '\n',
{
    reveal_strlit("/releases/tag/");
    let link = release_link(repo, version);
    assert forall|i: int| 0 <= i < link.len() implies #[trigger] link[i] != '\n' by {
        let at = repo.len() + 14;
        if i < repo.len() {
            assert(link[i] == repo[i]);
        } else if i >= at {
            assert(link[i] == version[i - at]);
        }
    }
}

/// A text that is, character by character, the canonical header of a dated
/// release with the canonical link is read as that release, without a
/// problem.
pub proof fn lemma_release_text_of(
    config: ConfigView,
    s: Seq<char>,
    version: Seq<char>,
    date: Seq<char>,
)
    requires
        is_release_text(s, version, release_link(config.target_repo, version), date),
        version_text_in_header(version),
        release_link(config.target_repo, version).len() > 0,
        forall|i: int|
            0 <= i < release_link(config.target_repo, version).len() ==> #[trigger] release_link(
                config.target_repo,
                version,
            )[i] != '\n',
        date_text(date),
    ensures
        release_of(config, s) == Ok::<ReleaseView, ReleaseError>(
            ReleaseView {
                line: s,
                fixed: release_header_text(
                    version,
                    release_link(config.target_repo, version),
                    date,
                ),
                version,
                change_types: seq![],
                problems: seq![],
            },
        ),
{
    let link = release_link(config.target_repo, version);
    lemma_release_text_read(s, version, link, date);
    assert(release_link_check(config, link, version) == (link, Seq::<Seq<char>>::empty()));
}

/// The canonical header of a dated release is read as the release that it
/// was made for, without a problem, where the address of the repository
/// holds no line feed.
pub proof fn lemma_release_header_read(config: ConfigView, version: Seq<char>, date: Seq<char>)
    requires
        version_text_in_header(version),
        forall|i: int| 0 <= i < version.len() ==> #[trigger] version[i] != '\n',
        date_text(date),
        forall|i: int|
            0 <= i < config.target_repo.len() ==> #[trigger] config.target_repo[i] != '\n',
    ensures
        ({
            let header = release_header_text(
                version,
                release_link(config.target_repo, version),
                date,
            );
            release_of(config, header) == Ok::<ReleaseView, ReleaseError>(
                ReleaseView {
                    line: header,
                    fixed: header,
                    version,
                    change_types: seq![],
                    problems: seq![],
                },
            )
        }),
{
    let link = release_link(config.target_repo, version);
    let header = release_header_text(version, link, date);
    lemma_release_text_chars(version, link, date);
    lemma_release_link_chars(config.target_repo, version);
    lemma_release_text_of(config, header, version, date);
}

/// Fixing a release header twice is fixing it once: the fixed header of a
/// release is read as a header again, of the same version, without a
/// problem, and is its own fixed header. The address of the repository must
/// hold no line feed.
pub proof fn lemma_release_fix_is_final(config: ConfigView, line: Seq<char>)
    requires
        release_of(config, line) is Ok,
        forall|i: int|
            0 <= i < config.target_repo.len() ==> #[trigger] config.target_repo[i] != '\n',
    ensures
        ({
            let r = release_of(config, line)->Ok_0;
            release_of(config, r.fixed) == Ok::<ReleaseView, ReleaseError>(
                ReleaseView {
                    line: r.fixed,
                    fixed: r.fixed,
                    version: r.version,
                    change_types: seq![],
                    problems: seq![],
                },
            )
        }),
{
    if is_unreleased_header(line) {
        lemma_unreleased_header_is_final();
    } else {
        let f = release_fields(line)->0;
        lemma_release_parts(line);
        lemma_release_header_read(config, f.version, f.date);
    }
}

/// The header `## Unreleased` is read as the unreleased section, without a
/// problem.
pub proof fn lemma_unreleased_header_is_final()
    ensures
        is_unreleased_header("## Unreleased"@),
        unreleased_of("## Unreleased"@) == (ReleaseView {
            line: "## Unreleased"@,
            fixed: "## Unreleased"@,
            version: "Unreleased"@,
            change_types: seq![],
            problems: seq![],
        }),
{
    reveal_strlit("## Unreleased");
    reveal_strlit("##");
    reveal_strlit("unreleased");
    let s = "## Unreleased"@;
    assert(run_end(s, 0, Class::Space) == 0) by {
        lemma_run_is(s, 0, 0, Class::Space);
    }
    assert(run_end(s, 2, Class::Space) == 3) by {
        lemma_run_is(s, 2, 3, Class::Space);
    }
    assert(run_end(s, 13, Class::Space) == 13) by {
        lemma_run_is(s, 13, 13, Class::Space);
    }
    lemma_stretch_is(s, 0, "##"@);
    assert(s.subrange(3, 13).map_values(|c: char| ascii_lower(c)) =~= "unreleased"@);
}

} // verus!
