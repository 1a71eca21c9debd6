//! What holds of the grammar of an entry in a file: of all the ways to
//! divide a text into category, description and reference, the grammar takes
//! the one whose description starts latest and, of those, the longest.

use crate::multi_file::entry::{begins_entry, category_end, closes_at, description_at, description_end, file_entry_fields, last_of_line, reference_at};
use crate::text::{lemma_run_end, lemma_run_is, run_end, Class};
use vstd::prelude::*;

verus! {

/// Whether a text can be divided so that its description is the stretch
/// from `b` to `e`: the text begins as an entry does, nothing but white
/// space stands between the category and `b`, the stretch is not empty and
/// holds no line feed, and white space and the reference to a pull request
/// are all that follows it.
pub open spec fn divides(s: Seq<char>, b: int, e: int) -> bool {
    &&& begins_entry(s)
    &&& category_end(s) <= b <= run_end(s, category_end(s), Class::Space)
    &&& b < e <= run_end(s, b, Class::Line)
    &&& closes_at(s, e)
}

/// A run that is entered in its middle ends where it ends.
pub proof fn lemma_run_from_inside(s: Seq<char>, i: int, j: int, k: Class)
    requires
        0 <= i <= j <= run_end(s, i, k),
    ensures
        run_end(s, j, k) == run_end(s, i, k),
{
    if i <= s.len() {
        lemma_run_end(s, i, k);
        let end = run_end(s, i, k);
        assert forall|x: int| j <= x < end implies k.holds(#[trigger] s[x]) by {}
        lemma_run_is(s, j, end, k);
    }
}

/// Where a description may end at `x`, the search from `e` down to `b`
/// finds an end, and none before `x`.
pub proof fn lemma_description_end_is_last(s: Seq<char>, b: int, e: int, x: int)
    requires
        b < x <= e,
        closes_at(s, x),
    ensures
        description_end(s, b, e) is Some,
        x <= description_end(s, b, e)->0,
    decreases e - b,
{
    if !closes_at(s, e) {
        lemma_description_end_is_last(s, b, e - 1, x);
    }
}

/// What the search for the end of a description finds is an index behind
/// `b` and not behind `e` at which the description may end.
pub proof fn lemma_description_end_closes(s: Seq<char>, b: int, e: int)
    ensures
        description_end(s, b, e) matches Some(x) ==> b < x <= e && closes_at(s, x),
    decreases e - b,
{
    if e > b && !closes_at(s, e) {
        lemma_description_end_closes(s, b, e - 1);
    }
}

/// The last character of a stretch that is no line feed: it lies in the
/// stretch, and only line feeds follow it there.
pub proof fn lemma_last_of_line(s: Seq<char>, from: int, i: int)
    requires
        0 <= from,
    ensures
        ({
            let last = last_of_line(s, from, i);
            if last < 0 {
                forall|j: int| from <= j < i ==> s[j] == '\n'
            } else {
                &&& from <= last < i
                &&& s[last] != '\n'
                &&& forall|j: int| last < j < i ==> s[j] == '\n'
            }
        }),
    decreases i - from,
{
    if i > from && s[i - 1] == '\n' {
        lemma_last_of_line(s, from, i - 1);
    }
}

/// The white space between the category and the place where a description
/// could start at the latest ends where the latter begins.
proof fn lemma_gap_ends(s: Seq<char>, e: int)
    requires
        begins_entry(s),
        category_end(s) <= e <= run_end(s, category_end(s), Class::Space),
    ensures
        run_end(s, e, Class::Space) == run_end(s, category_end(s), Class::Space),
{
    lemma_run_end(s, 0, Class::Space);
    let dash = run_end(s, 0, Class::Space);
    lemma_run_end(s, dash + 1, Class::Space);
    let open = run_end(s, dash + 1, Class::Space);
    lemma_run_end(s, open + 1, Class::Label);
    lemma_run_from_inside(s, category_end(s), e, Class::Space);
}

/// The description that the grammar takes divides the text.
pub proof fn lemma_description_divides(s: Seq<char>)
    requires
        file_entry_fields(s) is Some,
    ensures
        description_at(s) is Some,
        ({
            let taken = description_at(s)->0;
            divides(s, taken.0, taken.1)
        }),
{
    let from = category_end(s);
    lemma_run_end(s, 0, Class::Space);
    let dash = run_end(s, 0, Class::Space);
    lemma_run_end(s, dash + 1, Class::Space);
    let open = run_end(s, dash + 1, Class::Space);
    lemma_run_end(s, open + 1, Class::Label);
    lemma_run_end(s, from, Class::Space);
    let text = run_end(s, from, Class::Space);
    let line_end = run_end(s, text, Class::Line);
    lemma_description_end_closes(s, text, line_end);
    if description_end(s, text, line_end) is None {
        lemma_last_of_line(s, from, text);
        let last = last_of_line(s, from, text);
        assert forall|j: int| last + 1 <= j < text implies Class::Space.holds(#[trigger] s[j]) by {
            assert(s[j] == '\n');
        }
        lemma_run_is(s, last + 1, text, Class::Space);
        assert(run_end(s, last, Class::Line) == run_end(s, last + 1, Class::Line));
        lemma_run_end(s, last + 1, Class::Line);
    }
}

/// The description that the grammar takes is the first choice: a text that
/// can be divided at all is an entry, and no division of it has a
/// description that starts later than the one taken, or starts where that
/// one starts and is longer.
pub proof fn lemma_description_is_first_choice(s: Seq<char>, b: int, e: int)
    requires
        divides(s, b, e),
    ensures
        file_entry_fields(s) is Some,
        ({
            let taken = description_at(s)->0;
            b < taken.0 || (b == taken.0 && e <= taken.1)
        }),
{
    let from = category_end(s);
    lemma_run_end(s, 0, Class::Space);
    let dash = run_end(s, 0, Class::Space);
    lemma_run_end(s, dash + 1, Class::Space);
    let open = run_end(s, dash + 1, Class::Space);
    lemma_run_end(s, open + 1, Class::Label);
    lemma_run_end(s, from, Class::Space);
    let text = run_end(s, from, Class::Space);
    let line_end = run_end(s, text, Class::Line);
    lemma_run_end(s, b, Class::Line);
    lemma_description_end_closes(s, text, line_end);
    if e > text {
        lemma_run_from_inside(s, b, text, Class::Line);
        lemma_description_end_is_last(s, text, line_end, e);
    } else {
        lemma_gap_ends(s, e);
        assert(reference_at(s, text) is Some);
        if description_end(s, text, line_end) is None {
            lemma_last_of_line(s, from, text);
            let last = last_of_line(s, from, text);
            assert(s[b] != '\n');
            if b == last && last + 1 < text {
                assert(s[last + 1] == '\n');
                assert forall|x: int| b <= x < b + 1 implies Class::Line.holds(#[trigger] s[x]) by {}
                lemma_run_is(s, b, b + 1, Class::Line);
            }
        }
    }
}

} // verus!
