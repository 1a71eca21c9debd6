//! Entries that are kept in a file each.
//!
//! Such an entry reads `- (category) description ([#N](link))`. The grammar
//! is `file_entry_fields`; `file_entry_of` says what the checks make of the
//! fields.

use crate::config::{Config, ConfigView};
use crate::entry::{category_check, check_category, check_description, check_link, description_check, link_check};
use crate::errors::EntryError;
use crate::text::{decimal, digits_value, extend_texts, lemma_run_end, lemma_run_is, match_at, push_decimal, push_text, read_decimal, run_end, same_text, scan_run, slice_string, starts_with, to_chars, Class};
use vstd::prelude::*;
use vstd::string::*;

verus! {

/// One entry of a changelog that is kept as a directory.
#[derive(Clone, Debug)]
pub struct MultiFileEntry {
    /// The category of the entry.
    pub category: String,
    /// The entry as it should read.
    pub fixed: String,
    /// The file that holds the entry.
    pub path: String,
    /// The number of the pull request that made the change.
    pub pr_number: u64,
    /// What is wrong with the entry as it was found.
    pub problems: Vec<String>,
}

/// What a `MultiFileEntry` holds.
pub struct MultiFileEntryView {
    pub category: Seq<char>,
    pub fixed: Seq<char>,
    pub path: Seq<char>,
    pub pr_number: nat,
    pub problems: Seq<Seq<char>>,
}

impl DeepView for MultiFileEntry {
    type V = MultiFileEntryView;

    open spec fn deep_view(&self) -> MultiFileEntryView {
        MultiFileEntryView {
            category: self.category@,
            fixed: self.fixed@,
            path: self.path@,
            pr_number: self.pr_number as nat,
            problems: self.problems.deep_view(),
        }
    }
}

impl View for MultiFileEntry {
    type V = MultiFileEntryView;

    open spec fn view(&self) -> MultiFileEntryView {
        self.deep_view()
    }
}

/// Where the parts of a reference to a pull request end.
pub struct ReferenceEnds {
    /// The index of the `]` behind the number.
    pub number_end: int,
    /// The index of the `(` before the link.
    pub round: int,
    /// The index of the `)` behind the link.
    pub link_end: int,
}

/// The reference to a pull request that closes an entry: `([#`, the digits of
/// a number that fits into 64 bits, `]`, a link in round brackets, `)`, and
/// nothing but white space up to the end of the text. `p` is the index of
/// its first bracket.
pub open spec fn reference_at(s: Seq<char>, p: int) -> Option<ReferenceEnds> {
    let n = s.len() as int;
    let number_end = run_end(s, p + 3, Class::Digit);
    let round = run_end(s, number_end + 1, Class::Space);
    let link_end = run_end(s, round + 1, Class::Link);
    if {
        &&& 0 <= p && p + 2 < n
        &&& s[p] == '(' && s[p + 1] == '[' && s[p + 2] == '#'
        &&& p + 3 < number_end < n && s[number_end] == ']'
        &&& digits_value(s.subrange(p + 3, number_end)) <= u64::MAX
        &&& round < n && s[round] == '('
        &&& link_end + 1 < n && s[link_end] == ')' && s[link_end + 1] == ')'
        &&& run_end(s, link_end + 2, Class::Space) == n
    } {
        Some(ReferenceEnds { number_end, round, link_end })
    } else {
        None
    }
}

/// Whether a description may end at index `e`: white space and the
/// reference to a pull request are all that follows.
pub open spec fn closes_at(s: Seq<char>, e: int) -> bool {
    reference_at(s, run_end(s, e, Class::Space)) is Some
}

/// Where the description that starts at `b` ends: at the last index behind
/// `b` and not behind `e` at which it may end.
pub open spec fn description_end(s: Seq<char>, b: int, e: int) -> Option<int>
    decreases e - b,
{
    if e <= b {
        None
    } else if closes_at(s, e) {
        Some(e)
    } else {
        description_end(s, b, e - 1)
    }
}

/// The index of the last character before `i`, and not before `from`, that
/// is no line feed; -1 where there is none.
pub open spec fn last_of_line(s: Seq<char>, from: int, i: int) -> int
    decreases i - from,
{
    if i <= from {
        -1
    } else if s[i - 1] != '\n' {
        i - 1
    } else {
        last_of_line(s, from, i - 1)
    }
}

/// The parts that the grammar of an entry in a file divides a text into.
pub struct FileEntryFields {
    /// The five gaps: before the dash, after it, after the category, after
    /// the description and inside the link.
    pub spaces: Seq<Seq<char>>,
    /// What stands between the first pair of round brackets.
    pub category: Seq<char>,
    /// The description.
    pub description: Seq<char>,
    /// The digits of the pull request's number.
    pub digits: Seq<char>,
    /// What stands between the last pair of round brackets.
    pub link: Seq<char>,
}

/// The fields of a text whose description is the stretch from `b` to `e`.
pub open spec fn fields_at(s: Seq<char>, b: int, e: int) -> FileEntryFields {
    let dash = run_end(s, 0, Class::Space);
    let open = run_end(s, dash + 1, Class::Space);
    let close = run_end(s, open + 1, Class::Label);
    let p = run_end(s, e, Class::Space);
    let ends = reference_at(s, p)->0;
    FileEntryFields {
        spaces: seq![
            s.subrange(0, dash),
            s.subrange(dash + 1, open),
            s.subrange(close + 1, b),
            s.subrange(e, p),
            s.subrange(ends.number_end + 1, ends.round),
        ],
        category: s.subrange(open + 1, close),
        description: s.subrange(b, e),
        digits: s.subrange(p + 3, ends.number_end),
        link: s.subrange(ends.round + 1, ends.link_end),
    }
}

/// Whether a text begins as an entry does: with a dash and a category in
/// round brackets, and any white space before each.
pub open spec fn begins_entry(s: Seq<char>) -> bool {
    let n = s.len() as int;
    let dash = run_end(s, 0, Class::Space);
    let open = run_end(s, dash + 1, Class::Space);
    let close = run_end(s, open + 1, Class::Label);
    &&& dash < n && s[dash] == '-'
    &&& open < n && s[open] == '('
    &&& open + 1 < close < n && s[close] == ')'
}

/// Where the white space behind the category begins.
pub open spec fn category_end(s: Seq<char>) -> int {
    let dash = run_end(s, 0, Class::Space);
    let open = run_end(s, dash + 1, Class::Space);
    run_end(s, open + 1, Class::Label) + 1
}

/// Where the description of an entry begins and ends. It starts behind the
/// white space that follows the category and is as long as it can be, so
/// that it takes the white space of its own line that stands before the
/// reference. Where nothing but the reference follows the category, the
/// description is the last character of the white space between the two that
/// is no line feed.
pub open spec fn description_at(s: Seq<char>) -> Option<(int, int)> {
    let text = run_end(s, category_end(s), Class::Space);
    let last = last_of_line(s, category_end(s), text);
    match description_end(s, text, run_end(s, text, Class::Line)) {
        Some(e) => Some((text, e)),
        None => if last >= 0 && reference_at(s, text) is Some {
            Some((last, last + 1))
        } else {
            None
        },
    }
}

/// The grammar of an entry in a file: a dash, a category in round brackets,
/// a description that holds no line feed and is not empty, and the reference
/// to a pull request, with any white space before each of them and behind
/// the last.
pub open spec fn file_entry_fields(s: Seq<char>) -> Option<FileEntryFields> {
    if begins_entry(s) {
        match description_at(s) {
            Some((b, e)) => Some(fields_at(s, b, e)),
            None => None,
        }
    } else {
        None
    }
}

/// The parts of a text that follows the grammar of an entry in a file.
pub struct FileEntryParts {
    /// The five gaps, in the order of the text.
    pub spaces: Vec<String>,
    /// The category as written.
    pub category: String,
    /// The description as written.
    pub description: String,
    /// The number of the pull request.
    pub pr_number: u64,
    /// The link as written.
    pub link: String,
}

impl FileEntryParts {
    /// Whether the parts are those that the grammar names `f`.
    pub open spec fn holds(self, f: FileEntryFields) -> bool {
        &&& self.spaces.deep_view() == f.spaces
        &&& self.category@ == f.category
        &&& self.description@ == f.description
        &&& self.pr_number == digits_value(f.digits)
        &&& self.link@ == f.link
    }
}

/// What was read of a reference to a pull request.
struct Reference {
    number_end: usize,
    round: usize,
    link_end: usize,
    pr_number: u64,
}

/// Reads the reference to a pull request that starts at index `p`.
fn read_reference(v: &Vec<char>, p: usize) -> (r: Option<Reference>)
    requires
        p <= v.len(),
    ensures
        r is Some <==> reference_at(v@, p as int) is Some,
        r matches Some(found) ==> {
            let ends = reference_at(v@, p as int)->0;
            &&& found.number_end == ends.number_end
            &&& found.round == ends.round
            &&& found.link_end == ends.link_end
            &&& found.pr_number == digits_value(v@.subrange(p + 3, ends.number_end))
            &&& p + 3 < found.number_end < found.round < found.link_end < v.len()
        },
{
    let n = v.len();
    if !(n - p > 2 && v[p] == '(' && v[p + 1] == '[' && v[p + 2] == '#') {
        return None;
    }
    let number_end = scan_run(v, p + 3, Class::Digit);
    if !(p + 3 < number_end && number_end < n && v[number_end] == ']') {
        return None;
    }
    proof {
        lemma_run_end(v@, p + 3, Class::Digit);
    }
    let pr_number = match read_decimal(v, p + 3, number_end) {
        Some(pr) => pr,
        None => {
            return None;
        },
    };
    let round = scan_run(v, number_end + 1, Class::Space);
    if !(round < n && v[round] == '(') {
        return None;
    }
    let link_end = scan_run(v, round + 1, Class::Link);
    if !(n - link_end > 1 && v[link_end] == ')' && v[link_end + 1] == ')') {
        return None;
    }
    if scan_run(v, link_end + 2, Class::Space) != n {
        return None;
    }
    Some(Reference { number_end, round, link_end, pr_number })
}

/// The parts of `v` with the description between `b` and `e` and the
/// reference `found` at index `p`.
fn parts_at(
    v: &Vec<char>,
    dash: usize,
    open: usize,
    close: usize,
    b: usize,
    e: usize,
    p: usize,
    found: Reference,
) -> (parts: FileEntryParts)
    requires
        dash == run_end(v@, 0, Class::Space),
        open == run_end(v@, dash + 1, Class::Space),
        close == run_end(v@, open + 1, Class::Label),
        dash < open < close < b < e <= p < v.len(),
        reference_at(v@, p as int) == Some(
            ReferenceEnds {
                number_end: found.number_end as int,
                round: found.round as int,
                link_end: found.link_end as int,
            },
        ),
        found.pr_number == digits_value(v@.subrange(p + 3, found.number_end as int)),
        p + 3 < found.number_end < found.round < found.link_end < v.len(),
        p == run_end(v@, e as int, Class::Space),
    ensures
        parts.holds(fields_at(v@, b as int, e as int)),
{
    let mut spaces: Vec<String> = Vec::new();
    push_text(&mut spaces, slice_string(v, 0, dash));
    push_text(&mut spaces, slice_string(v, dash + 1, open));
    push_text(&mut spaces, slice_string(v, close + 1, b));
    push_text(&mut spaces, slice_string(v, e, p));
    push_text(&mut spaces, slice_string(v, found.number_end + 1, found.round));
    let parts = FileEntryParts {
        spaces,
        category: slice_string(v, open + 1, close),
        description: slice_string(v, b, e),
        pr_number: found.pr_number,
        link: slice_string(v, found.round + 1, found.link_end),
    };
    assert(parts.spaces.deep_view() =~= fields_at(v@, b as int, e as int).spaces);
    parts
}

/// Divides a text by the grammar of an entry in a file.
pub fn split_file_entry(contents: &str) -> (r: Option<FileEntryParts>)
    ensures
        r is Some <==> file_entry_fields(contents@) is Some,
        r matches Some(p) ==> p.holds(file_entry_fields(contents@)->0),
{
    let v = to_chars(contents);
    let n = v.len();
    let dash = scan_run(&v, 0, Class::Space);
    if !(dash < n && v[dash] == '-') {
        return None;
    }
    let open = scan_run(&v, dash + 1, Class::Space);
    if !(open < n && v[open] == '(') {
        return None;
    }
    let close = scan_run(&v, open + 1, Class::Label);
    if !(open + 1 < close && close < n && v[close] == ')') {
        return None;
    }
    let text = scan_run(&v, close + 1, Class::Space);
    let line_end = scan_run(&v, text, Class::Line);
    let mut e: usize = line_end;
    while e > text
        invariant
            text <= e <= line_end <= n,
            n == v.len(),
            v@ == contents@,
            dash == run_end(v@, 0, Class::Space),
            open == run_end(v@, dash + 1, Class::Space),
            close == run_end(v@, open + 1, Class::Label),
            text == run_end(v@, close + 1, Class::Space),
            line_end == run_end(v@, text as int, Class::Line),
            dash < open < close < text,
            dash < n && v@[dash as int] == '-',
            open < n && v@[open as int] == '(',
            open + 1 < close < n && v@[close as int] == ')',
            description_end(v@, text as int, line_end as int) == description_end(
                v@,
                text as int,
                e as int,
            ),
        decreases e,
    {
        let p = scan_run(&v, e, Class::Space);
        match read_reference(&v, p) {
            Some(found) => {
                return Some(parts_at(&v, dash, open, close, text, e, p, found));
            },
            None => {},
        }
        e -= 1;
    }
    let mut last: usize = text;
    while last > close + 1 && v[last - 1] == '\n'
        invariant
            close + 1 <= last <= text <= n,
            n == v.len(),
            v@ == contents@,
            last_of_line(v@, close + 1, text as int) == last_of_line(v@, close + 1, last as int),
            forall|j: int| last <= j < text ==> v@[j] == '\n',
        decreases last,
    {
        last -= 1;
    }
    if last == close + 1 {
        return None;
    }
    proof {
        lemma_run_end(v@, close + 1, Class::Space);
        assert forall|j: int| last <= j < text implies Class::Space.holds(#[trigger] v@[j]) by {
            assert(v@[j] == '\n');
        }
        lemma_run_is(v@, last as int, text as int, Class::Space);
    }
    match read_reference(&v, text) {
        Some(found) => Some(parts_at(&v, dash, open, close, last - 1, last, text, found)),
        None => None,
    }
}

/// The gap that the canonical form of an entry in a file has at position
/// `i`.
pub open spec fn expected_file_space(i: int) -> Seq<char> {
    if i == 0 || i == 4 {
        ""@
    } else {
        " "@
    }
}

/// The problem that stands for a wrong gap at position `i`.
pub open spec fn file_space_problem(i: int) -> Seq<char> {
    if i == 0 {
        "There should be no leading whitespace before the dash"@
    } else if i == 1 {
        "There should be exactly one space between the leading dash and the category"@
    } else if i == 2 {
        "There should be exactly one space between the category and the description"@
    } else if i == 3 {
        "There should be exactly one space between the description and the PR link"@
    } else {
        "There should be no whitespace inside of the markdown link"@
    }
}

/// The problems of the first `n` gaps: one for each gap that is not as
/// expected, in the order of the gaps.
pub open spec fn file_spaces_checked(spaces: Seq<Seq<char>>, n: nat) -> Seq<Seq<char>>
    decreases n,
{
    if n == 0 {
        seq![]
    } else {
        let before = file_spaces_checked(spaces, (n - 1) as nat);
        if spaces[n - 1] != expected_file_space(n - 1) {
            before.push(file_space_problem(n - 1))
        } else {
            before
        }
    }
}

/// The problems of the five gaps of an entry in a file.
pub open spec fn file_whitespace_check(spaces: Seq<Seq<char>>) -> Seq<Seq<char>> {
    file_spaces_checked(spaces, 5)
}

fn expected_gap(i: usize) -> (r: &'static str)
    ensures
        r@ == expected_file_space(i as int),
{
    if i == 0 || i == 4 {
        ""
    } else {
        " "
    }
}

fn gap_problem(i: usize) -> (r: &'static str)
    ensures
        r@ == file_space_problem(i as int),
{
    if i == 0 {
        "There should be no leading whitespace before the dash"
    } else if i == 1 {
        "There should be exactly one space between the leading dash and the category"
    } else if i == 2 {
        "There should be exactly one space between the category and the description"
    } else if i == 3 {
        "There should be exactly one space between the description and the PR link"
    } else {
        "There should be no whitespace inside of the markdown link"
    }
}

/// Holds the five gaps of an entry in a file against what they should be:
/// nothing before the dash and inside the link, one space elsewhere.
pub fn check_whitespace(spaces: [&str; 5]) -> (problems: Vec<String>)
    ensures
        problems.deep_view() == file_whitespace_check(spaces.deep_view()),
{
    let mut problems: Vec<String> = Vec::new();
    let mut i: usize = 0;
    while i < 5
        invariant
            i <= 5,
            problems.deep_view() == file_spaces_checked(spaces.deep_view(), i as nat),
        decreases 5 - i,
    {
        if !same_text(spaces[i], expected_gap(i)) {
            push_text(&mut problems, String::from_str(gap_problem(i)));
        }
        i += 1;
    }
    problems
}

/// The text of an entry in a file with the given parts.
pub open spec fn file_entry_text(
    category: Seq<char>,
    link: Seq<char>,
    description: Seq<char>,
    pr: nat,
) -> Seq<char> {
    "- ("@ + category + ") "@ + description + " [#"@ + decimal(pr) + "]("@ + link + ")"@
}

/// The entry with the given parts, as it is written into a file.
pub fn build_fixed(cat: &str, link: &str, desc: &str, pr: u64) -> (fixed: String)
    ensures
        fixed@ == file_entry_text(cat@, link@, desc@, pr as nat),
{
    let mut fixed = String::from_str("- (");
    fixed.append(cat);
    fixed.append(") ");
    fixed.append(desc);
    fixed.append(" [#");
    push_decimal(&mut fixed, pr);
    fixed.append("](");
    fixed.append(link);
    fixed.append(")");
    fixed
}

/// The problem of a file whose path does not begin with the number of the
/// pull request, if that is so.
pub open spec fn prefix_check(path: Seq<char>, pr: nat) -> Seq<Seq<char>> {
    if !starts_with(path, decimal(pr)) {
        seq!["The filename should be prefixed with the PR number"@]
    } else {
        seq![]
    }
}

/// The entry that the contents of the file at `path` stand for, with
/// everything that the checks found. The problems come in the order path,
/// category, link, description, gaps. There is no entry where the contents
/// do not follow the grammar.
pub open spec fn file_entry_of(config: ConfigView, path: Seq<char>, contents: Seq<char>) -> Option<
    MultiFileEntryView,
> {
    match file_entry_fields(contents) {
        None => None,
        Some(f) => {
            let pr = digits_value(f.digits);
            let category = category_check(config, f.category);
            let link = link_check(config, f.link, pr);
            let description = description_check(config, f.description);
            Some(
                MultiFileEntryView {
                    category: category.0,
                    fixed: file_entry_text(category.0, link.0, description.0, pr),
                    path,
                    pr_number: pr,
                    problems: prefix_check(path, pr) + category.1 + link.1 + description.1
                        + file_whitespace_check(f.spaces),
                },
            )
        },
    }
}

/// Parses the contents of the file at `path` as one entry. Contents that do
/// not follow the grammar are handed back in the error; every other fault is
/// a problem of the entry.
pub fn parse(config: &Config, path: &str, contents: &str) -> (r: Result<MultiFileEntry, EntryError>)
    ensures
        match r {
            Ok(e) => file_entry_of(config@, path@, contents@) == Some(e@),
            Err(EntryError::InvalidEntry(held)) => file_entry_of(config@, path@, contents@) is None
                && held@ == contents@,
        },
{
    let parts = match split_file_entry(contents) {
        Some(p) => p,
        None => {
            return Err(EntryError::InvalidEntry(contents.to_string()));
        },
    };
    let mut problems: Vec<String> = Vec::new();
    let mut number = String::new();
    push_decimal(&mut number, parts.pr_number);
    assert(number@ =~= decimal(parts.pr_number as nat));
    if !match_at(&to_chars(path), 0, number.as_str()) {
        push_text(
            &mut problems,
            String::from_str("The filename should be prefixed with the PR number"),
        );
    }
    assert(problems.deep_view() =~= prefix_check(path@, parts.pr_number as nat));

    let (fixed_category, category_problems) = check_category(config, parts.category.as_str());
    extend_texts(&mut problems, category_problems);

    let (fixed_link, link_problems) = check_link(config, parts.link.as_str(), parts.pr_number);
    extend_texts(&mut problems, link_problems);

    let (fixed_desc, desc_problems) = check_description(config, parts.description.as_str());
    extend_texts(&mut problems, desc_problems);

    let fixed = build_fixed(
        fixed_category.as_str(),
        fixed_link.as_str(),
        fixed_desc.as_str(),
        parts.pr_number,
    );
    assert(parts.spaces.deep_view().len() == 5);
    let spaces: [&str; 5] = [
        parts.spaces[0].as_str(),
        parts.spaces[1].as_str(),
        parts.spaces[2].as_str(),
        parts.spaces[3].as_str(),
        parts.spaces[4].as_str(),
    ];
    assert(spaces.deep_view() =~= parts.spaces.deep_view());
    extend_texts(&mut problems, check_whitespace(spaces));

    let e = MultiFileEntry {
        category: fixed_category,
        fixed,
        path: path.to_string(),
        pr_number: parts.pr_number,
        problems,
    };
    assert(e.problems.deep_view() =~= file_entry_of(config@, path@, contents@)->0.problems);
    Ok(e)
}

} // verus!
