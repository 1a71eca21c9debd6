//! Entries: the lines of a changelog that each describe one change.
//!
//! An entry reads `- (category) [#N](link) description`. The grammar is
//! `entry_fields`; what the checks make of each field is `category_check`,
//! `link_check`, `description_check`, `spelling_check` and `whitespace_check`;
//! `entry_of` puts them together.

use crate::config::{Config, ConfigView};
use crate::errors::{EntryError, MatchError};
use crate::pattern::{capture, pattern_compiles, pattern_group, pattern_matches, pattern_replaced, replace_every, search};
use crate::text::{all_digits, ascii_upper, decimal, digits_value, extend_texts, holds_text, lemma_run_end, lowercase, push_char, push_decimal, push_text, read_decimal, run_end, same_text, scan_run, slice_string, starts_with, to_chars, to_lowercase, match_at, Class};
use vstd::prelude::*;
use vstd::string::*;

verus! {

/// One entry of a changelog.
#[derive(Clone, Debug)]
pub struct Entry {
    /// The category of the entry.
    pub category: String,
    /// The line as it should read.
    pub fixed: String,
    /// The number of the pull request that made the change.
    pub pr_number: u64,
    /// What is wrong with the line as it was found.
    pub problems: Vec<String>,
}

/// What an `Entry` holds.
pub struct EntryView {
    pub category: Seq<char>,
    pub fixed: Seq<char>,
    pub pr_number: nat,
    pub problems: Seq<Seq<char>>,
}

impl DeepView for Entry {
    type V = EntryView;

    open spec fn deep_view(&self) -> EntryView {
        EntryView {
            category: self.category@,
            fixed: self.fixed@,
            pr_number: self.pr_number as nat,
            problems: self.problems.deep_view(),
        }
    }
}

impl View for Entry {
    type V = EntryView;

    open spec fn view(&self) -> EntryView {
        self.deep_view()
    }
}

/// The parts that the grammar of an entry divides a line into.
pub struct EntryFields {
    /// The five gaps: before the dash, after it, after the category, inside
    /// the link and before the description.
    pub spaces: Seq<Seq<char>>,
    /// What stands between the first pair of round brackets.
    pub category: Seq<char>,
    /// Whether a backslash stands before the `#`.
    pub backslash: bool,
    /// The digits of the pull request's number.
    pub digits: Seq<char>,
    /// What stands between the second pair of round brackets.
    pub link: Seq<char>,
    /// The rest of the line.
    pub description: Seq<char>,
}

/// The grammar of an entry: a dash, a category in round brackets, the number
/// of a pull request in square brackets after `#` (a backslash may precede
/// it), a link in round brackets and a description that is not empty and
/// holds no line feed, with any white space before each of them. The number
/// has to fit into 64 bits.
pub open spec fn entry_fields(s: Seq<char>) -> Option<EntryFields> {
    let n = s.len() as int;
    let dash = run_end(s, 0, Class::Space);
    let open = run_end(s, dash + 1, Class::Space);
    let close = run_end(s, open + 1, Class::Label);
    let square = run_end(s, close + 1, Class::Space);
    let backslash = square + 1 < n && s[square + 1] == '\\';
    let hash = if backslash {
        square + 2
    } else {
        square + 1
    };
    let number_end = run_end(s, hash + 1, Class::Digit);
    let round = run_end(s, number_end + 1, Class::Space);
    let link_end = run_end(s, round + 1, Class::Link);
    let text = run_end(s, link_end + 1, Class::Space);
    let start = if text < n {
        text
    } else {
        n - 1
    };
    if {
        &&& dash < n && s[dash] == '-'
        &&& open < n && s[open] == '('
        &&& open + 1 < close < n && s[close] == ')'
        &&& square < n && s[square] == '['
        &&& hash < n && s[hash] == '#'
        &&& hash + 1 < number_end < n && s[number_end] == ']'
        &&& digits_value(s.subrange(hash + 1, number_end)) <= u64::MAX
        &&& round < n && s[round] == '('
        &&& link_end < n && s[link_end] == ')'
        &&& link_end + 1 < n
        &&& run_end(s, start, Class::Line) == n
    } {
        Some(
            EntryFields {
                spaces: seq![
                    s.subrange(0, dash),
                    s.subrange(dash + 1, open),
                    s.subrange(close + 1, square),
                    s.subrange(number_end + 1, round),
                    s.subrange(link_end + 1, start),
                ],
                category: s.subrange(open + 1, close),
                backslash,
                digits: s.subrange(hash + 1, number_end),
                link: s.subrange(round + 1, link_end),
                description: s.subrange(start, n),
            },
        )
    } else {
        None
    }
}

/// The parts of a line that follows the grammar of an entry.
pub struct EntryParts {
    /// The five gaps, in the order of the line.
    pub spaces: Vec<String>,
    /// The category as written.
    pub category: String,
    /// Whether a backslash stands before the `#`.
    pub backslash: bool,
    /// The number of the pull request.
    pub pr_number: u64,
    /// The link as written.
    pub link: String,
    /// The description as written.
    pub description: String,
}

impl EntryParts {
    /// Whether the parts are those that the grammar names `f`.
    pub open spec fn holds(self, f: EntryFields) -> bool {
        &&& self.spaces.deep_view() == f.spaces
        &&& self.category@ == f.category
        &&& self.backslash == f.backslash
        &&& self.pr_number == digits_value(f.digits)
        &&& self.link@ == f.link
        &&& self.description@ == f.description
    }
}

/// Divides a line by the grammar of an entry.
pub fn split_entry(line: &str) -> (r: Option<EntryParts>)
    ensures
        r is Some <==> entry_fields(line@) is Some,
        r matches Some(p) ==> p.holds(entry_fields(line@)->0),
{
    let v = to_chars(line);
    let n = v.len();
    let dash = scan_run(&v, 0, Class::Space);
    if !(dash < n && v[dash] == '-') {
        return None;
    }
    let open = scan_run(&v, dash + 1, Class::Space);
    if !(open < n && v[open] == '(') {
        return None;
    }
    let close = scan_run(&v, open + 1, Class::Label);
    if !(open + 1 < close && close < n && v[close] == ')') {
        return None;
    }
    let square = scan_run(&v, close + 1, Class::Space);
    if !(square < n && v[square] == '[') {
        return None;
    }
    let backslash = square + 1 < n && v[square + 1] == '\\';
    let hash = if backslash {
        square + 2
    } else {
        square + 1
    };
    if !(hash < n && v[hash] == '#') {
        return None;
    }
    let number_end = scan_run(&v, hash + 1, Class::Digit);
    if !(hash + 1 < number_end && number_end < n && v[number_end] == ']') {
        return None;
    }
    proof {
        lemma_run_end(v@, hash + 1, Class::Digit);
    }
    let pr_number = match read_decimal(&v, hash + 1, number_end) {
        Some(p) => p,
        None => {
            return None;
        },
    };
    let round = scan_run(&v, number_end + 1, Class::Space);
    if !(round < n && v[round] == '(') {
        return None;
    }
    let link_end = scan_run(&v, round + 1, Class::Link);
    if !(link_end < n && v[link_end] == ')') {
        return None;
    }
    if !(link_end + 1 < n) {
        return None;
    }
    let text = scan_run(&v, link_end + 1, Class::Space);
    let start = if text < n {
        text
    } else {
        n - 1
    };
    if scan_run(&v, start, Class::Line) != n {
        return None;
    }
    let mut spaces: Vec<String> = Vec::new();
    push_text(&mut spaces, slice_string(&v, 0, dash));
    push_text(&mut spaces, slice_string(&v, dash + 1, open));
    push_text(&mut spaces, slice_string(&v, close + 1, square));
    push_text(&mut spaces, slice_string(&v, number_end + 1, round));
    push_text(&mut spaces, slice_string(&v, link_end + 1, start));
    let parts = EntryParts {
        spaces,
        category: slice_string(&v, open + 1, close),
        backslash,
        pr_number,
        link: slice_string(&v, round + 1, link_end),
        description: slice_string(&v, start, n),
    };
    assert(parts.spaces.deep_view() =~= entry_fields(line@)->0.spaces);
    Some(parts)
}

/// The gap that the canonical form of an entry has at position `i`.
pub open spec fn expected_space(i: int) -> Seq<char> {
    if i == 0 || i == 3 {
        ""@
    } else {
        " "@
    }
}

/// The problem that stands for a wrong gap at position `i`.
pub open spec fn space_problem(i: int) -> Seq<char> {
    if i == 0 {
        "There should be no leading whitespace before the dash"@
    } else if i == 1 {
        "There should be exactly one space between the leading dash and the category"@
    } else if i == 2 {
        "There should be exactly one space between the category and the PR link"@
    } else if i == 3 {
        "There should be no whitespace inside of the markdown link"@
    } else {
        "There should be exactly one space between the PR link and the description"@
    }
}

/// The problems of the first `n` gaps: one for each gap that is not as
/// expected, in the order of the gaps.
pub open spec fn spaces_checked(spaces: Seq<Seq<char>>, n: nat) -> Seq<Seq<char>>
    decreases n,
{
    if n == 0 {
        seq![]
    } else {
        let before = spaces_checked(spaces, (n - 1) as nat);
        if spaces[n - 1] != expected_space(n - 1) {
            before.push(space_problem(n - 1))
        } else {
            before
        }
    }
}

/// The problems of the five gaps of an entry.
pub open spec fn whitespace_check(spaces: Seq<Seq<char>>) -> Seq<Seq<char>> {
    spaces_checked(spaces, 5)
}

fn expected_gap(i: usize) -> (r: &'static str)
    ensures
        r@ == expected_space(i as int),
{
    if i == 0 || i == 3 {
        ""
    } else {
        " "
    }
}

fn gap_problem(i: usize) -> (r: &'static str)
    ensures
        r@ == space_problem(i as int),
{
    if i == 0 {
        "There should be no leading whitespace before the dash"
    } else if i == 1 {
        "There should be exactly one space between the leading dash and the category"
    } else if i == 2 {
        "There should be exactly one space between the category and the PR link"
    } else if i == 3 {
        "There should be no whitespace inside of the markdown link"
    } else {
        "There should be exactly one space between the PR link and the description"
    }
}

/// Holds the five gaps of an entry against what they should be: nothing
/// before the dash and inside the link, one space elsewhere.
pub fn check_whitespace(spaces: [&str; 5]) -> (problems: Vec<String>)
    ensures
        problems.deep_view() == whitespace_check(spaces.deep_view()),
{
    let mut problems: Vec<String> = Vec::new();
    let mut i: usize = 0;
    while i < 5
        invariant
            i <= 5,
            problems.deep_view() == spaces_checked(spaces.deep_view(), i as nat),
        decreases 5 - i,
    {
        if !same_text(spaces[i], expected_gap(i)) {
            push_text(&mut problems, String::from_str(gap_problem(i)));
        }
        i += 1;
    }
    problems
}

/// The text of an entry with the given parts.
pub open spec fn entry_text(category: Seq<char>, pr: nat, link: Seq<char>, description: Seq<char>)
    -> Seq<char> {
    "- ("@ + category + ") [#"@ + decimal(pr) + "]("@ + link + ") "@ + description
}

/// The entry line with the given parts.
pub fn build_fixed(cat: &str, link: &str, desc: &str, pr: u64) -> (fixed: String)
    ensures
        fixed@ == entry_text(cat@, pr as nat, link@, desc@),
{
    let mut fixed = String::from_str("- (");
    fixed.append(cat);
    fixed.append(") [#");
    push_decimal(&mut fixed, pr);
    fixed.append("](");
    fixed.append(link);
    fixed.append(") ");
    fixed.append(desc);
    fixed
}

/// The link to pull request `pr` of the repository at `repo`.
pub open spec fn pull_link(repo: Seq<char>, pr: nat) -> Seq<char> {
    repo + "/pull/"@ + decimal(pr)
}

impl Entry {
    /// The entry with the given parts, its link made from the configuration.
    /// Nothing is checked.
    pub fn new(config: &Config, category: &str, description: &str, pr_number: u64) -> (e: Entry)
        ensures
            e@ == (EntryView {
                category: category@,
                fixed: entry_text(
                    category@,
                    pr_number as nat,
                    pull_link(config@.target_repo, pr_number as nat),
                    description@,
                ),
                pr_number: pr_number as nat,
                problems: seq![],
            }),
    {
        let mut link = config.target_repo.clone();
        link.append("/pull/");
        push_decimal(&mut link, pr_number);
        let fixed = build_fixed(category, link.as_str(), description, pr_number);
        let e = Entry {
            category: category.to_string(),
            fixed,
            pr_number,
            problems: Vec::new(),
        };
        assert(e.problems.deep_view() =~= seq![]);
        e
    }
}

/// What the check of a category gives: the category in lower case, a problem
/// if that changed it, and a problem if the configuration does not know it.
pub open spec fn category_check(config: ConfigView, category: Seq<char>) -> (
    Seq<char>,
    Seq<Seq<char>>,
) {
    let fixed = lowercase(category);
    let case = if fixed != category {
        seq!["category should be lowercase: ("@ + category + ")"@]
    } else {
        seq![]
    };
    let known = if !config.categories.contains(fixed) {
        seq!["invalid change category: ("@ + category + ")"@]
    } else {
        seq![]
    };
    (fixed, case + known)
}

/// Checks a category: it is put into lower case, and has to be one of the
/// configuration.
pub fn check_category(config: &Config, category: &str) -> (r: (String, Vec<String>))
    ensures
        (r.0@, r.1.deep_view()) == category_check(config@, category@),
{
    let mut problems: Vec<String> = Vec::new();
    let fixed = to_lowercase(category);
    if !same_text(fixed.as_str(), category) {
        let mut p = String::from_str("category should be lowercase: (");
        p.append(category);
        p.append(")");
        push_text(&mut problems, p);
    }
    if !holds_text(&config.categories, fixed.as_str()) {
        let mut p = String::from_str("invalid change category: (");
        p.append(category);
        p.append(")");
        push_text(&mut problems, p);
    }
    assert(problems.deep_view() =~= category_check(config@, category@).1);
    (fixed, problems)
}

/// Where the last part of `s` before index `i` begins: behind the last
/// slash, or at the start.
pub open spec fn segment_start(s: Seq<char>, i: int) -> int
    decreases i,
{
    if i <= 0 {
        0
    } else if s[i - 1] == '/' {
        i
    } else {
        segment_start(s, i - 1)
    }
}

/// The number that `s` stands for: decimal digits, a `+` allowed before
/// them, and of a value that fits into 64 bits.
pub open spec fn plain_number(s: Seq<char>) -> Option<nat> {
    let digits = if s.len() > 0 && s[0] == '+' {
        s.subrange(1, s.len() as int)
    } else {
        s
    };
    if digits.len() > 0 && all_digits(digits) && digits_value(digits) <= u64::MAX {
        Some(digits_value(digits))
    } else {
        None
    }
}

/// The number at the end of a link: what its last part, behind the last
/// slash, stands for.
pub open spec fn link_number(link: Seq<char>) -> Option<nat> {
    plain_number(link.subrange(segment_start(link, link.len() as int), link.len() as int))
}

/// What the check of a pull request's link gives: the link as the
/// configuration and the number make it, a problem if the link found does not
/// begin with the repository, and a problem if it does not end with the
/// number.
pub open spec fn link_check(config: ConfigView, link: Seq<char>, pr: nat) -> (
    Seq<char>,
    Seq<Seq<char>>,
) {
    let repo = if !starts_with(link, config.target_repo) {
        seq!["PR link points to wrong repository: "@ + link]
    } else {
        seq![]
    };
    let number = if link_number(link) != Some(pr) {
        seq!["PR link is not matching PR number "@ + decimal(pr) + ": '"@ + link + "'"@]
    } else {
        seq![]
    };
    (pull_link(config.target_repo, pr), repo + number)
}

/// Checks the link of an entry against the repository of the configuration
/// and the number of the pull request.
pub fn check_link(config: &Config, link: &str, pr_number: u64) -> (r: (String, Vec<String>))
    ensures
        (r.0@, r.1.deep_view()) == link_check(config@, link@, pr_number as nat),
{
    let mut problems: Vec<String> = Vec::new();
    let mut fixed = config.target_repo.clone();
    fixed.append("/pull/");
    push_decimal(&mut fixed, pr_number);

    let v = to_chars(link);
    if !match_at(&v, 0, config.target_repo.as_str()) {
        let mut p = String::from_str("PR link points to wrong repository: ");
        p.append(link);
        push_text(&mut problems, p);
    }
    let mut from: usize = v.len();
    while from > 0 && v[from - 1] != '/'
        invariant
            from <= v.len(),
            segment_start(v@, v.len() as int) == segment_start(v@, from as int),
        decreases from,
    {
        from -= 1;
    }
    let digits_from = if from < v.len() && v[from] == '+' {
        from + 1
    } else {
        from
    };
    let found = read_decimal(&v, digits_from, v.len());
    proof {
        let segment = v@.subrange(from as int, v.len() as int);
        if digits_from > from {
            assert(segment.subrange(1, segment.len() as int) == v@.subrange(
                digits_from as int,
                v.len() as int,
            ));
        } else {
            assert(segment == v@.subrange(digits_from as int, v.len() as int));
        }
    }
    let matching = match found {
        Some(n) => n == pr_number,
        None => false,
    };
    if !matching {
        let mut p = String::from_str("PR link is not matching PR number ");
        push_decimal(&mut p, pr_number);
        p.append(": '");
        p.append(link);
        p.append("'");
        push_text(&mut problems, p);
    }
    assert(problems.deep_view() =~= link_check(config@, link@, pr_number as nat).1);
    (fixed, problems)
}

/// The pattern that finds `pattern` between two backticks.
pub open spec fn code_span_pattern(pattern: Seq<char>) -> Seq<char> {
    "`[^`]*("@ + pattern + ")[^`]*`"@
}

/// The pattern that finds `pattern` as a word of its own: after the start of
/// the text or white space, and before its end, white space or a full stop.
pub open spec fn word_pattern(pattern: Seq<char>) -> Seq<char> {
    "(^|\\s)("@ + pattern + ")($|[\\s.])"@
}

/// What is held against an expected spelling: the first word of `text` that
/// `pattern` matches. There is none where a match of the pattern stands
/// between two backticks, and none where the pattern cannot be compiled.
pub open spec fn spelling_match(pattern: Seq<char>, text: Seq<char>) -> Result<
    Seq<char>,
    MatchError,
> {
    if !pattern_compiles(code_span_pattern(pattern)) {
        Err(MatchError::InvalidRegex)
    } else if pattern_matches(code_span_pattern(pattern), text) {
        Err(MatchError::MatchInCodeblock)
    } else if !pattern_compiles(word_pattern(pattern)) {
        Err(MatchError::InvalidRegex)
    } else {
        match pattern_group(word_pattern(pattern), text, 2) {
            Some(word) => Ok(word),
            None => Err(MatchError::NoMatchFound),
        }
    }
}

/// Finds the first word of `text` that `pattern` matches, case ignored.
/// Matches between backticks and inside other words do not count.
pub fn get_spelling_match(pattern: &str, text: &str) -> (r: Result<String, MatchError>)
    ensures
        match r {
            Ok(word) => spelling_match(pattern@, text@) == Ok::<Seq<char>, MatchError>(word@),
            Err(e) => spelling_match(pattern@, text@) == Err::<Seq<char>, MatchError>(e),
        },
{
    let mut code = String::from_str("`[^`]*(");
    code.append(pattern);
    code.append(")[^`]*`");
    match search(code.as_str(), text) {
        Err(_) => {
            return Err(MatchError::InvalidRegex);
        },
        Ok(found) => {
            if found {
                return Err(MatchError::MatchInCodeblock);
            }
        },
    }
    let mut word = String::from_str("(^|\\s)(");
    word.append(pattern);
    word.append(")($|[\\s.])");
    match capture(word.as_str(), text, 2) {
        Err(_) => Err(MatchError::InvalidRegex),
        Ok(None) => Err(MatchError::NoMatchFound),
        Ok(Some(w)) => Ok(w),
    }
}

/// The problem that stands for a word spelled otherwise than expected.
pub open spec fn spelling_problem(correct: Seq<char>, found: Seq<char>) -> Seq<char> {
    "'"@ + correct + "' should be used instead of '"@ + found + "'"@
}

/// What one expected spelling does to the text and the problems so far: where
/// a word of `text`, as it was handed in, matches the pattern and is spelled
/// otherwise, every match of the pattern is replaced by the expected
/// spelling, and one problem names the word found.
pub open spec fn spelling_step(
    so_far: (Seq<char>, Seq<Seq<char>>),
    text: Seq<char>,
    correct: Seq<char>,
    pattern: Seq<char>,
) -> (Seq<char>, Seq<Seq<char>>) {
    match spelling_match(pattern, text) {
        Ok(word) => if word != correct && pattern_compiles(pattern) {
            (
                pattern_replaced(pattern, so_far.0, correct),
                so_far.1.push(spelling_problem(correct, word)),
            )
        } else {
            so_far
        },
        Err(_) => so_far,
    }
}

/// What the first `n` expected spellings make of `text`.
pub open spec fn spellings_applied(
    spellings: Seq<(Seq<char>, Seq<char>)>,
    text: Seq<char>,
    n: nat,
) -> (Seq<char>, Seq<Seq<char>>)
    decreases n,
{
    if n == 0 {
        (text, seq![])
    } else {
        spelling_step(
            spellings_applied(spellings, text, (n - 1) as nat),
            text,
            spellings[n - 1].0,
            spellings[n - 1].1,
        )
    }
}

/// What the check of the spelling gives: the text with every expected
/// spelling applied, in the order of the configuration, and one problem for
/// each that changed something.
pub open spec fn spelling_check(config: ConfigView, text: Seq<char>) -> (
    Seq<char>,
    Seq<Seq<char>>,
) {
    spellings_applied(config.expected_spellings, text, config.expected_spellings.len())
}

/// Holds a text against the expected spellings of the configuration.
pub fn check_spelling(config: &Config, text: &str) -> (r: (String, Vec<String>))
    ensures
        (r.0@, r.1.deep_view()) == spelling_check(config@, text@),
{
    let mut fixed = text.to_string();
    let mut problems: Vec<String> = Vec::new();
    assert(problems.deep_view() =~= seq![]);
    let mut i: usize = 0;
    while i < config.expected_spellings.len()
        invariant
            i <= config.expected_spellings.len(),
            (fixed@, problems.deep_view()) == spellings_applied(
                config@.expected_spellings,
                text@,
                i as nat,
            ),
        decreases config.expected_spellings.len() - i,
    {
        let correct = &config.expected_spellings[i].0;
        let pattern = &config.expected_spellings[i].1;
        assert(config@.expected_spellings[i as int] == (correct@, pattern@));
        match get_spelling_match(pattern.as_str(), text) {
            Ok(word) => {
                if !same_text(word.as_str(), correct.as_str()) {
                    match replace_every(pattern.as_str(), fixed.as_str(), correct.as_str()) {
                        Ok(replaced) => {
                            fixed = replaced;
                            let mut p = String::from_str("'");
                            p.append(correct.as_str());
                            p.append("' should be used instead of '");
                            p.append(word.as_str());
                            p.append("'");
                            push_text(&mut problems, p);
                        },
                        Err(_) => {},
                    }
                }
            },
            Err(_) => {},
        }
        i += 1;
    }
    (fixed, problems)
}

/// `s` with a capital in place of an ASCII lower-case letter at its start.
pub open spec fn capitalized(s: Seq<char>) -> Seq<char> {
    if s.len() > 0 && 'a' <= s[0] <= 'z' {
        s.update(0, ascii_upper(s[0]))
    } else {
        s
    }
}

/// `s` with a full stop at its end.
pub open spec fn with_full_stop(s: Seq<char>) -> Seq<char> {
    if s.len() > 0 && s.last() == '.' {
        s
    } else {
        s.push('.')
    }
}

/// What the check of a description gives: it begins with a capital, ends
/// with a full stop and has the expected spellings. Each of the three that
/// changed the text left its problems, in this order; the first two name the
/// description as it was found.
pub open spec fn description_check(config: ConfigView, description: Seq<char>) -> (
    Seq<char>,
    Seq<Seq<char>>,
) {
    let first = capitalized(description);
    let capital = if first != description {
        seq!["PR description should start with capital letter: '"@ + description + "'"@]
    } else {
        seq![]
    };
    let second = with_full_stop(first);
    let stop = if second != first {
        seq!["PR description should end with a dot: '"@ + description + "'"@]
    } else {
        seq![]
    };
    let spelled = spelling_check(config, second);
    (spelled.0, capital + stop + spelled.1)
}

/// Checks a description: capital letter at the start, full stop at the end,
/// expected spellings.
pub fn check_description(config: &Config, desc: &str) -> (r: (String, Vec<String>))
    ensures
        (r.0@, r.1.deep_view()) == description_check(config@, desc@),
{
    let v = to_chars(desc);
    let n = v.len();
    let mut problems: Vec<String> = Vec::new();
    let mut fixed: String;
    if n > 0 && 'a' <= v[0] && v[0] <= 'z' {
        let capital = ((v[0] as u8) - 32) as char;
        let rest = slice_string(&v, 1, n);
        fixed = String::new();
        push_char(&mut fixed, capital);
        fixed.append(rest.as_str());
        assert(fixed@ =~= capitalized(desc@));
        assert(capitalized(desc@) != desc@) by {
            assert(capitalized(desc@)[0] != desc@[0]);
        }
        let mut p = String::from_str("PR description should start with capital letter: '");
        p.append(desc);
        p.append("'");
        push_text(&mut problems, p);
    } else {
        fixed = desc.to_string();
    }
    let ghost first = fixed@;
    if !(n > 0 && v[n - 1] == '.') {
        fixed.append(".");
        proof {
            reveal_strlit(".");
            assert(fixed@ =~= first.push('.'));
            assert(fixed@.len() != first.len());
        }
        let mut p = String::from_str("PR description should end with a dot: '");
        p.append(desc);
        p.append("'");
        push_text(&mut problems, p);
    }
    assert(fixed@ == with_full_stop(first));
    let (spelled, spelling_problems) = check_spelling(config, fixed.as_str());
    extend_texts(&mut problems, spelling_problems);
    assert(problems.deep_view() =~= description_check(config@, desc@).1);
    (spelled, problems)
}

/// The problem of an entry with a backslash before the `#`, if it has one.
pub open spec fn backslash_check(backslash: bool) -> Seq<Seq<char>> {
    if backslash {
        seq!["There should be no backslash in front of the # in the PR link"@]
    } else {
        seq![]
    }
}

/// The entry that a line stands for, with everything that the checks of its
/// fields found. The problems come in the order gaps, category, backslash,
/// link, description. There is no entry where the line does not follow the
/// grammar.
pub open spec fn entry_of(config: ConfigView, line: Seq<char>) -> Option<EntryView> {
    match entry_fields(line) {
        None => None,
        Some(f) => {
            let pr = digits_value(f.digits);
            let category = category_check(config, f.category);
            let link = link_check(config, f.link, pr);
            let description = description_check(config, f.description);
            Some(
                EntryView {
                    category: category.0,
                    fixed: entry_text(category.0, pr, link.0, description.0),
                    pr_number: pr,
                    problems: whitespace_check(f.spaces) + category.1 + backslash_check(
                        f.backslash,
                    ) + link.1 + description.1,
                },
            )
        },
    }
}

/// Parses one entry line. A line that does not follow the grammar is handed
/// back in the error; every other fault is a problem of the entry.
pub fn parse(config: &Config, line: &str) -> (r: Result<Entry, EntryError>)
    ensures
        match r {
            Ok(e) => entry_of(config@, line@) == Some(e@),
            Err(EntryError::InvalidEntry(held)) => entry_of(config@, line@) is None && held@
                == line@,
        },
{
    let parts = match split_entry(line) {
        Some(p) => p,
        None => {
            return Err(EntryError::InvalidEntry(line.to_string()));
        },
    };
    assert(parts.spaces.deep_view().len() == 5);
    let spaces: [&str; 5] = [
        parts.spaces[0].as_str(),
        parts.spaces[1].as_str(),
        parts.spaces[2].as_str(),
        parts.spaces[3].as_str(),
        parts.spaces[4].as_str(),
    ];
    assert(spaces.deep_view() =~= parts.spaces.deep_view());
    let mut problems = check_whitespace(spaces);

    let (fixed_category, category_problems) = check_category(config, parts.category.as_str());
    extend_texts(&mut problems, category_problems);

    if parts.backslash {
        push_text(
            &mut problems,
            String::from_str("There should be no backslash in front of the # in the PR link"),
        );
    }
    let (fixed_link, link_problems) = check_link(config, parts.link.as_str(), parts.pr_number);
    extend_texts(&mut problems, link_problems);

    let (fixed_desc, desc_problems) = check_description(config, parts.description.as_str());
    extend_texts(&mut problems, desc_problems);

    let fixed = build_fixed(
        fixed_category.as_str(),
        fixed_link.as_str(),
        fixed_desc.as_str(),
        parts.pr_number,
    );
    let e = Entry { category: fixed_category, fixed, pr_number: parts.pr_number, problems };
    assert(e.problems.deep_view() =~= entry_of(config@, line@)->0.problems);
    Ok(e)
}

} // verus!
