//! What holds of the reading of entries, whatever the line.

use crate::config::ConfigView;
use crate::entry::{backslash_check, capitalized, category_check, description_check, entry_fields, entry_of, entry_text, expected_space, link_check, link_number, pull_link, segment_start, spaces_checked, whitespace_check, with_full_stop, EntryFields, EntryView};
use crate::text::{all_digits, decimal, digits_value, is_label_char, is_space, lowercase, run_end, Class};
use crate::text::lemma_run_is;
use crate::text_laws::{lemma_stretch_is, lemma_decimal, lemma_decimal_chars, lemma_lowercase_of_label};
use vstd::prelude::*;

verus! {

/// Where the parts of an entry line in its canonical form stand in it.
pub struct EntryOffsets {
    /// Where the closing bracket of the category stands.
    pub close: int,
    /// Where the digits begin.
    pub digits: int,
    /// Where the closing bracket of the number stands.
    pub number_end: int,
    /// Where the link begins.
    pub link: int,
    /// Where the closing bracket of the link stands.
    pub link_end: int,
    /// Where the description begins.
    pub description: int,
    /// Where the line ends.
    pub end: int,
}

/// Where the parts of the canonical line of an entry stand in it.
pub open spec fn entry_offsets(
    category: Seq<char>,
    digits: Seq<char>,
    link: Seq<char>,
    description: Seq<char>,
) -> EntryOffsets {
    let close: int = 3 + category.len() as int;
    let number_end: int = close + 4 + digits.len();
    let link_end: int = number_end + 2 + link.len();
    EntryOffsets {
        close,
        digits: close + 4,
        number_end,
        link: number_end + 2,
        link_end,
        description: link_end + 2,
        end: link_end + 2 + description.len(),
    }
}

/// Whether `s` is the canonical line of an entry with the given parts,
/// character by character.
pub open spec fn is_entry_text(
    s: Seq<char>,
    category: Seq<char>,
    digits: Seq<char>,
    link: Seq<char>,
    description: Seq<char>,
) -> bool {
    let o = entry_offsets(category, digits, link, description);
    &&& s.len() == o.end
    &&& s[0] == '-' && s[1] == ' ' && s[2] == '('
    &&& forall|i: int| 0 <= i < category.len() ==> s[3 + i] == #[trigger] category[i]
    &&& s[o.close] == ')' && s[o.close + 1] == ' ' && s[o.close + 2] == '[' && s[o.close + 3]
        == '#'
    &&& forall|i: int| 0 <= i < digits.len() ==> s[o.digits + i] == #[trigger] digits[i]
    &&& s[o.number_end] == ']' && s[o.number_end + 1] == '('
    &&& forall|i: int| 0 <= i < link.len() ==> s[o.link + i] == #[trigger] link[i]
    &&& s[o.link_end] == ')' && s[o.link_end + 1] == ' '
    &&& forall|i: int|
        0 <= i < description.len() ==> s[o.description + i] == #[trigger] description[i]
}

/// The canonical line of an entry, character by character.
pub proof fn lemma_entry_text_chars(
    category: Seq<char>,
    pr: nat,
    link: Seq<char>,
    description: Seq<char>,
)
    ensures
        is_entry_text(
            entry_text(category, pr, link, description),
            category,
            decimal(pr),
            link,
            description,
        ),
{
    reveal_strlit("- (");
    reveal_strlit(") [#");
    reveal_strlit("](");
    reveal_strlit(") ");
}

/// Whether the parts are such that the grammar of an entry finds them
/// again: a category of letters, digits and hyphens, digits, a link without
/// a closing bracket, and a description without a line feed that does not
/// begin with white space.
pub open spec fn parts_of_entry(
    category: Seq<char>,
    digits: Seq<char>,
    link: Seq<char>,
    description: Seq<char>,
) -> bool {
    &&& category.len() > 0
    &&& forall|i: int| 0 <= i < category.len() ==> is_label_char(#[trigger] category[i])
    &&& digits.len() > 0
    &&& all_digits(digits)
    &&& forall|i: int| 0 <= i < link.len() ==> #[trigger] link[i] != ')'
    &&& description.len() > 0
    &&& !is_space(description[0])
    &&& forall|i: int| 0 <= i < description.len() ==> #[trigger] description[i] != '\n'
}

/// The runs of the canonical line of an entry: where the grammar finds the
/// ends of its parts.
pub proof fn lemma_entry_text_runs(
    s: Seq<char>,
    category: Seq<char>,
    digits: Seq<char>,
    link: Seq<char>,
    description: Seq<char>,
)
    requires
        is_entry_text(s, category, digits, link, description),
        parts_of_entry(category, digits, link, description),
    ensures
        ({
            let o = entry_offsets(category, digits, link, description);
            &&& run_end(s, 0, Class::Space) == 0
            &&& run_end(s, 1, Class::Space) == 2
            &&& run_end(s, 3, Class::Label) == o.close
            &&& run_end(s, o.close + 1, Class::Space) == o.close + 2
            &&& run_end(s, o.digits, Class::Digit) == o.number_end
            &&& run_end(s, o.number_end + 1, Class::Space) == o.number_end + 1
            &&& run_end(s, o.link, Class::Link) == o.link_end
            &&& run_end(s, o.link_end + 1, Class::Space) == o.description
            &&& run_end(s, o.description, Class::Line) == o.end
        }),
{
    let o = entry_offsets(category, digits, link, description);
    assert(run_end(s, 0, Class::Space) == 0) by {
        lemma_run_is(s, 0, 0, Class::Space);
    }
    assert(run_end(s, 1, Class::Space) == 2) by {
        lemma_run_is(s, 1, 2, Class::Space);
    }
    assert(run_end(s, 3, Class::Label) == o.close) by {
        assert forall|x: int| 3 <= x < o.close implies Class::Label.holds(#[trigger] s[x]) by {
            assert(s[3 + (x - 3)] == category[x - 3]);
        }
        lemma_run_is(s, 3, o.close, Class::Label);
    }
    assert(run_end(s, o.close + 1, Class::Space) == o.close + 2) by {
        lemma_run_is(s, o.close + 1, o.close + 2, Class::Space);
    }
    assert(run_end(s, o.digits, Class::Digit) == o.number_end) by {
        assert forall|x: int| o.digits <= x < o.number_end implies Class::Digit.holds(
            #[trigger] s[x],
        ) by {
            assert(s[o.digits + (x - o.digits)] == digits[x - o.digits]);
        }
        lemma_run_is(s, o.digits, o.number_end, Class::Digit);
    }
    assert(run_end(s, o.number_end + 1, Class::Space) == o.number_end + 1) by {
        lemma_run_is(s, o.number_end + 1, o.number_end + 1, Class::Space);
    }
    assert(run_end(s, o.link, Class::Link) == o.link_end) by {
        assert forall|x: int| o.link <= x < o.link_end implies Class::Link.holds(
            #[trigger] s[x],
        ) by {
            assert(s[o.link + (x - o.link)] == link[x - o.link]);
        }
        lemma_run_is(s, o.link, o.link_end, Class::Link);
    }
    assert(run_end(s, o.link_end + 1, Class::Space) == o.description) by {
        assert(s[o.description + 0] == description[0]);
        lemma_run_is(s, o.link_end + 1, o.description, Class::Space);
    }
    assert(run_end(s, o.description, Class::Line) == o.end) by {
        assert forall|x: int| o.description <= x < o.end implies Class::Line.holds(
            #[trigger] s[x],
        ) by {
            assert(s[o.description + (x - o.description)] == description[x - o.description]);
        }
        lemma_run_is(s, o.description, o.end, Class::Line);
    }
}

/// The parts of the canonical line of an entry, as stretches of it.
pub proof fn lemma_entry_text_parts(
    s: Seq<char>,
    category: Seq<char>,
    digits: Seq<char>,
    link: Seq<char>,
    description: Seq<char>,
)
    requires
        is_entry_text(s, category, digits, link, description),
    ensures
        ({
            let o = entry_offsets(category, digits, link, description);
            &&& s.subrange(0, 0) == expected_space(0)
            &&& s.subrange(1, 2) == expected_space(1)
            &&& s.subrange(3, o.close) == category
            &&& s.subrange(o.close + 1, o.close + 2) == expected_space(2)
            &&& s.subrange(o.digits, o.number_end) == digits
            &&& s.subrange(o.number_end + 1, o.number_end + 1) == expected_space(3)
            &&& s.subrange(o.link, o.link_end) == link
            &&& s.subrange(o.link_end + 1, o.description) == expected_space(4)
            &&& s.subrange(o.description, o.end) == description
        }),
{
    let o = entry_offsets(category, digits, link, description);
    reveal_strlit("");
    reveal_strlit(" ");
    lemma_stretch_is(s, 0, expected_space(0));
    lemma_stretch_is(s, 1, expected_space(1));
    lemma_stretch_is(s, 3, category);
    lemma_stretch_is(s, o.close + 1, expected_space(2));
    lemma_stretch_is(s, o.digits, digits);
    lemma_stretch_is(s, o.number_end + 1, expected_space(3));
    lemma_stretch_is(s, o.link, link);
    lemma_stretch_is(s, o.link_end + 1, expected_space(4));
    lemma_stretch_is(s, o.description, description);
}

/// The fields of an entry line in its canonical form.
pub open spec fn canonical_fields(
    category: Seq<char>,
    digits: Seq<char>,
    link: Seq<char>,
    description: Seq<char>,
) -> EntryFields {
    EntryFields {
        spaces: seq![
            expected_space(0),
            expected_space(1),
            expected_space(2),
            expected_space(3),
            expected_space(4),
        ],
        category,
        backslash: false,
        digits,
        link,
        description,
    }
}

/// The grammar reads the canonical line of an entry as the parts that it
/// was made from.
pub proof fn lemma_entry_text_read(
    s: Seq<char>,
    category: Seq<char>,
    digits: Seq<char>,
    link: Seq<char>,
    description: Seq<char>,
)
    requires
        is_entry_text(s, category, digits, link, description),
        parts_of_entry(category, digits, link, description),
        digits_value(digits) <= u64::MAX,
    ensures
        entry_fields(s) == Some(canonical_fields(category, digits, link, description)),
{
    lemma_entry_text_runs(s, category, digits, link, description);
    lemma_entry_text_parts(s, category, digits, link, description);
    let o = entry_offsets(category, digits, link, description);
    let f = entry_fields(s)->0;
    assert(f.spaces =~= canonical_fields(category, digits, link, description).spaces);
}

/// The grammar reads a line in the canonical form of an entry as the parts
/// that it was made from: a category of letters, digits and hyphens, a
/// number that fits into 64 bits, a link without a closing bracket, and a
/// description without a line feed that does not begin with white space.
pub proof fn lemma_entry_text_fields(
    category: Seq<char>,
    pr: nat,
    link: Seq<char>,
    description: Seq<char>,
)
    requires
        pr <= u64::MAX,
        parts_of_entry(category, decimal(pr), link, description),
    ensures
        entry_fields(entry_text(category, pr, link, description)) == Some(
            canonical_fields(category, decimal(pr), link, description),
        ),
{
    lemma_entry_text_chars(category, pr, link, description);
    lemma_decimal(pr);
    lemma_entry_text_read(
        entry_text(category, pr, link, description),
        category,
        decimal(pr),
        link,
        description,
    );
}

/// The last part of a text begins at `at`, where a slash stands before `at`
/// and none between `at` and `i`.
pub proof fn lemma_segment_start_is(s: Seq<char>, at: int, i: int)
    requires
        0 < at <= i <= s.len(),
        s[at - 1] == '/',
        forall|j: int| at <= j < i ==> s[j] != '/',
    ensures
        segment_start(s, i) == at,
    decreases i - at,
{
    if i > at {
        lemma_segment_start_is(s, at, i - 1);
    }
}

/// The canonical link of a pull request passes the check of links: it
/// begins with the repository and ends with the number.
pub proof fn lemma_pull_link_is_correct(config: ConfigView, pr: nat)
    requires
        pr <= u64::MAX,
    ensures
        link_check(config, pull_link(config.target_repo, pr), pr) == (
            pull_link(config.target_repo, pr),
            Seq::<Seq<char>>::empty(),
        ),
{
    reveal_strlit("/pull/");
    lemma_decimal(pr);
    lemma_decimal_chars(pr);
    let repo = config.target_repo;
    let d = decimal(pr);
    let link = pull_link(repo, pr);
    let at = repo.len() + 6;
    assert(link.len() == at + d.len());
    assert(link.subrange(0, repo.len() as int) =~= repo);
    assert forall|j: int| at <= j < link.len() implies link[j] != '/' by {
        assert(link[j] == d[j - at]);
    }
    lemma_segment_start_is(link, at as int, link.len() as int);
    assert(link.subrange(at as int, link.len() as int) =~= d);
    assert(d[0] != '+');
    assert(link_number(link) == Some(pr));
    assert(link_check(config, link, pr).1 =~= Seq::<Seq<char>>::empty());
}

/// The gaps of the canonical form pass the check of white space.
pub proof fn lemma_canonical_spaces_are_correct()
    ensures
        whitespace_check(
            seq![
                expected_space(0),
                expected_space(1),
                expected_space(2),
                expected_space(3),
                expected_space(4),
            ],
        ) == Seq::<Seq<char>>::empty(),
{
    let spaces = seq![
        expected_space(0),
        expected_space(1),
        expected_space(2),
        expected_space(3),
        expected_space(4),
    ];
    assert(spaces_checked(spaces, 0) =~= Seq::<Seq<char>>::empty());
    assert(spaces_checked(spaces, 1) =~= Seq::<Seq<char>>::empty());
    assert(spaces_checked(spaces, 2) =~= Seq::<Seq<char>>::empty());
    assert(spaces_checked(spaces, 3) =~= Seq::<Seq<char>>::empty());
    assert(spaces_checked(spaces, 4) =~= Seq::<Seq<char>>::empty());
    assert(spaces_checked(spaces, 5) =~= Seq::<Seq<char>>::empty());
}

/// Whether a category, a number and a description are such that their
/// entry line is read back as what it was made from: the category is made
/// of lower-case letters, digits and hyphens, the number fits into 64 bits,
/// the address of the repository holds no closing bracket, and the
/// description holds no line feed, does not begin with white space and is
/// what the check of descriptions makes of it.
pub open spec fn settled_parts(
    config: ConfigView,
    category: Seq<char>,
    pr: nat,
    description: Seq<char>,
) -> bool {
    &&& category.len() > 0
    &&& forall|i: int| 0 <= i < category.len() ==> is_label_char(#[trigger] category[i])
    &&& lowercase(category) == category
    &&& pr <= u64::MAX
    &&& forall|i: int|
        0 <= i < config.target_repo.len() ==> #[trigger] config.target_repo[i] != ')'
    &&& description.len() > 0
    &&& !is_space(description[0])
    &&& forall|i: int| 0 <= i < description.len() ==> #[trigger] description[i] != '\n'
    &&& description_check(config, description).0 == description
}

/// The line of an entry that is made from settled parts is read back as
/// these parts, and is its own canonical form. The problems that are left
/// are those of a category that the configuration does not know, and those
/// that the check of the description finds although it changes nothing.
pub proof fn lemma_entry_of_settled_parts(
    config: ConfigView,
    category: Seq<char>,
    pr: nat,
    description: Seq<char>,
)
    requires
        settled_parts(config, category, pr, description),
    ensures
        ({
            let line = entry_text(
                category,
                pr,
                pull_link(config.target_repo, pr),
                description,
            );
            entry_of(config, line) == Some(
                EntryView {
                    category,
                    fixed: line,
                    pr_number: pr,
                    problems: category_check(config, category).1 + description_check(
                        config,
                        description,
                    ).1,
                },
            )
        }),
{
    reveal_strlit("/pull/");
    lemma_decimal(pr);
    lemma_decimal_chars(pr);
    let link = pull_link(config.target_repo, pr);
    let line = entry_text(category, pr, link, description);
    assert forall|i: int| 0 <= i < link.len() implies #[trigger] link[i] != ')' by {
        if i < config.target_repo.len() {
            assert(link[i] == config.target_repo[i]);
        } else if i >= config.target_repo.len() + 6 {
            assert(link[i] == decimal(pr)[i - config.target_repo.len() - 6]);
        }
    }
    lemma_entry_text_fields(category, pr, link, description);
    lemma_pull_link_is_correct(config, pr);
    lemma_canonical_spaces_are_correct();
    let found = category_check(config, category).1 + description_check(config, description).1;
    assert(entry_of(config, line)->0.problems =~= found);
}

/// Whether the line of an entry is one whose fix is final: the address of
/// the repository holds no closing bracket, and the description, as the
/// check of descriptions leaves it, holds no line feed, does not begin with
/// white space and is left alone when checked again.
pub open spec fn settled_entry(config: ConfigView, line: Seq<char>) -> bool {
    let description = description_check(config, entry_fields(line)->0.description).0;
    &&& entry_fields(line) is Some
    &&& forall|i: int|
        0 <= i < config.target_repo.len() ==> #[trigger] config.target_repo[i] != ')'
    &&& description.len() > 0
    &&& !is_space(description[0])
    &&& forall|i: int| 0 <= i < description.len() ==> #[trigger] description[i] != '\n'
    &&& description_check(config, description).0 == description
}

/// Fixing an entry twice is fixing it once: the fixed line of a settled
/// entry is read as an entry again, of the same category and number, and is
/// its own fixed line.
pub proof fn lemma_entry_fix_is_final(config: ConfigView, line: Seq<char>)
    requires
        settled_entry(config, line),
    ensures
        ({
            let e = entry_of(config, line)->0;
            let again = entry_of(config, e.fixed);
            &&& again is Some
            &&& again->0.fixed == e.fixed
            &&& again->0.category == e.category
            &&& again->0.pr_number == e.pr_number
        }),
{
    let f = entry_fields(line)->0;
    let e = entry_of(config, line)->0;
    let n = line.len() as int;
    let dash = run_end(line, 0, Class::Space);
    let open = run_end(line, dash + 1, Class::Space);
    crate::text::lemma_run_end(line, open + 1, Class::Label);
    assert forall|i: int| 0 <= i < f.category.len() implies is_label_char(
        #[trigger] f.category[i],
    ) by {
        assert(f.category[i] == line[open + 1 + i]);
    }
    lemma_lowercase_of_label(f.category);
    lemma_entry_of_settled_parts(
        config,
        e.category,
        e.pr_number,
        description_check(config, f.description).0,
    );
}

/// Without expected spellings, the check of descriptions settles every
/// description in one pass: what it hands out it leaves alone.
pub proof fn lemma_description_check_is_final(config: ConfigView, description: Seq<char>)
    requires
        config.expected_spellings.len() == 0,
    ensures
        ({
            let fixed = description_check(config, description).0;
            &&& fixed == with_full_stop(capitalized(description))
            &&& description_check(config, fixed) == (fixed, Seq::<Seq<char>>::empty())
        }),
{
    let first = capitalized(description);
    let fixed = with_full_stop(first);
    assert(capitalized(fixed) =~= fixed);
    assert(with_full_stop(fixed) =~= fixed);
    assert(description_check(config, fixed).1 =~= Seq::<Seq<char>>::empty());
}

/// Without expected spellings, every entry whose description does not begin
/// with white space is settled, where the address of the repository holds
/// no closing bracket: its fix is final.
pub proof fn lemma_entry_settles_without_spellings(config: ConfigView, line: Seq<char>)
    requires
        entry_fields(line) is Some,
        !is_space(entry_fields(line)->0.description[0]),
        config.expected_spellings.len() == 0,
        forall|i: int|
            0 <= i < config.target_repo.len() ==> #[trigger] config.target_repo[i] != ')',
    ensures
        settled_entry(config, line),
{
    let f = entry_fields(line)->0;
    let n = line.len() as int;
    let link_end = n - f.description.len() - f.spaces[4].len() - 1;
    let start = n - f.description.len();
    crate::text::lemma_run_end(line, start, Class::Line);
    lemma_description_check_is_final(config, f.description);
    let first = capitalized(f.description);
    let fixed = with_full_stop(first);
    assert forall|i: int| 0 <= i < fixed.len() implies #[trigger] fixed[i] != '\n' by {
        if i < f.description.len() {
            assert(f.description[i] == line[start + i]);
            assert(Class::Line.holds(line[start + i]));
        }
    }
}

/// Two texts that are the canonical line of an entry with the same parts
/// are one text.
pub proof fn lemma_entry_text_is_one(
    s: Seq<char>,
    t: Seq<char>,
    category: Seq<char>,
    digits: Seq<char>,
    link: Seq<char>,
    description: Seq<char>,
)
    requires
        is_entry_text(s, category, digits, link, description),
        is_entry_text(t, category, digits, link, description),
    ensures
        s == t,
{
    let o = entry_offsets(category, digits, link, description);
    assert forall|i: int| 0 <= i < s.len() implies s[i] == t[i] by {
        if 3 <= i < o.close {
            assert(s[3 + (i - 3)] == category[i - 3]);
            assert(t[3 + (i - 3)] == category[i - 3]);
        } else if o.digits <= i < o.number_end {
            assert(s[o.digits + (i - o.digits)] == digits[i - o.digits]);
            assert(t[o.digits + (i - o.digits)] == digits[i - o.digits]);
        } else if o.link <= i < o.link_end {
            assert(s[o.link + (i - o.link)] == link[i - o.link]);
            assert(t[o.link + (i - o.link)] == link[i - o.link]);
        } else if o.description <= i {
            assert(s[o.description + (i - o.description)] == description[i - o.description]);
            assert(t[o.description + (i - o.description)] == description[i - o.description]);
        }
    }
    assert(s =~= t);
}

/// A line that the grammar reads as an entry with the gaps of the canonical
/// form and without a backslash is the canonical line of its parts.
pub proof fn lemma_canonical_line_is_entry_text(line: Seq<char>)
    requires
        entry_fields(line) is Some,
        !entry_fields(line)->0.backslash,
        forall|i: int| 0 <= i < 5 ==> entry_fields(line)->0.spaces[i] == expected_space(i),
    ensures
        ({
            let f = entry_fields(line)->0;
            is_entry_text(line, f.category, f.digits, f.link, f.description)
        }),
{
    reveal_strlit("");
    reveal_strlit(" ");
    let f = entry_fields(line)->0;
    let n = line.len() as int;
    let dash = run_end(line, 0, Class::Space);
    let open = run_end(line, dash + 1, Class::Space);
    let close = run_end(line, open + 1, Class::Label);
    let square = run_end(line, close + 1, Class::Space);
    let hash = square + 1;
    let number_end = run_end(line, hash + 1, Class::Digit);
    let round = run_end(line, number_end + 1, Class::Space);
    let link_end = run_end(line, round + 1, Class::Link);
    let text = run_end(line, link_end + 1, Class::Space);
    let start = if text < n {
        text
    } else {
        n - 1
    };
    crate::text::lemma_run_end(line, 0, Class::Space);
    crate::text::lemma_run_end(line, dash + 1, Class::Space);
    crate::text::lemma_run_end(line, open + 1, Class::Label);
    crate::text::lemma_run_end(line, close + 1, Class::Space);
    crate::text::lemma_run_end(line, hash + 1, Class::Digit);
    crate::text::lemma_run_end(line, number_end + 1, Class::Space);
    crate::text::lemma_run_end(line, round + 1, Class::Link);
    crate::text::lemma_run_end(line, link_end + 1, Class::Space);
    assert(f.spaces[0] == line.subrange(0, dash));
    assert(f.spaces[1] == line.subrange(dash + 1, open));
    assert(f.spaces[2] == line.subrange(close + 1, square));
    assert(f.spaces[3] == line.subrange(number_end + 1, round));
    assert(f.spaces[4] == line.subrange(link_end + 1, start));
    assert(expected_space(0).len() == 0 && expected_space(3).len() == 0);
    assert(expected_space(1).len() == 1 && expected_space(2).len() == 1 && expected_space(
        4,
    ).len() == 1);
    assert(expected_space(1)[0] == ' ' && expected_space(2)[0] == ' ' && expected_space(4)[0]
        == ' ');
    assert(line.subrange(0, dash).len() == dash);
    assert(dash == 0);
    assert(line.subrange(dash + 1, open).len() == open - dash - 1);
    assert(open == 2);
    assert(line.subrange(close + 1, square).len() == square - close - 1);
    assert(line.subrange(number_end + 1, round).len() == round - number_end - 1);
    assert(line.subrange(link_end + 1, start).len() == start - link_end - 1);
    assert(line[1] == line.subrange(dash + 1, open)[0]);
    assert(square == close + 2);
    assert(line[close + 1] == line.subrange(close + 1, square)[0]);
    assert(round == number_end + 1);
    assert(start == link_end + 2);
    assert(line[link_end + 1] == line.subrange(link_end + 1, start)[0]);
    let o = entry_offsets(f.category, f.digits, f.link, f.description);
    assert(o.close == close);
    assert(o.number_end == number_end);
    assert(o.link_end == link_end);
    assert(o.end == n);
}

/// The problems of the first `n` gaps grow with `n`, and there are none
/// only where each of these gaps is as expected.
pub proof fn lemma_spaces_without_problems(spaces: Seq<Seq<char>>, n: nat)
    ensures
        spaces_checked(spaces, n).len() == 0 ==> forall|i: int|
            0 <= i < n ==> spaces[i] == expected_space(i),
    decreases n,
{
    if n > 0 {
        lemma_spaces_without_problems(spaces, (n - 1) as nat);
    }
}

/// Expected spellings that leave no problem leave the text as it is.
pub proof fn lemma_spellings_without_problems(
    spellings: Seq<(Seq<char>, Seq<char>)>,
    text: Seq<char>,
    n: nat,
)
    ensures
        crate::entry::spellings_applied(spellings, text, n).1.len() == 0
            ==> crate::entry::spellings_applied(spellings, text, n).0 == text,
    decreases n,
{
    if n > 0 {
        lemma_spellings_without_problems(spellings, text, (n - 1) as nat);
    }
}

/// A correct entry is left as it is: a line that is read as an entry
/// without a problem, whose number is written without needless zeros and
/// whose link is the one that the configuration and the number make, is its
/// own fixed line.
pub proof fn lemma_correct_entry_is_unchanged(config: ConfigView, line: Seq<char>)
    requires
        entry_of(config, line) is Some,
        entry_of(config, line)->0.problems.len() == 0,
        entry_fields(line)->0.digits == decimal(entry_of(config, line)->0.pr_number),
        entry_fields(line)->0.link == pull_link(
            config.target_repo,
            entry_of(config, line)->0.pr_number,
        ),
    ensures
        entry_of(config, line)->0.fixed == line,
{
    let f = entry_fields(line)->0;
    let e = entry_of(config, line)->0;
    let pr = e.pr_number;
    let category = category_check(config, f.category);
    let link = link_check(config, f.link, pr);
    let description = description_check(config, f.description);
    assert(whitespace_check(f.spaces).len() == 0);
    assert(category.1.len() == 0);
    assert(backslash_check(f.backslash).len() == 0);
    assert(description.1.len() == 0);
    lemma_spaces_without_problems(f.spaces, 5);
    let second = with_full_stop(capitalized(f.description));
    lemma_spellings_without_problems(
        config.expected_spellings,
        second,
        config.expected_spellings.len(),
    );
    assert(description.0 == f.description);
    assert(category.0 == f.category);
    lemma_canonical_line_is_entry_text(line);
    lemma_entry_text_chars(f.category, pr, f.link, f.description);
    lemma_entry_text_is_one(
        line,
        entry_text(f.category, pr, f.link, f.description),
        f.category,
        f.digits,
        f.link,
        f.description,
    );
}

/// The line that is made of the parts of an entry, one behind the other.
pub open spec fn line_of_fields(f: EntryFields) -> Seq<char> {
    f.spaces[0] + seq!['-'] + f.spaces[1] + seq!['('] + f.category + seq![')'] + f.spaces[2] + (
    if f.backslash {
        seq!['[', '\\', '#']
    } else {
        seq!['[', '#']
    }) + f.digits + seq![']'] + f.spaces[3] + seq!['('] + f.link + seq![')'] + f.spaces[4]
        + f.description
}

/// Whether every character of a text belongs to a class.
pub open spec fn all_of(s: Seq<char>, k: Class) -> bool {
    forall|i: int| 0 <= i < s.len() ==> k.holds(#[trigger] s[i])
}

/// What the grammar of an entry accepts: a line that it reads as an entry
/// is made of the parts that it finds, one behind the other, with the signs
/// of an entry between them. The gaps are white space, the category is made
/// of letters, digits and hyphens, the number of digits, the link holds no
/// closing bracket, and the description is not empty and holds no line
/// feed.
pub proof fn lemma_entry_is_made_of_its_fields(line: Seq<char>)
    requires
        entry_fields(line) is Some,
    ensures
        ({
            let f = entry_fields(line)->0;
            &&& line == line_of_fields(f)
            &&& f.spaces.len() == 5
            &&& forall|i: int| 0 <= i < 5 ==> all_of(#[trigger] f.spaces[i], Class::Space)
            &&& f.category.len() > 0 && all_of(f.category, Class::Label)
            &&& f.digits.len() > 0 && all_of(f.digits, Class::Digit)
            &&& all_of(f.link, Class::Link)
            &&& f.description.len() > 0 && all_of(f.description, Class::Line)
        }),
{
    let f = entry_fields(line)->0;
    let n = line.len() as int;
    let dash = run_end(line, 0, Class::Space);
    let open = run_end(line, dash + 1, Class::Space);
    let close = run_end(line, open + 1, Class::Label);
    let square = run_end(line, close + 1, Class::Space);
    let hash = if f.backslash {
        square + 2
    } else {
        square + 1
    };
    let number_end = run_end(line, hash + 1, Class::Digit);
    let round = run_end(line, number_end + 1, Class::Space);
    let link_end = run_end(line, round + 1, Class::Link);
    let text = run_end(line, link_end + 1, Class::Space);
    let start = if text < n {
        text
    } else {
        n - 1
    };
    crate::text::lemma_run_end(line, 0, Class::Space);
    crate::text::lemma_run_end(line, dash + 1, Class::Space);
    crate::text::lemma_run_end(line, open + 1, Class::Label);
    crate::text::lemma_run_end(line, close + 1, Class::Space);
    crate::text::lemma_run_end(line, hash + 1, Class::Digit);
    crate::text::lemma_run_end(line, number_end + 1, Class::Space);
    crate::text::lemma_run_end(line, round + 1, Class::Link);
    crate::text::lemma_run_end(line, link_end + 1, Class::Space);
    crate::text::lemma_run_end(line, start, Class::Line);
    assert(all_of(f.spaces[0], Class::Space)) by {
        assert forall|i: int| 0 <= i < f.spaces[0].len() implies Class::Space.holds(
            #[trigger] f.spaces[0][i],
        ) by {
            assert(f.spaces[0][i] == line[0 + i]);
        }
    }
    assert(all_of(f.spaces[1], Class::Space)) by {
        assert forall|i: int| 0 <= i < f.spaces[1].len() implies Class::Space.holds(
            #[trigger] f.spaces[1][i],
        ) by {
            assert(f.spaces[1][i] == line[dash + 1 + i]);
        }
    }
    assert(all_of(f.spaces[2], Class::Space)) by {
        assert forall|i: int| 0 <= i < f.spaces[2].len() implies Class::Space.holds(
            #[trigger] f.spaces[2][i],
        ) by {
            assert(f.spaces[2][i] == line[close + 1 + i]);
        }
    }
    assert(all_of(f.spaces[3], Class::Space)) by {
        assert forall|i: int| 0 <= i < f.spaces[3].len() implies Class::Space.holds(
            #[trigger] f.spaces[3][i],
        ) by {
            assert(f.spaces[3][i] == line[number_end + 1 + i]);
        }
    }
    assert(all_of(f.spaces[4], Class::Space)) by {
        assert forall|i: int| 0 <= i < f.spaces[4].len() implies Class::Space.holds(
            #[trigger] f.spaces[4][i],
        ) by {
            assert(f.spaces[4][i] == line[link_end + 1 + i]);
        }
    }
    assert(all_of(f.category, Class::Label)) by {
        assert forall|i: int| 0 <= i < f.category.len() implies Class::Label.holds(
            #[trigger] f.category[i],
        ) by {
            assert(f.category[i] == line[open + 1 + i]);
        }
    }
    assert(all_of(f.digits, Class::Digit)) by {
        assert forall|i: int| 0 <= i < f.digits.len() implies Class::Digit.holds(
            #[trigger] f.digits[i],
        ) by {
            assert(f.digits[i] == line[hash + 1 + i]);
        }
    }
    assert(all_of(f.link, Class::Link)) by {
        assert forall|i: int| 0 <= i < f.link.len() implies Class::Link.holds(
            #[trigger] f.link[i],
        ) by {
            assert(f.link[i] == line[round + 1 + i]);
        }
    }
    assert(all_of(f.description, Class::Line)) by {
        assert forall|i: int| 0 <= i < f.description.len() implies Class::Line.holds(
            #[trigger] f.description[i],
        ) by {
            assert(f.description[i] == line[start + i]);
        }
    }
    lemma_line_of_stretches(
        line,
        seq![dash, open, close, square, hash, number_end, round, link_end, start],
        f,
    );
}

/// A line that is cut where the parts of an entry begin and end is made of
/// these parts, one behind the other.
pub proof fn lemma_line_of_stretches(line: Seq<char>, at: Seq<int>, f: EntryFields)
    requires
        at.len() == 9,
        0 <= at[0] < at[1] < at[2] < at[3] < at[4] < at[5] < at[6] < at[7] < at[8] <= line.len(),
        at[2] > at[1] + 1,
        at[4] == if f.backslash {
            at[3] + 2
        } else {
            at[3] + 1
        },
        line[at[0]] == '-' && line[at[1]] == '(' && line[at[2]] == ')' && line[at[3]] == '['
            && line[at[4]] == '#' && line[at[5]] == ']' && line[at[6]] == '(' && line[at[7]]
            == ')',
        f.backslash ==> line[at[3] + 1] == '\\',
        f.spaces == seq![
            line.subrange(0, at[0]),
            line.subrange(at[0] + 1, at[1]),
            line.subrange(at[2] + 1, at[3]),
            line.subrange(at[5] + 1, at[6]),
            line.subrange(at[7] + 1, at[8]),
        ],
        f.category == line.subrange(at[1] + 1, at[2]),
        f.digits == line.subrange(at[4] + 1, at[5]),
        f.link == line.subrange(at[6] + 1, at[7]),
        f.description == line.subrange(at[8], line.len() as int),
    ensures
        line == line_of_fields(f),
{
    let made = line_of_fields(f);
    assert(made.len() == line.len());
    assert forall|i: int| 0 <= i < line.len() implies line[i] == made[i] by {
        if i < at[0] {
            assert(made[i] == f.spaces[0][i]);
        } else if i == at[0] {
        } else if i < at[1] {
            assert(made[i] == f.spaces[1][i - at[0] - 1]);
        } else if i == at[1] {
        } else if i < at[2] {
            assert(made[i] == f.category[i - at[1] - 1]);
        } else if i == at[2] {
        } else if i < at[3] {
            assert(made[i] == f.spaces[2][i - at[2] - 1]);
        } else if i <= at[4] {
        } else if i < at[5] {
            assert(made[i] == f.digits[i - at[4] - 1]);
        } else if i == at[5] {
        } else if i < at[6] {
            assert(made[i] == f.spaces[3][i - at[5] - 1]);
        } else if i == at[6] {
        } else if i < at[7] {
            assert(made[i] == f.link[i - at[6] - 1]);
        } else if i == at[7] {
        } else if i < at[8] {
            assert(made[i] == f.spaces[4][i - at[7] - 1]);
        } else {
            assert(made[i] == f.description[i - at[8]]);
        }
    }
    assert(line =~= made);
}

} // verus!
