//! Characters, runs of characters, decimal numbers and lines.
//!
//! Everything the parsers of this crate know about text is stated here over
//! `Seq<char>`, the view of `str` and `String`.

use vstd::prelude::*;
use vstd::string::*;
use vstd::utf8::is_ascii_chars;

verus! {

/// Whether `c` is one of the code points that Unicode gives the property
/// `White_Space`.
pub open spec fn is_space(c: char) -> bool {
    ||| '\u{9}' <= c <= '\u{d}'
    ||| c == ' '
    ||| c == '\u{85}'
    ||| c == '\u{a0}'
    ||| c == '\u{1680}'
    ||| '\u{2000}' <= c <= '\u{200a}'
    ||| c == '\u{2028}'
    ||| c == '\u{2029}'
    ||| c == '\u{202f}'
    ||| c == '\u{205f}'
    ||| c == '\u{3000}'
}

/// Whether `c` is one of `0` to `9`.
pub open spec fn is_digit(c: char) -> bool {
    '0' <= c <= '9'
}

/// Whether `c` may stand in a category: an ASCII letter, a digit or a hyphen.
pub open spec fn is_label_char(c: char) -> bool {
    ||| 'a' <= c <= 'z'
    ||| 'A' <= c <= 'Z'
    ||| '0' <= c <= '9'
    ||| c == '-'
}

/// The lower-case form of an ASCII capital letter; any other character
/// unchanged.
pub open spec fn ascii_lower(c: char) -> char {
    if 'A' <= c <= 'Z' {
        ((c as u8 + 32) as u8) as char
    } else {
        c
    }
}

/// The capital of an ASCII lower-case letter; any other character unchanged.
pub open spec fn ascii_upper(c: char) -> char {
    if 'a' <= c <= 'z' {
        ((c as u8 - 32) as u8) as char
    } else {
        c
    }
}

/// What `str::to_lowercase` makes of `s`.
pub uninterp spec fn unicode_lowercase(s: Seq<char>) -> Seq<char>;

/// `s` in lower case: letter by letter where `s` is ASCII, and by the rules of
/// Unicode where it is not.
pub open spec fn lowercase(s: Seq<char>) -> Seq<char> {
    if is_ascii_chars(s) {
        s.map_values(|c: char| ascii_lower(c))
    } else {
        unicode_lowercase(s)
    }
}

/// Whether `a` comes before `b` in the order of strings, from index `i` on:
/// the first character in which they differ decides, and a text comes
/// before every longer one that begins with it.
pub open spec fn before_from(a: Seq<char>, b: Seq<char>, i: int) -> bool
    decreases a.len() - i,
{
    if i < 0 || i >= b.len() {
        false
    } else if i >= a.len() {
        true
    } else if a[i] != b[i] {
        a[i] < b[i]
    } else {
        before_from(a, b, i + 1)
    }
}

/// Whether `a` comes before `b` in the order of strings.
pub open spec fn text_before(a: Seq<char>, b: Seq<char>) -> bool {
    before_from(a, b, 0)
}

/// Whether the texts stand in the order of strings, equal ones side by side.
pub open spec fn sorted_texts(list: Seq<Seq<char>>) -> bool {
    forall|i: int, j: int| 0 <= i < j < list.len() ==> !text_before(list[j], list[i])
}

/// The classes of characters that the line grammars are made of.
#[derive(Clone, Copy, Debug)]
pub enum Class {
    /// Unicode white space.
    Space,
    /// `0` to `9`.
    Digit,
    /// ASCII letters, digits and the hyphen.
    Label,
    /// What a label holds, and the space.
    Name,
    /// Everything but a closing round bracket.
    Link,
    /// Everything but a line feed.
    Line,
    /// Everything but a full stop and white space.
    Path,
}

impl Class {
    /// Whether `c` belongs to the class.
    pub open spec fn holds(self, c: char) -> bool {
        match self {
            Class::Space => is_space(c),
            Class::Digit => is_digit(c),
            Class::Label => is_label_char(c),
            Class::Name => is_label_char(c) || c == ' ',
            Class::Link => c != ')',
            Class::Line => c != '\n',
            Class::Path => c != '.' && !is_space(c),
        }
    }

    /// Tests `c` for the class.
    pub fn test(&self, c: char) -> (r: bool)
        ensures
            r == self.holds(c),
    {
        match self {
            Class::Space => test_space(c),
            Class::Digit => '0' <= c && c <= '9',
            Class::Label => test_label(c),
            Class::Name => test_label(c) || c == ' ',
            Class::Link => c != ')',
            Class::Line => c != '\n',
            Class::Path => c != '.' && !test_space(c),
        }
    }
}

/// Tests a character for white space.
fn test_space(c: char) -> (r: bool)
    ensures
        r == is_space(c),
{
    ('\u{9}' <= c && c <= '\u{d}') || c == ' ' || c == '\u{85}' || c == '\u{a0}' || c
        == '\u{1680}' || ('\u{2000}' <= c && c <= '\u{200a}') || c == '\u{2028}' || c
        == '\u{2029}' || c == '\u{202f}' || c == '\u{205f}' || c == '\u{3000}'
}

/// Tests a character for what may stand in a category.
fn test_label(c: char) -> (r: bool)
    ensures
        r == is_label_char(c),
{
    ('a' <= c && c <= 'z') || ('A' <= c && c <= 'Z') || ('0' <= c && c <= '9') || c == '-'
}

/// Where the longest run of characters of class `k` that starts at `i` ends.
pub open spec fn run_end(s: Seq<char>, i: int, k: Class) -> int
    decreases s.len() - i,
{
    if 0 <= i < s.len() && k.holds(s[i]) {
        run_end(s, i + 1, k)
    } else {
        i
    }
}

/// A run ends inside the text, holds only characters of its class, and is
/// followed by none of them.
pub proof fn lemma_run_end(s: Seq<char>, i: int, k: Class)
    requires
        0 <= i <= s.len(),
    ensures
        i <= run_end(s, i, k) <= s.len(),
        forall|j: int| i <= j < run_end(s, i, k) ==> k.holds(#[trigger] s[j]),
        run_end(s, i, k) < s.len() ==> !k.holds(s[run_end(s, i, k)]),
    decreases s.len() - i,
{
    if i < s.len() && k.holds(s[i]) {
        lemma_run_end(s, i + 1, k);
    }
}

/// A stretch of characters of one class that cannot be extended is the run
/// that starts where it starts.
pub proof fn lemma_run_is(s: Seq<char>, i: int, j: int, k: Class)
    requires
        0 <= i <= j <= s.len(),
        forall|x: int| i <= x < j ==> k.holds(#[trigger] s[x]),
        j < s.len() ==> !k.holds(s[j]),
    ensures
        run_end(s, i, k) == j,
    decreases j - i,
{
    if i < j {
        lemma_run_is(s, i + 1, j, k);
    }
}

/// Whether `part` stands in `s` at index `i`.
pub open spec fn has_at(s: Seq<char>, i: int, part: Seq<char>) -> bool {
    &&& 0 <= i
    &&& i + part.len() <= s.len()
    &&& s.subrange(i, i + part.len()) == part
}

/// Whether `part`, which is written in lower case, stands in `s` at index
/// `i` in any mixture of ASCII capitals and lower-case letters.
pub open spec fn has_at_any_case(s: Seq<char>, i: int, part: Seq<char>) -> bool {
    &&& 0 <= i
    &&& i + part.len() <= s.len()
    &&& s.subrange(i, i + part.len()).map_values(|c: char| ascii_lower(c)) == part
}

/// The index of the last `c` in `s` before index `i`, or -1.
pub open spec fn last_index_of(s: Seq<char>, c: char, i: int) -> int
    decreases i,
{
    if i <= 0 {
        -1
    } else if s[i - 1] == c {
        i - 1
    } else {
        last_index_of(s, c, i - 1)
    }
}

/// Whether `part` stands in `s` at index `from` or behind it.
pub open spec fn contains_from(s: Seq<char>, from: int, part: Seq<char>) -> bool {
    exists|i: int| from <= i && has_at(s, i, part)
}

/// Whether `part` stands somewhere in `s`.
pub open spec fn contains_text(s: Seq<char>, part: Seq<char>) -> bool {
    contains_from(s, 0, part)
}

/// Whether `s` begins with `part`.
pub open spec fn starts_with(s: Seq<char>, part: Seq<char>) -> bool {
    has_at(s, 0, part)
}

/// The decimal digit that stands for `d`.
pub open spec fn digit_char(d: nat) -> char
    recommends
        d < 10,
{
    ((d + 48) as u8) as char
}

/// The number `n` written in decimal, without leading zeros.
pub open spec fn decimal(n: nat) -> Seq<char>
    decreases n,
{
    if n < 10 {
        seq![digit_char(n)]
    } else {
        decimal(n / 10).push(digit_char(n % 10))
    }
}

/// The number that a sequence of decimal digits stands for.
pub open spec fn digits_value(s: Seq<char>) -> nat
    decreases s.len(),
{
    if s.len() == 0 {
        0
    } else {
        digits_value(s.drop_last()) * 10 + ((s.last() as int - 48) as nat)
    }
}

/// Whether every character of `s` is a decimal digit.
pub open spec fn all_digits(s: Seq<char>) -> bool {
    forall|i: int| 0 <= i < s.len() ==> is_digit(#[trigger] s[i])
}

/// The lines of `s` from index `i` on: the stretches between line feeds, each
/// without the carriage return that may precede its line feed. A text that
/// ends with a line feed has no empty last line.
pub open spec fn lines_from(s: Seq<char>, i: int) -> Seq<Seq<char>>
    decreases s.len() - i,
{
    let e = run_end(s, i, Class::Line);
    if i < 0 || i >= s.len() {
        seq![]
    } else if i <= e < s.len() {
        seq![strip_return(s.subrange(i, e))] + lines_from(s, e + 1)
    } else {
        seq![s.subrange(i, s.len() as int)]
    }
}

/// The lines of `s`.
pub open spec fn lines_of(s: Seq<char>) -> Seq<Seq<char>> {
    lines_from(s, 0)
}

/// `line` without the carriage return at its end, if it has one.
pub open spec fn strip_return(line: Seq<char>) -> Seq<char> {
    if line.len() > 0 && line.last() == '\r' {
        line.drop_last()
    } else {
        line
    }
}

/// The characters of `s`, in order.
pub fn to_chars(s: &str) -> (v: Vec<char>)
    ensures
        v@ == s@,
{
    let mut v: Vec<char> = Vec::new();
    for c in it: s.chars()
        invariant
            v@ == it.seq().take(it.index() as int),
            it.seq() == s@,
    {
        v.push(c);
    }
    v
}

/// `String::push`: appends one character to the string.
#[verifier::external_body]
pub(crate) fn push_char(s: &mut String, c: char)
    ensures
        final(s)@ == old(s)@.push(c),
{
    s.push(c)
}

/// The characters of `v` from index `from` up to `to`, as a string.
pub fn slice_string(v: &Vec<char>, from: usize, to: usize) -> (s: String)
    requires
        from <= to <= v.len(),
    ensures
        s@ == v@.subrange(from as int, to as int),
{
    let mut s = String::new();
    let mut i: usize = from;
    while i < to
        invariant
            from <= i <= to <= v.len(),
            s@ == v@.subrange(from as int, i as int),
        decreases to - i,
    {
        push_char(&mut s, v[i]);
        i += 1;
        assert(v@.subrange(from as int, i as int) == v@.subrange(from as int, i - 1).push(
            v@[i - 1],
        ));
    }
    s
}

/// `str::to_lowercase`: the lower-case form of `s` by the rules of Unicode.
#[verifier::external_body]
fn to_unicode_lowercase(s: &str) -> (r: String)
    ensures
        r@ == unicode_lowercase(s@),
{
    s.to_lowercase()
}

/// `s` in lower case.
pub fn to_lowercase(s: &str) -> (r: String)
    ensures
        r@ == lowercase(s@),
{
    if !s.is_ascii() {
        return to_unicode_lowercase(s);
    }
    let v = to_chars(s);
    let mut r = String::new();
    let mut i: usize = 0;
    while i < v.len()
        invariant
            i <= v.len(),
            v@ == s@,
            is_ascii_chars(s@),
            r@ == s@.subrange(0, i as int).map_values(|c: char| ascii_lower(c)),
        decreases v.len() - i,
    {
        let c = v[i];
        let low = if 'A' <= c && c <= 'Z' {
            ((c as u8) + 32) as char
        } else {
            c
        };
        push_char(&mut r, low);
        i += 1;
        assert(s@.subrange(0, i as int).map_values(|c: char| ascii_lower(c)) =~= s@.subrange(
            0,
            i - 1,
        ).map_values(|c: char| ascii_lower(c)).push(low));
    }
    assert(s@.subrange(0, i as int) == s@);
    r
}

/// Appends `s` to `list`.
pub fn push_text(list: &mut Vec<String>, s: String)
    ensures
        final(list).deep_view() == old(list).deep_view().push(s@),
{
    list.push(s);
    assert(final(list).deep_view() =~= old(list).deep_view().push(s@));
}

/// Appends the strings of `more` to `list`.
pub fn extend_texts(list: &mut Vec<String>, more: Vec<String>)
    ensures
        final(list).deep_view() == old(list).deep_view() + more.deep_view(),
{
    let mut more = more;
    let ghost added = more.deep_view();
    list.append(&mut more);
    assert(final(list).deep_view() =~= old(list).deep_view() + added);
}

/// Whether `list` holds `s`.
pub fn holds_text(list: &Vec<String>, s: &str) -> (r: bool)
    ensures
        r == list.deep_view().contains(s@),
{
    let mut i: usize = 0;
    while i < list.len()
        invariant
            i <= list.len(),
            forall|j: int| 0 <= j < i ==> list.deep_view()[j] != s@,
        decreases list.len() - i,
    {
        if same_text(list[i].as_str(), s) {
            assert(list.deep_view()[i as int] == s@);
            return true;
        }
        i += 1;
    }
    false
}

/// Tests whether `a` comes before `b` in the order of strings.
pub fn comes_before(a: &str, b: &str) -> (r: bool)
    ensures
        r == text_before(a@, b@),
{
    let x = to_chars(a);
    let y = to_chars(b);
    let mut i: usize = 0;
    while i < x.len() && i < y.len()
        invariant
            i <= x.len(),
            i <= y.len(),
            x@ == a@,
            y@ == b@,
            text_before(a@, b@) == before_from(a@, b@, i as int),
        decreases x.len() - i,
    {
        if x[i] != y[i] {
            return x[i] < y[i];
        }
        i += 1;
    }
    i < y.len()
}

/// `<[String]>::sort_unstable`: puts the strings into their order. The list
/// holds afterwards what it held before, each string as often.
#[verifier::external_body]
pub(crate) fn sort_texts(list: &mut Vec<String>)
    ensures
        final(list).deep_view().to_multiset() == old(list).deep_view().to_multiset(),
        sorted_texts(final(list).deep_view()),
{
    list.sort_unstable()
}

/// Whether two strings hold the same characters.
pub fn same_text(a: &str, b: &str) -> (r: bool)
    ensures
        r == (a@ == b@),
{
    let x = a.to_owned();
    let y = b.to_owned();
    x == y
}

/// Advances over the longest run of characters of class `k` that starts at
/// `i`.
pub fn scan_run(v: &Vec<char>, i: usize, k: Class) -> (j: usize)
    requires
        i <= v.len(),
    ensures
        j == run_end(v@, i as int, k),
        i <= j <= v.len(),
{
    let mut j: usize = i;
    while j < v.len() && k.test(v[j])
        invariant
            i <= j <= v.len(),
            run_end(v@, i as int, k) == run_end(v@, j as int, k),
        decreases v.len() - j,
    {
        j += 1;
    }
    j
}

/// Tests whether `part` stands in `v` at index `i`.
pub fn match_at(v: &Vec<char>, i: usize, part: &str) -> (r: bool)
    requires
        i <= v.len(),
    ensures
        r == has_at(v@, i as int, part@),
{
    let p = to_chars(part);
    if p.len() > v.len() - i {
        return false;
    }
    let mut j: usize = 0;
    while j < p.len()
        invariant
            j <= p.len(),
            i + p.len() <= v.len(),
            p@ == part@,
            forall|x: int| 0 <= x < j ==> v@[i + x] == p@[x],
        decreases p.len() - j,
    {
        if v[i + j] != p[j] {
            assert(v@.subrange(i as int, i + p.len())[j as int] != p@[j as int]);
            return false;
        }
        j += 1;
    }
    assert(v@.subrange(i as int, i + p.len()) =~= p@);
    true
}

/// Tests whether `part`, written in lower case, stands in `v` at index `i`
/// in any mixture of ASCII capitals and lower-case letters.
pub fn match_at_any_case(v: &Vec<char>, i: usize, part: &str) -> (r: bool)
    requires
        i <= v.len(),
    ensures
        r == has_at_any_case(v@, i as int, part@),
{
    let p = to_chars(part);
    if p.len() > v.len() - i {
        return false;
    }
    let ghost lowered = v@.subrange(i as int, i + p.len()).map_values(|c: char| ascii_lower(c));
    let mut j: usize = 0;
    while j < p.len()
        invariant
            j <= p.len(),
            i + p.len() <= v.len(),
            p@ == part@,
            lowered == v@.subrange(i as int, i + p.len()).map_values(|c: char| ascii_lower(c)),
            forall|x: int| 0 <= x < j ==> lowered[x] == p@[x],
        decreases p.len() - j,
    {
        let c = v[i + j];
        let low = if 'A' <= c && c <= 'Z' {
            ((c as u8) + 32) as char
        } else {
            c
        };
        if low != p[j] {
            assert(lowered[j as int] != p@[j as int]);
            return false;
        }
        j += 1;
    }
    assert(lowered =~= p@);
    true
}

/// Finds the last `c` in `v` before index `i`.
pub fn find_last(v: &Vec<char>, c: char, i: usize) -> (r: Option<usize>)
    requires
        i <= v.len(),
    ensures
        match r {
            Some(j) => j == last_index_of(v@, c, i as int) && j < i && v@[j as int] == c,
            None => last_index_of(v@, c, i as int) == -1,
        },
{
    let mut j: usize = i;
    while j > 0
        invariant
            j <= i <= v.len(),
            last_index_of(v@, c, i as int) == last_index_of(v@, c, j as int),
        decreases j,
    {
        if v[j - 1] == c {
            return Some(j - 1);
        }
        j -= 1;
    }
    None
}

/// Tests whether `part` stands in `v` at index `from` or behind it.
pub fn find_from(v: &Vec<char>, from: usize, part: &str) -> (r: bool)
    ensures
        r == contains_from(v@, from as int, part@),
{
    if from > v.len() {
        assert forall|j: int| from <= j implies !has_at(v@, j, part@) by {}
        return false;
    }
    let mut i: usize = from;
    while i <= v.len()
        invariant
            from <= i <= v.len() + 1,
            forall|j: int| from <= j < i ==> !has_at(v@, j, part@),
        decreases v.len() + 1 - i,
    {
        if match_at(v, i, part) {
            return true;
        }
        if i == v.len() {
            assert forall|j: int| from <= j implies !has_at(v@, j, part@) by {}
            return false;
        }
        i += 1;
    }
    false
}

/// Tests whether `part` stands somewhere in `v`.
pub fn find_text(v: &Vec<char>, part: &str) -> (r: bool)
    ensures
        r == contains_text(v@, part@),
{
    find_from(v, 0, part)
}

/// Appends the decimal digits of `n` to `s`.
pub fn push_decimal(s: &mut String, n: u64)
    ensures
        final(s)@ == old(s)@ + decimal(n as nat),
    decreases n,
{
    if n >= 10 {
        push_decimal(s, n / 10);
    }
    let d: u8 = (n % 10) as u8;
    push_char(s, (d + 48) as char);
    assert(final(s)@ =~= old(s)@ + decimal(n as nat));
}

/// Reads the decimal digits of `v` between `from` and `to`. The result is
/// `None` where there is no digit, where another character stands among
/// them, and where the number does not fit.
pub fn read_decimal(v: &Vec<char>, from: usize, to: usize) -> (r: Option<u64>)
    requires
        from <= to <= v.len(),
    ensures
        r is Some <==> {
            &&& from < to
            &&& all_digits(v@.subrange(from as int, to as int))
            &&& digits_value(v@.subrange(from as int, to as int)) <= u64::MAX
        },
        r matches Some(n) ==> n == digits_value(v@.subrange(from as int, to as int)),
{
    if from == to {
        return None;
    }
    let ghost whole = v@.subrange(from as int, to as int);
    let mut n: u64 = 0;
    let mut i: usize = from;
    while i < to
        invariant
            from <= i <= to <= v.len(),
            whole == v@.subrange(from as int, to as int),
            all_digits(v@.subrange(from as int, i as int)),
            n == digits_value(v@.subrange(from as int, i as int)),
        decreases to - i,
    {
        let c = v[i];
        let ghost before = v@.subrange(from as int, i as int);
        let ghost with = v@.subrange(from as int, i + 1);
        assert(with.drop_last() == before);
        assert(with.last() == c);
        if !Class::Digit.test(c) {
            assert(!is_digit(whole[i - from]));
            return None;
        }
        let d: u64 = (c as u32 - 48) as u64;
        if n > (u64::MAX - d) / 10 {
            proof {
                assert(digits_value(with) > u64::MAX);
                assert(whole.subrange(0, i + 1 - from) == with);
                if all_digits(whole) {
                    lemma_digits_value_grows(whole, i + 1 - from);
                }
            }
            return None;
        }
        n = n * 10 + d;
        i += 1;
        assert forall|x: int| 0 <= x < with.len() implies is_digit(#[trigger] with[x]) by {
            if x < before.len() {
                assert(with[x] == before[x]);
            }
        }
    }
    assert(v@.subrange(from as int, i as int) == whole);
    Some(n)
}

/// Digits added at the end never make the number smaller.
pub proof fn lemma_digits_value_grows(s: Seq<char>, n: int)
    requires
        0 <= n <= s.len(),
        all_digits(s),
    ensures
        digits_value(s.subrange(0, n)) <= digits_value(s),
    decreases s.len() - n,
{
    if n == s.len() {
        assert(s.subrange(0, n) == s);
    } else {
        lemma_digits_value_grows(s, n + 1);
        let longer = s.subrange(0, n + 1);
        assert(longer.drop_last() == s.subrange(0, n));
        assert(is_digit(s[n]));
    }
}

} // verus!
