//! What holds of runs, of numbers in decimal and of letters in lower case.

use crate::text::{
    before_from,
    text_before,all_digits, ascii_lower, decimal, digit_char, digits_value, is_digit, is_label_char, last_index_of, lowercase};
use vstd::prelude::*;
use vstd::utf8::is_ascii_chars;

verus! {

/// A stretch of a text that holds the characters of `part`, one by one, is
/// `part`.
pub proof fn lemma_stretch_is(s: Seq<char>, from: int, part: Seq<char>)
    requires
        0 <= from,
        from + part.len() <= s.len(),
        forall|i: int| 0 <= i < part.len() ==> s[from + i] == #[trigger] part[i],
    ensures
        s.subrange(from, from + part.len()) == part,
{
    assert(s.subrange(from, from + part.len()) =~= part);
}

/// The decimal form of a number is made of digits, at least one, and stands
/// for the number.
pub proof fn lemma_decimal(n: nat)
    ensures
        decimal(n).len() > 0,
        all_digits(decimal(n)),
        digits_value(decimal(n)) == n,
    decreases n,
{
    if n < 10 {
        let d = decimal(n);
        assert(d.len() == 1);
        assert(d[0] == digit_char(n));
        assert(d.drop_last() =~= seq![]);
        assert(digits_value(d.drop_last()) == 0);
    } else {
        lemma_decimal(n / 10);
        let d = decimal(n);
        assert(d.drop_last() =~= decimal(n / 10));
        assert(d.last() == digit_char(n % 10));
        assert forall|i: int| 0 <= i < d.len() implies is_digit(#[trigger] d[i]) by {
            if i < d.len() - 1 {
                assert(d[i] == decimal(n / 10)[i]);
            }
        }
    }
}

/// The decimal form of a number does not begin with a `+`, and holds no
/// slash, closing bracket or line feed.
pub proof fn lemma_decimal_chars(n: nat)
    ensures
        forall|i: int|
            0 <= i < decimal(n).len() ==> {
                let c = #[trigger] decimal(n)[i];
                c != '+' && c != '/' && c != ')' && c != '\n' && c != ' ' && is_label_char(c)
            },
{
    lemma_decimal(n);
    assert forall|i: int| 0 <= i < decimal(n).len() implies {
        let c = #[trigger] decimal(n)[i];
        c != '+' && c != '/' && c != ')' && c != '\n' && c != ' ' && is_label_char(c)
    } by {
        assert(is_digit(decimal(n)[i]));
    }
}

/// Behind the last `c` of a text, no `c` follows; without any, -1 is the
/// index.
pub proof fn lemma_last_index_of(s: Seq<char>, c: char, i: int)
    requires
        0 <= i <= s.len(),
    ensures
        -1 <= last_index_of(s, c, i) < i,
        last_index_of(s, c, i) >= 0 ==> s[last_index_of(s, c, i)] == c,
        forall|j: int| last_index_of(s, c, i) < j < i ==> s[j] != c,
    decreases i,
{
    if i > 0 && s[i - 1] != c {
        lemma_last_index_of(s, c, i - 1);
    }
}

/// The last `c` before index `i` is at `at`, where `c` stands there and
/// nowhere between `at` and `i`.
pub proof fn lemma_last_index_is(s: Seq<char>, c: char, at: int, i: int)
    requires
        0 <= at < i <= s.len(),
        s[at] == c,
        forall|j: int| at < j < i ==> s[j] != c,
    ensures
        last_index_of(s, c, i) == at,
    decreases i - at,
{
    if i - 1 > at {
        lemma_last_index_is(s, c, at, i - 1);
    }
}

/// Putting an ASCII text into lower case twice is putting it into lower
/// case once, and leaves a text of letters, digits and hyphens one.
pub proof fn lemma_lowercase_of_label(s: Seq<char>)
    requires
        forall|i: int| 0 <= i < s.len() ==> is_label_char(#[trigger] s[i]),
    ensures
        lowercase(s).len() == s.len(),
        forall|i: int| 0 <= i < s.len() ==> is_label_char(#[trigger] lowercase(s)[i]),
        lowercase(lowercase(s)) == lowercase(s),
{
    assert(is_ascii_chars(s)) by {
        assert forall|i: int| 0 <= i < s.len() implies '\0' <= #[trigger] s[i] <= '\u{7f}' by {
            assert(is_label_char(s[i]));
        }
    }
    let low = lowercase(s);
    assert(low == s.map_values(|c: char| ascii_lower(c)));
    assert forall|i: int| 0 <= i < s.len() implies is_label_char(#[trigger] low[i]) by {
        assert(is_label_char(s[i]));
        assert(low[i] == ascii_lower(s[i]));
    }
    assert(is_ascii_chars(low)) by {
        assert forall|i: int| 0 <= i < low.len() implies '\0' <= #[trigger] low[i] <= '\u{7f}' by {
            assert(is_label_char(low[i]));
        }
    }
    assert(lowercase(low) =~= low) by {
        assert forall|i: int| 0 <= i < low.len() implies low.map_values(
            |c: char| ascii_lower(c),
        )[i] == low[i] by {
            assert(low[i] == ascii_lower(s[i]));
            assert(is_label_char(s[i]));
        }
    }
}

/// Of two texts that agree before index `i`, one comes before the other
/// from there on, or they are one text.
pub proof fn lemma_before_from_total(a: Seq<char>, b: Seq<char>, i: int)
    requires
        0 <= i <= a.len(),
        i <= b.len(),
        a.subrange(0, i) == b.subrange(0, i),
    ensures
        before_from(a, b, i) || before_from(b, a, i) || a == b,
    decreases a.len() - i,
{
    if i < a.len() && i < b.len() {
        if a[i] == b[i] {
            assert(a.subrange(0, i + 1) =~= a.subrange(0, i).push(a[i]));
            assert(b.subrange(0, i + 1) =~= b.subrange(0, i).push(b[i]));
            lemma_before_from_total(a, b, i + 1);
        }
    } else if i == a.len() && i == b.len() {
        assert(a.subrange(0, i) == a);
        assert(b.subrange(0, i) == b);
    }
}

/// Of two texts one comes before the other in the order of strings, or
/// they are one text.
pub proof fn lemma_text_order_total(a: Seq<char>, b: Seq<char>)
    ensures
        text_before(a, b) || text_before(b, a) || a == b,
{
    assert(a.subrange(0, 0) =~= b.subrange(0, 0));
    lemma_before_from_total(a, b, 0);
}

/// A text that comes before a second, which comes before a third, comes
/// before the third: from index `i` on, where the three agree before it.
pub proof fn lemma_before_from_transitive(a: Seq<char>, b: Seq<char>, c: Seq<char>, i: int)
    requires
        0 <= i,
        before_from(a, b, i),
        before_from(b, c, i),
    ensures
        before_from(a, c, i),
    decreases b.len() - i,
{
    if i < a.len() && i < b.len() && i < c.len() && a[i] == b[i] && b[i] == c[i] {
        lemma_before_from_transitive(a, b, c, i + 1);
    }
}

/// The order of strings is transitive.
pub proof fn lemma_text_order_transitive(a: Seq<char>, b: Seq<char>, c: Seq<char>)
    requires
        text_before(a, b),
        text_before(b, c),
    ensures
        text_before(a, c),
{
    lemma_before_from_transitive(a, b, c, 0);
}

} // verus!
