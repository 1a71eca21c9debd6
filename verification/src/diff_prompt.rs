//! Suggestions for a pull request, as an assistant answers them.

use crate::changelog::split_lines;
use crate::errors::CreateError;
use crate::text::{find_last, last_index_of, lines_of, slice_string, to_chars};
use vstd::prelude::*;
use vstd::string::*;

verus! {

/// What is suggested for a pull request and its entry.
#[derive(Clone, Debug, Default, PartialEq)]
pub struct Suggestions {
    pub category: String,
    pub change_type: String,
    pub title: String,
    pub pr_description: String,
}

/// The first `n` of the given lines, one behind the other.
pub open spec fn joined(lines: Seq<Seq<char>>, n: nat) -> Seq<char>
    decreases n,
{
    if n == 0 {
        seq![]
    } else {
        joined(lines, (n - 1) as nat) + lines[n - 1]
    }
}

/// The index of the first `c` at `i` or behind it; the length of the text
/// where there is none.
pub open spec fn first_index_of(s: Seq<char>, c: char, i: int) -> int
    decreases s.len() - i,
{
    if i < 0 || i >= s.len() {
        s.len() as int
    } else if s[i] == c {
        i
    } else {
        first_index_of(s, c, i + 1)
    }
}

/// The object that an answer holds: its lines are put one behind the
/// other, and what stands from the first opening brace to the last closing
/// brace is the object. There has to be something between the two. Where
/// there is no object, the lines are handed back as they were joined.
pub open spec fn object_of(response: Seq<char>) -> Result<Seq<char>, Seq<char>> {
    let text = joined(lines_of(response), lines_of(response).len());
    let from = first_index_of(text, '{', 0);
    let to = last_index_of(text, '}', text.len() as int);
    if from + 2 <= to {
        Ok(text.subrange(from, to + 1))
    } else {
        Err(text)
    }
}

/// Takes the object that holds the suggestions out of an answer.
pub fn extract_object(llm_response: &str) -> (r: Result<String, CreateError>)
    ensures
        match r {
            Ok(object) => object_of(llm_response@) == Ok::<Seq<char>, Seq<char>>(object@),
            Err(CreateError::FailedToMatch(held)) => object_of(llm_response@) == Err::<
                Seq<char>,
                Seq<char>,
            >(held@),
            Err(_) => false,
        },
{
    let lines = split_lines(llm_response);
    let mut stripped = String::new();
    let mut i: usize = 0;
    while i < lines.len()
        invariant
            i <= lines.len(),
            stripped@ == joined(lines.deep_view(), i as nat),
        decreases lines.len() - i,
    {
        stripped.append(lines[i].as_str());
        i += 1;
    }
    let v = to_chars(stripped.as_str());
    let mut from: usize = 0;
    while from < v.len() && v[from] != '{'
        invariant
            from <= v.len(),
            first_index_of(v@, '{', 0) == first_index_of(v@, '{', from as int),
        decreases v.len() - from,
    {
        from += 1;
    }
    match find_last(&v, '}', v.len()) {
        Some(to) => {
            if to >= 2 && from <= to - 2 {
                return Ok(slice_string(&v, from, to + 1));
            }
        },
        None => {},
    }
    Err(CreateError::FailedToMatch(stripped))
}

} // verus!
