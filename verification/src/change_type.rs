//! Change types: the sections that a release is divided into.
//!
//! The header of a change type reads `### Name`. The name is held against
//! the change types of the configuration, without regard to case and to the
//! white space in it.

use crate::config::{ChangeTypeConfigView, Config, ConfigView};
use crate::entry::{Entry, EntryView};
use crate::errors::ChangeTypeError;
use crate::pattern::{pattern_compiles, pattern_matches, search};
use crate::text::{has_at, is_space, match_at, push_char, push_text, run_end, same_text, scan_run, slice_string, to_chars, Class};
use vstd::prelude::*;
use vstd::string::*;

verus! {

/// One change type of a release, with its entries.
#[derive(Clone, Debug)]
pub struct ChangeType {
    /// The name of the change type as it should read.
    pub name: String,
    /// The header line as it should read.
    pub fixed: String,
    /// What is wrong with the header as it was found.
    pub problems: Vec<String>,
    /// The entries of the section, in the order of the document.
    pub entries: Vec<Entry>,
}

/// What a `ChangeType` holds.
pub struct ChangeTypeView {
    pub name: Seq<char>,
    pub fixed: Seq<char>,
    pub problems: Seq<Seq<char>>,
    pub entries: Seq<EntryView>,
}

impl DeepView for ChangeType {
    type V = ChangeTypeView;

    open spec fn deep_view(&self) -> ChangeTypeView {
        ChangeTypeView {
            name: self.name@,
            fixed: self.fixed@,
            problems: self.problems.deep_view(),
            entries: self.entries.deep_view(),
        }
    }
}

impl View for ChangeType {
    type V = ChangeTypeView;

    open spec fn view(&self) -> ChangeTypeView {
        self.deep_view()
    }
}

/// The lines of the first `n` entries, each with a line feed behind it.
pub open spec fn entries_text(entries: Seq<EntryView>, n: nat) -> Seq<char>
    decreases n,
{
    if n == 0 {
        seq![]
    } else {
        entries_text(entries, (n - 1) as nat) + entries[n - 1].fixed + "\n"@
    }
}

/// The section of a change type as it should read: the header, an empty
/// line, and the entries line by line.
pub open spec fn change_type_text(c: ChangeTypeView) -> Seq<char> {
    c.fixed + "\n\n"@ + entries_text(c.entries, c.entries.len())
}

impl ChangeType {
    /// The section as it should read.
    pub fn get_fixed_contents(&self) -> (s: String)
        ensures
            s@ == change_type_text(self@),
    {
        let mut s = String::new();
        s.append(self.fixed.as_str());
        s.append("\n\n");
        let ghost head = s@;
        assert(head =~= self@.fixed + "\n\n"@);
        let mut i: usize = 0;
        while i < self.entries.len()
            invariant
                i <= self.entries.len(),
                s@ == head + entries_text(self@.entries, i as nat),
            decreases self.entries.len() - i,
        {
            s.append(self.entries[i].fixed.as_str());
            s.append("\n");
            i += 1;
            assert(s@ =~= head + entries_text(self@.entries, i as nat));
        }
        s
    }
}

/// A change type with the given name and entries and a header to match.
pub fn new(name: String, entries: Option<Vec<Entry>>) -> (c: ChangeType)
    ensures
        c@ == (ChangeTypeView {
            name: name@,
            fixed: "### "@ + name@,
            problems: seq![],
            entries: match entries {
                Some(list) => list.deep_view(),
                None => seq![],
            },
        }),
{
    let mut fixed = String::from_str("### ");
    fixed.append(name.as_str());
    let list = match entries {
        Some(list) => list,
        None => {
            let empty: Vec<Entry> = Vec::new();
            assert(empty.deep_view() =~= seq![]);
            empty
        },
    };
    let c = ChangeType { name, fixed, problems: Vec::new(), entries: list };
    assert(c.problems.deep_view() =~= seq![]);
    c
}

/// A change type without a name, a header or entries.
pub fn new_empty_change_type() -> (c: ChangeType)
    ensures
        c@ == (ChangeTypeView { name: seq![], fixed: seq![], problems: seq![], entries: seq![] }),
{
    let c = ChangeType {
        name: String::new(),
        fixed: String::new(),
        problems: Vec::new(),
        entries: Vec::new(),
    };
    assert(c.problems.deep_view() =~= seq![]);
    assert(c.entries.deep_view() =~= seq![]);
    c
}

/// The grammar of a change type header: `###` and a name of ASCII letters,
/// digits, hyphens and spaces, with any white space before each and behind
/// the name. What is handed out is the name, with every space that follows
/// it directly.
pub open spec fn change_type_name(s: Seq<char>) -> Option<Seq<char>> {
    let n = s.len() as int;
    let hashes = run_end(s, 0, Class::Space);
    let from = run_end(s, hashes + 3, Class::Space);
    let to = run_end(s, from, Class::Name);
    if has_at(s, hashes, "###"@) && from < to && run_end(s, to, Class::Space) == n {
        Some(s.subrange(from, to))
    } else {
        None
    }
}

/// Divides a line by the grammar of a change type header.
pub fn split_change_type(line: &str) -> (r: Option<String>)
    ensures
        r.deep_view() == change_type_name(line@),
{
    let v = to_chars(line);
    let n = v.len();
    let hashes = scan_run(&v, 0, Class::Space);
    if !match_at(&v, hashes, "###") {
        return None;
    }
    proof {
        reveal_strlit("###");
    }
    let from = scan_run(&v, hashes + 3, Class::Space);
    let to = scan_run(&v, from, Class::Name);
    if !(from < to) {
        return None;
    }
    if scan_run(&v, to, Class::Space) != n {
        return None;
    }
    Some(slice_string(&v, from, to))
}

/// The pattern that stands for the first `n` characters of a change type's
/// name: the characters themselves, with `\s*` in place of each run of white
/// space.
pub open spec fn loose_pattern(name: Seq<char>, n: nat) -> Seq<char>
    decreases n,
{
    if n == 0 {
        seq![]
    } else if !is_space(name[n - 1]) {
        loose_pattern(name, (n - 1) as nat).push(name[n - 1])
    } else if n >= 2 && is_space(name[n - 2]) {
        loose_pattern(name, (n - 1) as nat)
    } else {
        loose_pattern(name, (n - 1) as nat) + "\\s*"@
    }
}

/// The pattern that a configured change type is searched with.
pub open spec fn change_type_pattern(name: Seq<char>) -> Seq<char> {
    loose_pattern(name, name.len())
}

/// Makes the pattern that a configured change type is searched with.
pub fn build_pattern(name: &str) -> (p: String)
    ensures
        p@ == change_type_pattern(name@),
{
    let v = to_chars(name);
    let mut p = String::new();
    let mut i: usize = 0;
    while i < v.len()
        invariant
            i <= v.len(),
            v@ == name@,
            p@ == loose_pattern(name@, i as nat),
        decreases v.len() - i,
    {
        if !Class::Space.test(v[i]) {
            push_char(&mut p, v[i]);
        } else if !(i >= 1 && Class::Space.test(v[i - 1])) {
            p.append("\\s*");
        }
        i += 1;
    }
    p
}

/// Which of the first `n` configured change types a name belongs to: the
/// first whose pattern is found in it. `Err` where the pattern of a change
/// type before that one cannot be compiled.
pub open spec fn known_change_type(types: Seq<ChangeTypeConfigView>, name: Seq<char>, n: nat)
    -> Result<Option<int>, ChangeTypeError>
    decreases n,
{
    if n == 0 {
        Ok(None)
    } else {
        match known_change_type(types, name, (n - 1) as nat) {
            Err(e) => Err(e),
            Ok(Some(i)) => Ok(Some(i)),
            Ok(None) => {
                let pattern = change_type_pattern(types[n - 1].long);
                if !pattern_compiles(pattern) {
                    Err(ChangeTypeError::InvalidRegex)
                } else if pattern_matches(pattern, name) {
                    Ok(Some(n - 1))
                } else {
                    Ok(None)
                }
            },
        }
    }
}

/// Finds the configured change type that a name belongs to.
pub fn find_change_type(config: &Config, name: &str) -> (r: Result<Option<usize>, ChangeTypeError>)
    ensures
        match r {
            Ok(Some(i)) => known_change_type(
                config@.change_types,
                name@,
                config@.change_types.len(),
            ) == Ok::<Option<int>, ChangeTypeError>(Some(i as int)) && i < config.change_types.len(),
            Ok(None) => known_change_type(config@.change_types, name@, config@.change_types.len())
                == Ok::<Option<int>, ChangeTypeError>(None),
            Err(e) => known_change_type(config@.change_types, name@, config@.change_types.len())
                == Err::<Option<int>, ChangeTypeError>(e),
        },
{
    let mut i: usize = 0;
    while i < config.change_types.len()
        invariant
            i <= config.change_types.len(),
            known_change_type(config@.change_types, name@, i as nat) == Ok::<
                Option<int>,
                ChangeTypeError,
            >(None),
        decreases config.change_types.len() - i,
    {
        let pattern = build_pattern(config.change_types[i].long.as_str());
        assert(config@.change_types[i as int].long == config.change_types[i as int].long@);
        match search(pattern.as_str(), name) {
            Err(_) => {
                proof {
                    lemma_known_stays(config@.change_types, name@, i as nat + 1);
                }
                return Err(ChangeTypeError::InvalidRegex);
            },
            Ok(found) => {
                if found {
                    proof {
                        lemma_known_stays(config@.change_types, name@, i as nat + 1);
                    }
                    return Ok(Some(i));
                }
            },
        }
        i += 1;
    }
    Ok(None)
}

/// What is decided among the first `n` change types is decided among all.
pub proof fn lemma_known_stays(types: Seq<ChangeTypeConfigView>, name: Seq<char>, n: nat)
    requires
        n <= types.len(),
        known_change_type(types, name, n) != Ok::<Option<int>, ChangeTypeError>(None),
    ensures
        known_change_type(types, name, types.len()) == known_change_type(types, name, n),
    decreases types.len() - n,
{
    if n < types.len() {
        lemma_known_stays(types, name, n + 1);
    }
}

/// The change type that a header stands for. A name that belongs to a
/// configured change type is replaced by that one's name, with a problem if
/// it was written otherwise; a name that belongs to none is a problem. A
/// line that differs from the header as it should read is a problem too.
pub open spec fn change_type_of(config: ConfigView, line: Seq<char>) -> Result<
    ChangeTypeView,
    ChangeTypeError,
> {
    match change_type_name(line) {
        None => Err(ChangeTypeError::NoMatchesFound),
        Some(name) => match known_change_type(
            config.change_types,
            name,
            config.change_types.len(),
        ) {
            Err(e) => Err(e),
            Ok(found) => {
                let fixed_name = match found {
                    Some(i) => config.change_types[i].long,
                    None => name,
                };
                let spelling = match found {
                    Some(i) => if name != fixed_name {
                        seq!["'"@ + fixed_name + "' should be used instead of '"@ + name + "'"@]
                    } else {
                        seq![]
                    },
                    None => seq!["'"@ + name + "' is not a valid change type"@],
                };
                let form = if "### "@ + fixed_name != line {
                    seq!["Change type line is malformed; should be: '"@ + ("### "@ + fixed_name)
                        + "'"@]
                } else {
                    seq![]
                };
                Ok(
                    ChangeTypeView {
                        name: fixed_name,
                        fixed: "### "@ + fixed_name,
                        problems: spelling + form,
                        entries: seq![],
                    },
                )
            },
        },
    }
}

/// Parses the header of a change type.
pub fn parse(config: Config, line: &str) -> (r: Result<ChangeType, ChangeTypeError>)
    ensures
        match r {
            Ok(c) => change_type_of(config@, line@) == Ok::<ChangeTypeView, ChangeTypeError>(c@),
            Err(e) => change_type_of(config@, line@) == Err::<ChangeTypeView, ChangeTypeError>(e),
        },
{
    parse_line(&config, line)
}

/// Parses the header of a change type with a configuration that is kept.
pub fn parse_line(config: &Config, line: &str) -> (r: Result<ChangeType, ChangeTypeError>)
    ensures
        match r {
            Ok(c) => change_type_of(config@, line@) == Ok::<ChangeTypeView, ChangeTypeError>(c@),
            Err(e) => change_type_of(config@, line@) == Err::<ChangeTypeView, ChangeTypeError>(e),
        },
{
    let name = match split_change_type(line) {
        Some(name) => name,
        None => {
            return Err(ChangeTypeError::NoMatchesFound);
        },
    };
    let found = match find_change_type(config, name.as_str()) {
        Ok(found) => found,
        Err(e) => {
            return Err(e);
        },
    };
    let mut problems: Vec<String> = Vec::new();
    let fixed_name = match found {
        Some(i) => {
            let long = &config.change_types[i].long;
            assert(config@.change_types[i as int].long == long@);
            if !same_text(name.as_str(), long.as_str()) {
                let mut p = String::from_str("'");
                p.append(long.as_str());
                p.append("' should be used instead of '");
                p.append(name.as_str());
                p.append("'");
                push_text(&mut problems, p);
            }
            long.clone()
        },
        None => {
            let mut p = String::from_str("'");
            p.append(name.as_str());
            p.append("' is not a valid change type");
            push_text(&mut problems, p);
            name.clone()
        },
    };
    let mut fixed = String::from_str("### ");
    fixed.append(fixed_name.as_str());
    if !same_text(fixed.as_str(), line) {
        let mut p = String::from_str("Change type line is malformed; should be: '");
        p.append(fixed.as_str());
        p.append("'");
        push_text(&mut problems, p);
    }
    let c = ChangeType { name: fixed_name, fixed, problems, entries: Vec::new() };
    assert(c.entries.deep_view() =~= seq![]);
    assert(c.problems.deep_view() =~= change_type_of(config@, line@)->Ok_0.problems);
    Ok(c)
}

} // verus!
