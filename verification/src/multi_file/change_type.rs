//! Change types that are kept as a directory each, with one file for each
//! entry.
//!
//! The directory of a change type is named after the change type of the
//! configuration: in lower case, with a hyphen for each space.

use crate::config::{Config, ConfigView};
use crate::multi_file::entry::{file_entry_of, MultiFileEntry, MultiFileEntryView};
use crate::text::{ascii_lower, push_char, push_text, same_text, to_chars};
use vstd::prelude::*;
use vstd::string::*;

verus! {

/// One change type of a release, with its entries.
#[derive(Clone, Debug)]
pub struct ChangeType {
    /// The name of the directory.
    pub name: String,
    /// The name as it should read.
    pub fixed: String,
    /// The directory of the change type.
    pub path: String,
    /// What is wrong with the directory as it was found.
    pub problems: Vec<String>,
    /// The entries that were read from the files of the directory.
    pub entries: Vec<MultiFileEntry>,
}

/// What a `ChangeType` holds.
pub struct ChangeTypeView {
    pub name: Seq<char>,
    pub fixed: Seq<char>,
    pub path: Seq<char>,
    pub problems: Seq<Seq<char>>,
    pub entries: Seq<MultiFileEntryView>,
}

impl DeepView for ChangeType {
    type V = ChangeTypeView;

    open spec fn deep_view(&self) -> ChangeTypeView {
        ChangeTypeView {
            name: self.name@,
            fixed: self.fixed@,
            path: self.path@,
            problems: self.problems.deep_view(),
            entries: self.entries.deep_view(),
        }
    }
}

impl View for ChangeType {
    type V = ChangeTypeView;

    open spec fn view(&self) -> ChangeTypeView {
        self.deep_view()
    }
}

/// The first `n` entries as they should read, each with a line feed behind
/// it.
pub open spec fn entries_text(entries: Seq<MultiFileEntryView>, n: nat) -> Seq<char>
    decreases n,
{
    if n == 0 {
        seq![]
    } else {
        entries_text(entries, (n - 1) as nat) + entries[n - 1].fixed + "\n"@
    }
}

/// The section that a change type makes in the changelog as a whole: its
/// header, an empty line, and its entries line by line.
pub open spec fn change_type_text(c: ChangeTypeView) -> Seq<char> {
    "### "@ + c.fixed + "\n\n"@ + entries_text(c.entries, c.entries.len())
}

impl ChangeType {
    /// The section that the change type makes in the changelog as a whole.
    pub fn get_fixed_contents(&self) -> (s: String)
        ensures
            s@ == change_type_text(self@),
    {
        let mut s = String::from_str("### ");
        s.append(self.fixed.as_str());
        s.append("\n\n");
        let ghost head = s@;
        assert(head =~= "### "@ + self@.fixed + "\n\n"@);
        let mut i: usize = 0;
        while i < self.entries.len()
            invariant
                i <= self.entries.len(),
                s@ == head + entries_text(self@.entries, i as nat),
            decreases self.entries.len() - i,
        {
            s.append(self.entries[i].fixed.as_str());
            s.append("\n");
            i += 1;
            assert(s@ =~= head + entries_text(self@.entries, i as nat));
        }
        s
    }
}

/// The name of the directory of the change type with the long name `long`:
/// the name in lower case, with a hyphen for each space.
pub open spec fn directory_name(long: Seq<char>) -> Seq<char> {
    long.map_values(
        |c: char|
            if c == ' ' {
                '-'
            } else {
                ascii_lower(c)
            },
    )
}

/// Whether one of the first `n` change types of the configuration has its
/// directory named `name`.
pub open spec fn names_change_type(config: ConfigView, name: Seq<char>, n: nat) -> bool {
    exists|i: int| 0 <= i < n && directory_name(#[trigger] config.change_types[i].long) == name
}

/// The problem of a directory that is named after no change type of the
/// configuration, if that is so.
pub open spec fn name_check(config: ConfigView, name: Seq<char>) -> Seq<Seq<char>> {
    if !names_change_type(config, name, config.change_types.len()) {
        seq!["invalid change type: "@ + name]
    } else {
        seq![]
    }
}

/// What the first `n` files of a directory give: the entries that were read
/// from them, and one problem for each file that holds no entry or could not
/// be read, both in the order of the files. A file is its path and, where it
/// could be read, its contents.
pub open spec fn files_read(
    config: ConfigView,
    files: Seq<(Seq<char>, Option<Seq<char>>)>,
    n: nat,
) -> (Seq<MultiFileEntryView>, Seq<Seq<char>>)
    decreases n,
{
    if n == 0 {
        (seq![], seq![])
    } else {
        let before = files_read(config, files, (n - 1) as nat);
        let file = files[n - 1];
        let entry = match file.1 {
            Some(contents) => file_entry_of(config, file.0, contents),
            None => None,
        };
        match entry {
            Some(e) => (before.0.push(e), before.1),
            None => (before.0, before.1.push("invalid entry found in file: "@ + file.0)),
        }
    }
}

/// The change type that the directory `dir` with the name `name` and the
/// given files stands for. The problem of its name comes before those of its
/// files.
pub open spec fn change_type_of(
    config: ConfigView,
    dir: Seq<char>,
    name: Seq<char>,
    files: Seq<(Seq<char>, Option<Seq<char>>)>,
) -> ChangeTypeView {
    let read = files_read(config, files, files.len());
    ChangeTypeView {
        name,
        fixed: name,
        path: dir,
        problems: name_check(config, name) + read.1,
        entries: read.0,
    }
}

/// The name of the directory of the change type with the long name `long`.
fn name_of_directory(long: &str) -> (name: String)
    ensures
        name@ == directory_name(long@),
{
    let v = to_chars(long);
    let mut name = String::new();
    let mut i: usize = 0;
    while i < v.len()
        invariant
            i <= v.len(),
            v@ == long@,
            name@ == directory_name(long@.subrange(0, i as int)),
        decreases v.len() - i,
    {
        let c = v[i];
        let d = if c == ' ' {
            '-'
        } else if 'A' <= c && c <= 'Z' {
            ((c as u8) + 32) as char
        } else {
            c
        };
        push_char(&mut name, d);
        i += 1;
        assert(name@ =~= directory_name(long@.subrange(0, i as int)));
    }
    assert(long@.subrange(0, i as int) =~= long@);
    name
}

/// Tests whether a change type of the configuration has its directory named
/// `name`.
fn is_change_type(config: &Config, name: &str) -> (r: bool)
    ensures
        r == names_change_type(config@, name@, config@.change_types.len()),
{
    let mut i: usize = 0;
    while i < config.change_types.len()
        invariant
            i <= config.change_types.len(),
            !names_change_type(config@, name@, i as nat),
        decreases config.change_types.len() - i,
    {
        assert(config@.change_types[i as int].long == config.change_types[i as int].long@);
        if same_text(name_of_directory(config.change_types[i].long.as_str()).as_str(), name) {
            return true;
        }
        i += 1;
    }
    false
}

/// Reads the directory `dir` of a change type from its name and its files:
/// each file with its path and, where it could be read, its contents.
pub fn parse(
    config: &Config,
    dir: &str,
    base_name: &str,
    files: &Vec<(String, Option<String>)>,
) -> (c: ChangeType)
    ensures
        c@ == change_type_of(config@, dir@, base_name@, files.deep_view()),
{
    let mut problems: Vec<String> = Vec::new();
    if !is_change_type(config, base_name) {
        let mut p = String::from_str("invalid change type: ");
        p.append(base_name);
        push_text(&mut problems, p);
    }
    let ghost named = problems.deep_view();
    assert(named =~= name_check(config@, base_name@));
    let mut entries: Vec<MultiFileEntry> = Vec::new();
    let mut i: usize = 0;
    assert(entries.deep_view() =~= files_read(config@, files.deep_view(), 0).0);
    assert(problems.deep_view() =~= named + files_read(config@, files.deep_view(), 0).1);
    while i < files.len()
        invariant
            i <= files.len(),
            entries.deep_view() == files_read(config@, files.deep_view(), i as nat).0,
            problems.deep_view() == named + files_read(config@, files.deep_view(), i as nat).1,
        decreases files.len() - i,
    {
        let ghost before = problems.deep_view();
        let ghost held = entries.deep_view();
        let path = &files[i].0;
        assert(files.deep_view()[i as int] == (files[i as int].0@, files[i as int].1.deep_view()));
        let read = match &files[i].1 {
            Some(contents) => match crate::multi_file::entry::parse(
                config,
                path.as_str(),
                contents.as_str(),
            ) {
                Ok(e) => Some(e),
                Err(_) => None,
            },
            None => None,
        };
        match read {
            Some(e) => {
                entries.push(e);
                assert(entries.deep_view() =~= held.push(e@));
            },
            None => {
                let mut p = String::from_str("invalid entry found in file: ");
                p.append(path.as_str());
                push_text(&mut problems, p);
            },
        }
        i += 1;
        assert(entries.deep_view() =~= files_read(config@, files.deep_view(), i as nat).0);
        assert(problems.deep_view() =~= named + files_read(config@, files.deep_view(), i as nat).1);
    }
    ChangeType {
        name: base_name.to_string(),
        fixed: base_name.to_string(),
        path: dir.to_string(),
        problems,
        entries,
    }
}

} // verus!
