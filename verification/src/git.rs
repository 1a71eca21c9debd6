//! What is read from the answers of Git: the address of the origin, the
//! owner and the name of a repository, the diff between two branches.

use crate::changelog::{trimmed, trim_end};
use crate::config::{Config, ConfigView};
use crate::errors::GitError;
use crate::pattern::{capture, pattern_compiles, pattern_group};
use crate::text::{has_at, match_at, run_end, scan_run, slice_string, to_chars, Class};
use vstd::prelude::*;
use vstd::string::*;

verus! {

/// A repository at GitHub and the branch at hand.
#[derive(Clone, Debug, PartialEq)]
pub struct GitInfo {
    pub owner: String,
    pub repo: String,
    pub branch: String,
}

/// What a `GitInfo` holds.
pub struct GitInfoView {
    pub owner: Seq<char>,
    pub repo: Seq<char>,
    pub branch: Seq<char>,
}

impl DeepView for GitInfo {
    type V = GitInfoView;

    open spec fn deep_view(&self) -> GitInfoView {
        GitInfoView { owner: self.owner@, repo: self.repo@, branch: self.branch@ }
    }
}

impl View for GitInfo {
    type V = GitInfoView;

    open spec fn view(&self) -> GitInfoView {
        self.deep_view()
    }
}

/// Whether a slash stands in the stretch of `s` from `from` up to `to` with
/// at least one character before it and one behind it.
pub open spec fn slash_inside(s: Seq<char>, from: int, to: int) -> bool {
    exists|p: int| from < p < to - 1 && s[p] == '/'
}

/// The address of a repository at GitHub that begins at index `i`:
/// `https://github.com/`, where any character but a line feed may stand in
/// place of the full stop, and the characters behind it up to the first
/// full stop or white space, where a slash stands among them that is
/// neither the first nor the last.
pub open spec fn origin_at(s: Seq<char>, i: int) -> Option<Seq<char>> {
    let from = i + 19;
    let to = run_end(s, from, Class::Path);
    if has_at(s, i, "https://github"@) && s[i + 14] != '\n' && has_at(s, i + 15, "com/"@)
        && slash_inside(s, from, to) {
        Some(s.subrange(i, to))
    } else {
        None
    }
}

/// The first address of a repository at GitHub that begins at index `i` or
/// behind it.
pub open spec fn origin_from(s: Seq<char>, i: int) -> Option<Seq<char>>
    decreases s.len() - i,
{
    if i < 0 || i >= s.len() {
        None
    } else if origin_at(s, i) is Some {
        origin_at(s, i)
    } else {
        origin_from(s, i + 1)
    }
}

/// Tests for a slash inside a stretch.
fn find_slash_inside(v: &Vec<char>, from: usize, to: usize) -> (r: bool)
    requires
        from <= to <= v.len(),
    ensures
        r == slash_inside(v@, from as int, to as int),
{
    if to - from < 3 {
        return false;
    }
    let mut p: usize = from + 1;
    while p < to - 1
        invariant
            from < p <= to - 1,
            to <= v.len(),
            forall|q: int| from < q < p ==> v@[q] != '/',
        decreases to - p,
    {
        if v[p] == '/' {
            return true;
        }
        p += 1;
    }
    false
}

/// Reads the address of the origin from what Git answers when asked for
/// it: the first address of a repository at GitHub in the answer, without
/// what follows its name. An answer that holds none is handed back in the
/// error.
pub fn parse_origin(output: &str) -> (r: Result<String, GitError>)
    ensures
        match r {
            Ok(origin) => origin_from(output@, 0) == Some(origin@),
            Err(GitError::RegexMatch(held)) => origin_from(output@, 0) is None && held@
                == output@,
            Err(_) => false,
        },
{
    let v = to_chars(output);
    let mut i: usize = 0;
    while i < v.len()
        invariant
            i <= v.len(),
            v@ == output@,
            origin_from(v@, 0) == origin_from(v@, i as int),
        decreases v.len() - i,
    {
        if match_at(&v, i, "https://github") {
            proof {
                reveal_strlit("https://github");
                reveal_strlit("com/");
            }
            if v.len() - i >= 19 && v[i + 14] != '\n' && match_at(&v, i + 15, "com/") {
                let from = i + 19;
                let to = scan_run(&v, from, Class::Path);
                if find_slash_inside(&v, from, to) {
                    return Ok(slice_string(&v, i, to));
                }
            }
        }
        i += 1;
    }
    Err(GitError::RegexMatch(output.to_string()))
}

/// The pattern that finds the owner and the name of a repository in its
/// address at GitHub. It minds the case of `github` and `com`, and its first
/// dot stands for any character.
pub open spec fn repository_pattern() -> Seq<char> {
    "(?-i)github.com/(?P<owner>[\\w-]+)/(?P<repo>[\\w-]+)\\.*"@
}

/// What is known of the repository of a configuration and the branch at
/// hand: the owner and the name that the pattern finds in the address of
/// the repository. Where it finds none, the message of the error names the
/// address.
pub open spec fn git_info_of(config: ConfigView, branch: Seq<char>) -> Result<
    GitInfoView,
    Seq<char>,
> {
    if !pattern_compiles(repository_pattern()) {
        Err("failed to build regex"@)
    } else {
        match (
            pattern_group(repository_pattern(), config.target_repo, 1),
            pattern_group(repository_pattern(), config.target_repo, 2),
        ) {
            (Some(owner), Some(repo)) => Ok(GitInfoView { owner, repo, branch }),
            _ => Err("failed to match GitHub repo: "@ + config.target_repo),
        }
    }
}

/// Finds the owner and the name of the repository of the configuration, and
/// puts the branch at hand beside them. An address that names no repository
/// at GitHub is handed back in the error.
pub fn get_git_info(config: &Config, branch: String) -> (r: Result<GitInfo, GitError>)
    ensures
        match r {
            Ok(info) => git_info_of(config@, branch@) == Ok::<GitInfoView, Seq<char>>(info@),
            Err(e) => git_info_of(config@, branch@) == Err::<GitInfoView, Seq<char>>(e.text())
                && (e is InvalidRegex || e is RegexMatch),
        },
{
    let pattern = "(?-i)github.com/(?P<owner>[\\w-]+)/(?P<repo>[\\w-]+)\\.*";
    let owner = match capture(pattern, config.target_repo.as_str(), 1) {
        Ok(owner) => owner,
        Err(_) => {
            return Err(GitError::InvalidRegex);
        },
    };
    let repo = match capture(pattern, config.target_repo.as_str(), 2) {
        Ok(repo) => repo,
        Err(_) => {
            return Err(GitError::InvalidRegex);
        },
    };
    match (owner, repo) {
        (Some(owner), Some(repo)) => Ok(GitInfo { owner, repo, branch }),
        _ => Err(GitError::RegexMatch(config.target_repo.clone())),
    }
}

/// What is made of the answer of Git to the question for a diff: the
/// answer without the white space around it, which must leave something.
pub open spec fn diff_of(output: Seq<char>) -> Option<Seq<char>> {
    if trimmed(output).len() == 0 {
        None
    } else {
        Some(trimmed(output))
    }
}

/// Takes the diff between `branch` and `target` from what Git answers: the
/// answer without the white space around it. An answer that holds nothing
/// else is an error, which names the two branches.
pub fn diff_from_output(output: &str, branch: &str, target: &str) -> (r: Result<String, GitError>)
    ensures
        match r {
            Ok(diff) => diff_of(output@) == Some(diff@),
            Err(GitError::EmptyDiff(b, t)) => diff_of(output@) is None && b@ == branch@ && t@
                == target@,
            Err(_) => false,
        },
{
    let v = to_chars(output);
    let from = scan_run(&v, 0, Class::Space);
    let mut to: usize = v.len();
    while to > 0 && Class::Space.test(v[to - 1])
        invariant
            to <= v.len(),
            trim_end(v@, v.len() as int) == trim_end(v@, to as int),
        decreases to,
    {
        to -= 1;
    }
    if from < to {
        Ok(slice_string(&v, from, to))
    } else {
        Err(GitError::EmptyDiff(branch.to_string(), target.to_string()))
    }
}

/// The branch that the label of a pull request's head names: what follows
/// the first colon of the label, with a slash in place of every further
/// colon; nothing where the label holds no colon.
pub open spec fn branch_of_label(label: Seq<char>) -> Seq<char> {
    let first = first_colon(label, 0);
    if first >= label.len() {
        seq![]
    } else {
        label.subrange(first + 1, label.len() as int).map_values(
            |c: char| if c == ':' {
                '/'
            } else {
                c
            },
        )
    }
}

/// The index of the first colon at `i` or behind it; the length of the text
/// where there is none.
pub open spec fn first_colon(s: Seq<char>, i: int) -> int
    decreases s.len() - i,
{
    if i < 0 || i >= s.len() {
        s.len() as int
    } else if s[i] == ':' {
        i
    } else {
        first_colon(s, i + 1)
    }
}

/// Tests whether the label of a pull request's head names the branch.
pub fn label_names_branch(label: &str, branch: &str) -> (r: bool)
    ensures
        r == (branch_of_label(label@) == branch@),
{
    let v = to_chars(label);
    let mut first: usize = 0;
    while first < v.len() && v[first] != ':'
        invariant
            first <= v.len(),
            first_colon(v@, 0) == first_colon(v@, first as int),
        decreases v.len() - first,
    {
        first += 1;
    }
    let mut named = String::new();
    if first < v.len() {
        let ghost rest = v@.subrange(first + 1, v.len() as int);
        let mut i: usize = first + 1;
        while i < v.len()
            invariant
                first < i <= v.len(),
                rest == v@.subrange(first + 1, v.len() as int),
                named@ == rest.subrange(0, i - first - 1).map_values(
                    |c: char| if c == ':' {
                        '/'
                    } else {
                        c
                    },
                ),
            decreases v.len() - i,
        {
            let c = if v[i] == ':' {
                '/'
            } else {
                v[i]
            };
            crate::text::push_char(&mut named, c);
            i += 1;
            assert(named@ =~= rest.subrange(0, i - first - 1).map_values(
                |c: char| if c == ':' {
                    '/'
                } else {
                    c
                },
            ));
        }
        assert(rest.subrange(0, i - first - 1) == rest);
    }
    crate::text::same_text(named.as_str(), branch)
}

} // verus!
