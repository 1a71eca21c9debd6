//! What is read from a pull request at GitHub.

use crate::config::{first_index, short_names, Config, ConfigView};
use crate::entry::{category_check, check_category, check_description, description_check};
use crate::errors::GitHubError;
use crate::pattern::{capture, pattern_compiles, pattern_group};
use vstd::prelude::*;
use vstd::string::*;

verus! {

/// What a pull request tells about the entry that it is to get.
#[derive(Clone, Debug, Default, PartialEq)]
pub struct PRInfo {
    pub change_type: String,
    pub category: String,
    pub description: String,
    pub number: u64,
}

/// What a `PRInfo` holds.
pub struct PRInfoView {
    pub change_type: Seq<char>,
    pub category: Seq<char>,
    pub description: Seq<char>,
    pub number: nat,
}

impl DeepView for PRInfo {
    type V = PRInfoView;

    open spec fn deep_view(&self) -> PRInfoView {
        PRInfoView {
            change_type: self.change_type@,
            category: self.category@,
            description: self.description@,
            number: self.number as nat,
        }
    }
}

impl View for PRInfo {
    type V = PRInfoView;

    open spec fn view(&self) -> PRInfoView {
        self.deep_view()
    }
}

/// The pattern that divides the title of a pull request: a change type, a
/// category in round brackets, and a description behind a colon or white
/// space; the first two may be missing. It names no letter, so that case
/// makes no difference to it.
pub open spec fn title_pattern() -> Seq<char> {
    "^(?P<ct>\\w+)?\\s*(\\((?P<cat>\\w+)\\))?[:\\s]*(?P<desc>.+)$"@
}

/// What the title of a pull request tells: the short name of the change
/// type, where the configuration knows the one that the title begins with;
/// the category and the description as their checks leave them. What the
/// title does not hold is left empty.
pub open spec fn pr_info_of(config: ConfigView, title: Seq<char>, number: nat) -> PRInfoView {
    let at = match pattern_group(title_pattern(), title, 1) {
        Some(short) => first_index(
            short_names(config.change_types),
            short,
            config.change_types.len(),
        ),
        None => config.change_types.len(),
    };
    PRInfoView {
        change_type: if at < config.change_types.len() {
            config.change_types[at as int].short
        } else {
            seq![]
        },
        category: match pattern_group(title_pattern(), title, 3) {
            Some(category) => category_check(config, category).0,
            None => seq![],
        },
        description: match pattern_group(title_pattern(), title, 4) {
            Some(description) => description_check(config, description).0,
            None => seq![],
        },
        number,
    }
}

/// Reads the title of a pull request for the parts of its entry. The one
/// error is that of a pattern that cannot be compiled.
pub fn extract_pr_info(config: &Config, title: &str, number: u64) -> (r: Result<
    PRInfo,
    GitHubError,
>)
    ensures
        match r {
            Ok(info) => pattern_compiles(title_pattern()) && info@ == pr_info_of(
                config@,
                title@,
                number as nat,
            ),
            Err(GitHubError::InvalidRegex) => !pattern_compiles(title_pattern()),
        },
{
    let pattern = "^(?P<ct>\\w+)?\\s*(\\((?P<cat>\\w+)\\))?[:\\s]*(?P<desc>.+)$";
    let mut change_type = String::new();
    let mut category = String::new();
    let mut description = String::new();
    match capture(pattern, title, 1) {
        Err(_) => {
            return Err(GitHubError::InvalidRegex);
        },
        Ok(Some(short)) => {
            match config.get_short_change_type(short.as_str()) {
                Some(found) => {
                    change_type = found.short;
                },
                None => {},
            }
        },
        Ok(None) => {},
    }
    match capture(pattern, title, 3) {
        Err(_) => {
            return Err(GitHubError::InvalidRegex);
        },
        Ok(Some(found)) => {
            let (fixed, _) = check_category(config, found.as_str());
            category = fixed;
        },
        Ok(None) => {},
    }
    match capture(pattern, title, 4) {
        Err(_) => {
            return Err(GitHubError::InvalidRegex);
        },
        Ok(Some(found)) => {
            let (fixed, _) = check_description(config, found.as_str());
            description = fixed;
        },
        Ok(None) => {},
    }
    Ok(PRInfo { change_type, category, description, number })
}

/// The title of the pull request for an entry.
pub open spec fn pr_title_text(short: Seq<char>, category: Seq<char>, description: Seq<char>)
    -> Seq<char> {
    short + "("@ + category + "): "@ + description
}

/// Makes the title of the pull request for an entry from the short name of
/// its change type, its category and its description.
pub fn pr_title(short: &str, category: &str, description: &str) -> (title: String)
    ensures
        title@ == pr_title_text(short@, category@, description@),
{
    let mut title = String::from_str(short);
    title.append("(");
    title.append(category);
    title.append("): ");
    title.append(description);
    title
}

/// Whether the numbers stand in ascending order, none twice.
pub open spec fn ascending(numbers: Seq<u64>) -> bool {
    forall|i: int, j: int| 0 <= i < j < numbers.len() ==> numbers[i] < numbers[j]
}

/// Whether one of the first `n` pull requests has the number and was
/// merged.
pub open spec fn merged_among(pulls: Seq<(u64, bool)>, n: int, number: u64) -> bool {
    exists|i: int| 0 <= i < n && #[trigger] pulls[i] == (number, true)
}

/// Puts a number into numbers in ascending order, unless they hold it.
fn put_in_order(numbers: &mut Vec<u64>, number: u64)
    requires
        ascending(old(numbers)@),
    ensures
        ascending(final(numbers)@),
        forall|x: u64| #[trigger]
            final(numbers)@.contains(x) <==> (old(numbers)@.contains(x) || x == number),
{
    let ghost before = numbers@;
    let mut at: usize = 0;
    while at < numbers.len() && numbers[at] < number
        invariant
            at <= numbers.len(),
            numbers@ == before,
            forall|i: int| 0 <= i < at ==> before[i] < number,
        decreases numbers.len() - at,
    {
        at += 1;
    }
    if at < numbers.len() && numbers[at] == number {
        assert(before[at as int] == number);
        return ;
    }
    numbers.insert(at, number);
    assert(numbers@ == before.insert(at as int, number));
    assert forall|x: u64| #[trigger]
        numbers@.contains(x) <==> (before.contains(x) || x == number) by {
        if numbers@.contains(x) {
            let i = choose|i: int| 0 <= i < numbers@.len() && numbers@[i] == x;
            if i < at {
                assert(before[i] == x);
            } else if i > at {
                assert(before[i - 1] == x);
            }
        }
        if before.contains(x) {
            let i = choose|i: int| 0 <= i < before.len() && before[i] == x;
            if i < at {
                assert(numbers@[i] == x);
            } else {
                assert(numbers@[i + 1] == x);
            }
        }
        if x == number {
            assert(numbers@[at as int] == x);
        }
    }
}

/// The numbers of the pull requests that were merged, in ascending order,
/// none twice. Each pull request is given by its number and by whether it
/// was merged.
pub fn merged_pr_numbers(pulls: &Vec<(u64, bool)>) -> (numbers: Vec<u64>)
    ensures
        ascending(numbers@),
        forall|x: u64| #[trigger]
            numbers@.contains(x) <==> merged_among(pulls@, pulls@.len() as int, x),
{
    let mut numbers: Vec<u64> = Vec::new();
    let mut i: usize = 0;
    while i < pulls.len()
        invariant
            i <= pulls.len(),
            ascending(numbers@),
            forall|x: u64| #[trigger] numbers@.contains(x) <==> merged_among(pulls@, i as int, x),
        decreases pulls.len() - i,
    {
        let ghost before = numbers@;
        let pull = pulls[i];
        if pull.1 {
            put_in_order(&mut numbers, pull.0);
        }
        i += 1;
        assert forall|x: u64| #[trigger]
            numbers@.contains(x) <==> merged_among(pulls@, i as int, x) by {
            if merged_among(pulls@, i as int, x) {
                let k = choose|k: int| 0 <= k < i && #[trigger] pulls@[k] == (x, true);
                if k < i - 1 {
                    assert(merged_among(pulls@, i - 1, x));
                }
            }
            if before.contains(x) {
                assert(merged_among(pulls@, i - 1, x));
                let k = choose|k: int| 0 <= k < i - 1 && #[trigger] pulls@[k] == (x, true);
                assert(pulls@[k] == (x, true));
            }
            if pull.1 && x == pull.0 {
                assert(pulls@[i - 1] == (x, true));
            }
        }
    }
    numbers
}

} // verus!
