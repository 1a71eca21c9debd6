use clu::config::{ChangeTypeConfig, Config, Mode};
use clu::entry::{
    build_fixed, check_category, check_description, check_link, check_spelling, check_whitespace,
    get_spelling_match, parse, split_entry, Entry,
};
use clu::errors::{EntryError, MatchError};

fn empty_config() -> Config {
    Config {
        categories: Vec::new(),
        change_types: Vec::new(),
        commit_message: String::new(),
        changelog_path: String::new(),
        changelog_dir: None,
        expected_spellings: Vec::new(),
        legacy_version: None,
        mode: Mode::Single,
        target_repo: String::new(),
        use_categories: false,
        config_version: 1,
    }
}

fn load_test_config() -> Config {
    Config {
        categories: vec!["cli".to_string(), "test".to_string()],
        change_types: vec![
            ChangeTypeConfig { short: "fix".into(), long: "Bug Fixes".into() },
            ChangeTypeConfig { short: "feat".into(), long: "Features".into() },
            ChangeTypeConfig { short: "imp".into(), long: "Improvements".into() },
        ],
        commit_message: "add changelog entry".to_string(),
        changelog_path: "CHANGELOG.md".to_string(),
        changelog_dir: None,
        expected_spellings: vec![
            ("API".to_string(), "api".to_string()),
            ("CLI".to_string(), "cli".to_string()),
            ("Web-SDK".to_string(), r"web[-\s]*sdk".to_string()),
        ],
        legacy_version: Some("v0.0.1".to_string()),
        mode: Mode::Single,
        target_repo: "https://github.com/MalteHerrmann/changelog-utils".to_string(),
        use_categories: true,
        config_version: 1,
    }
}

fn load_multi_file_config() -> Config {
    let mut config = empty_config();
    config.categories = vec!["dollar".to_string()];
    config.expected_spellings = vec![("$USDN".to_string(), r"\$*usdn".to_string())];
    config.mode = Mode::Multi;
    config.target_repo = "https://github.com/noble-assets/noble".to_string();
    config
}

#[test]
fn entry_test_pass() {
    // a whole entry
    let example = concat_entry();
    let entry_res = parse(&load_test_config(), &example);
    assert!(entry_res.is_ok());
    let entry = entry_res.unwrap();
    assert_eq!(entry.fixed, example);
    assert_eq!(entry.pr_number, 1);
    assert!(entry.problems.is_empty());

    // the category
    let (fixed, problems) = check_category(&load_test_config(), "cli");
    assert_eq!(fixed, "cli");
    assert!(problems.is_empty());

    // the link
    let example = r"https://github.com/MalteHerrmann/changelog-utils/pull/1";
    let (fixed, problems) = check_link(&load_test_config(), example, 1);
    assert_eq!(fixed, example);
    assert!(problems.is_empty());

    // the description
    let example = "Add Python implementation.";
    let (fixed, problems) = check_description(&load_test_config(), example);
    assert_eq!(fixed, example);
    assert!(problems.is_empty());

    // the spelling
    let mut test_config = empty_config();
    test_config.expected_spellings = vec![("API".to_string(), "api".to_string())];
    let example = "Fix API.";
    let (fixed, problems) = check_spelling(&test_config, example);
    assert_eq!(fixed, example);
    assert!(problems.is_empty());
    let (fixed, problems) = check_spelling(&load_test_config(), example);
    assert_eq!(fixed, example);
    assert!(problems.is_empty());

    // the word that is held against a spelling
    let found_res = get_spelling_match("api", "Fix API.");
    assert!(found_res.is_ok());
    let found = found_res.unwrap();
    assert_eq!(found, "API");

    // the gaps
    let example_spaces = ["", " ", " ", "", " "];
    assert!(check_whitespace(example_spaces).is_empty());
}

fn concat_entry() -> String {
    let mut s =
        "- (cli) [#1](https://github.com/MalteHerrmann/changelog-utils/pull/1) ".to_string();
    s.push_str("Add initial Python implementation.");
    s
}

#[test]
fn entry_test_fail_has_backslash_in_link() {
    let example = r"- (cli) [\#1](https://github.com/MalteHerrmann/changelog-utils/pull/1) Test.";
    let entry_res = parse(&load_test_config(), example);
    assert!(entry_res.is_ok());
    let entry = entry_res.unwrap();
    assert_eq!(entry.fixed, example.replace(r"\", ""));
    assert_eq!(entry.pr_number, 1);
    assert_eq!(entry.problems.len(), 1);
    assert_eq!(
        entry.problems[0],
        "There should be no backslash in front of the # in the PR link"
    );
}

#[test]
fn entry_test_fail_wrong_pr_link_and_missing_dot() {
    let example = r"- (cli) [#2](https://github.com/MalteHerrmann/changelog-utils/pull/1) Test";
    let fixed = r"- (cli) [#2](https://github.com/MalteHerrmann/changelog-utils/pull/2) Test.";
    let entry_res = parse(&load_test_config(), example);
    assert!(entry_res.is_ok());
    let entry = entry_res.unwrap();
    assert_eq!(entry.fixed, fixed);
    assert_eq!(entry.pr_number, 2);
    assert_eq!(entry.problems.len(), 2);
    assert_eq!(
        entry.problems,
        vec![
            "PR link is not matching PR number 2: 'https://github.com/MalteHerrmann/changelog-utils/pull/1'",
            "PR description should end with a dot: 'Test'"
        ]
    );
}

#[test]
fn entry_test_malformed_entry() {
    let example = r"- (cli) [#13tps://github.com/Ma/2";
    assert!(parse(&load_test_config(), example).is_err());
}

#[test]
fn entry_test_fail_wrong_whitespace() {
    let example =
        r"- (cli)   [#1] (https://github.com/MalteHerrmann/changelog-utils/pull/1) Run test.";
    let expected =
        r"- (cli) [#1](https://github.com/MalteHerrmann/changelog-utils/pull/1) Run test.";
    let entry_res = parse(&load_test_config(), example);
    assert!(entry_res.is_ok());
    let entry = entry_res.unwrap();
    assert_eq!(entry.fixed, expected);
    assert_eq!(entry.pr_number, 1);
    assert_eq!(entry.problems.len(), 2);
    assert_eq!(
        entry.problems,
        [
            "There should be exactly one space between the category and the PR link",
            "There should be no whitespace inside of the markdown link",
        ]
    );
}

#[test]
fn entry_test_fail_invalid_category() {
    let (fixed, problems) = check_category(&load_test_config(), "invalid");
    assert_eq!(fixed, "invalid");
    assert_eq!(problems, ["invalid change category: (invalid)"]);
}

#[test]
fn entry_test_fail_non_lower_category() {
    let (fixed, problems) = check_category(&load_test_config(), "cLi");
    assert_eq!(fixed, "cli");
    assert_eq!(problems, ["category should be lowercase: (cLi)"]);
}

#[test]
fn entry_test_wrong_base_url() {
    let example = r"https://github.com/MalteHerrmann/changelg-utils/pull/1";
    let (fixed, problems) = check_link(&load_test_config(), example, 1);
    assert_eq!(fixed, example.replace("changelg", "changelog"));
    assert_eq!(
        problems,
        vec![format!("PR link points to wrong repository: {}", example)]
    );
}

#[test]
fn entry_test_wrong_pr_number() {
    let example = r"https://github.com/MalteHerrmann/changelog-utils/pull/2";
    let (fixed, problems) = check_link(&load_test_config(), example, 1);
    assert_eq!(fixed, example.replace("2", "1"));
    assert_eq!(
        problems,
        vec![format!("PR link is not matching PR number {}: '{}'", 1, example)]
    );
}

#[test]
fn entry_test_pass_start_with_codeblock_instead_of_capital_letter() {
    let example = "`add` method implemented.";
    let (fixed, problems) = check_description(&load_test_config(), example);
    assert_eq!(fixed, example);
    assert!(problems.is_empty(), "expected no problems: {:?}", problems);
}

#[test]
fn entry_test_fail_start_with_lowercase() {
    let example = "add Python implementation.";
    let (fixed, problems) = check_description(&load_test_config(), example);
    assert_eq!(fixed, "Add Python implementation.");
    assert_eq!(
        problems,
        vec![format!("PR description should start with capital letter: '{}'", example)]
    );
}

#[test]
fn entry_test_fail_does_not_end_with_dot() {
    let example = "Add Python implementation";
    let (fixed, problems) = check_description(&load_test_config(), example);
    assert_eq!(fixed, example.to_string() + ".");
    assert_eq!(
        problems,
        vec![format!("PR description should end with a dot: '{}'", example)]
    );
}

#[test]
fn entry_test_wrong_spelling() {
    let example = "Fix web--SdK.";
    let (fixed, problems) = check_spelling(&load_test_config(), example);
    assert_eq!(fixed, "Fix Web-SDK.");
    assert_eq!(problems, ["'Web-SDK' should be used instead of 'web--SdK'"])
}

#[test]
fn entry_test_multiple_problems() {
    let example = "Fix aPi and ClI.";
    let (fixed, problems) = check_spelling(&load_test_config(), example);
    assert_eq!(fixed, "Fix API and CLI.");
    assert_eq!(problems.len(), 2);
    assert_eq!(problems[0], "'API' should be used instead of 'aPi'");
    assert_eq!(problems[1], "'CLI' should be used instead of 'ClI'");
}

#[test]
fn entry_test_pass_codeblocks() {
    let example = "Fix `ApI in codeblocks`.";
    let (fixed, problems) = check_spelling(&load_test_config(), example);
    assert_eq!(fixed, example);
    assert!(problems.is_empty());
}

#[test]
fn entry_test_pass_nested_word() {
    let example = "FixApI in another word.";
    let (fixed, problems) = check_spelling(&load_test_config(), example);
    assert_eq!(fixed, example);
    assert!(problems.is_empty());
}

#[test]
fn test_fail_usdn() {
    let example = "- Integrate our custom Dollar module, that enables the issuance of Noble's stablecoin $UsDN. ([#448](https://github.com/noble-assets/noble/pull/448))";
    let (_, problems) = check_spelling(&load_multi_file_config(), example);
    assert_eq!(problems, vec!["'$USDN' should be used instead of '$UsDN'"]);
}

#[test]
fn test_fail_usdn2() {
    let mut test_config = empty_config();
    test_config.expected_spellings = vec![("$USDN".to_string(), r#"\$*usdn"#.to_string())];

    let example = "- Integrate our custom Dollar module, that enables the issuance of Noble's stablecoin $UsDN. ([#448](https://github.com/noble-assets/noble/pull/448))";
    let (_, problems) = check_spelling(&test_config, example);
    assert_eq!(problems, vec!["'$USDN' should be used instead of '$UsDN'"]);
}

#[test]
fn entry_test_ignore_inside_codeblocks() {
    let found_err = get_spelling_match("api", "Fix `aPi in codeblocks`.")
        .expect_err("expected match in code block");
    assert_eq!(found_err, MatchError::MatchInCodeblock);
}

#[test]
fn entry_test_ignore_in_word() {
    let found_err =
        get_spelling_match("api", "FixApI in word.").expect_err("expected no match found error");
    assert_eq!(found_err, MatchError::NoMatchFound);
}

#[test]
fn entry_test_ignore_in_link() {
    let found_err = get_spelling_match("api", "Fix [abcdef](https://example/aPi.com)")
        .expect_err("expected no match found error");
    assert_eq!(found_err, MatchError::NoMatchFound);
}

#[test]
fn entry_test_fail_leading_space() {
    let example_spaces = [" ", " ", " ", "", " "];
    assert_eq!(
        check_whitespace(example_spaces),
        ["There should be no leading whitespace before the dash"]
    );
}

#[test]
fn entry_test_fail_space_between_category_and_link() {
    let example_spaces = ["", " ", "", "", " "];
    assert_eq!(
        check_whitespace(example_spaces),
        ["There should be exactly one space between the category and the PR link"]
    );
}

#[test]
fn entry_test_fail_multiple_spaces() {
    let example_spaces = ["", "", " ", "", " "];
    assert_eq!(
        check_whitespace(example_spaces),
        ["There should be exactly one space between the leading dash and the category"]
    );
}

#[test]
fn entry_test_fail_multiple_spaces_before_description() {
    let example_spaces = ["", " ", " ", "", "  "];
    assert_eq!(
        check_whitespace(example_spaces),
        ["There should be exactly one space between the PR link and the description"]
    );
}

#[test]
fn entry_test_fail_space_in_link() {
    let example_spaces = ["", " ", " ", " ", " "];
    assert_eq!(
        check_whitespace(example_spaces),
        ["There should be no whitespace inside of the markdown link"]
    );
}

#[test]
fn entry_round_trip_of_a_correct_line() {
    let input = "- (cli) [#1](https://github.com/Org/Repo/pull/1) Add initial implementation.";
    let mut config = load_test_config();
    config.target_repo = "https://github.com/Org/Repo".to_string();
    let entry = parse(&config, input).expect("a correct line is an entry");
    assert_eq!(entry.problems, Vec::<String>::new());
    assert_eq!(entry.fixed, input);
    assert_eq!(entry.category, "cli");
}

#[test]
fn entry_link_is_made_anew_from_the_number() {
    let (fixed, problems) = check_link(
        &load_test_config(),
        "https://github.com/MalteHerrmann/changelog-utils/pull/1",
        2,
    );
    assert_eq!(fixed, "https://github.com/MalteHerrmann/changelog-utils/pull/2");
    assert_eq!(
        problems,
        vec!["PR link is not matching PR number 2: 'https://github.com/MalteHerrmann/changelog-utils/pull/1'"]
    );
}

#[test]
fn entry_link_without_a_number_is_a_problem() {
    let (fixed, problems) = check_link(&load_test_config(), "", 7);
    assert_eq!(fixed, "https://github.com/MalteHerrmann/changelog-utils/pull/7");
    assert_eq!(
        problems,
        vec![
            "PR link points to wrong repository: ",
            "PR link is not matching PR number 7: ''"
        ]
    );
    let (_, problems) = check_link(
        &load_test_config(),
        "https://github.com/MalteHerrmann/changelog-utils/pull/+7",
        7,
    );
    assert!(problems.is_empty());
    let (_, problems) = check_link(
        &load_test_config(),
        "https://github.com/MalteHerrmann/changelog-utils/pull/7/",
        7,
    );
    assert_eq!(problems.len(), 1);
}

#[test]
fn entry_description_is_fixed_in_two_steps() {
    let (fixed, problems) = check_description(&load_test_config(), "add Python implementation");
    assert_eq!(fixed, "Add Python implementation.");
    assert_eq!(
        problems,
        vec![
            "PR description should start with capital letter: 'add Python implementation'",
            "PR description should end with a dot: 'add Python implementation'",
        ]
    );
}

#[test]
fn entry_description_edge_cases() {
    let (fixed, problems) = check_description(&load_test_config(), "");
    assert_eq!(fixed, ".");
    assert_eq!(problems, vec!["PR description should end with a dot: ''"]);
    let (fixed, problems) = check_description(&load_test_config(), "écrit.");
    assert_eq!(fixed, "écrit.");
    assert!(problems.is_empty());
    let (fixed, problems) = check_description(&load_test_config(), "x");
    assert_eq!(fixed, "X.");
    assert_eq!(problems.len(), 2);
}

#[test]
fn entry_spelling_exclusions() {
    let mut config = empty_config();
    config.expected_spellings = vec![("API".to_string(), "api".to_string())];
    let (fixed, problems) = check_spelling(&config, "Fix `aPi in codeblocks`.");
    assert_eq!(fixed, "Fix `aPi in codeblocks`.");
    assert!(problems.is_empty());
    let (fixed, problems) = check_spelling(&config, "FixApI in another word.");
    assert_eq!(fixed, "FixApI in another word.");
    assert!(problems.is_empty());
    let (fixed, problems) = check_spelling(&config, "Fix aPi.");
    assert_eq!(fixed, "Fix API.");
    assert_eq!(problems, vec!["'API' should be used instead of 'aPi'"]);
}

#[test]
fn entry_spelling_replaces_every_match_by_the_spelling_as_it_stands() {
    let mut config = empty_config();
    config.expected_spellings = vec![("$USDN".to_string(), r"\$*usdn".to_string())];
    let (fixed, problems) = check_spelling(&config, "Use usdn and $UsDn here.");
    assert_eq!(fixed, "Use $USDN and $USDN here.");
    assert_eq!(problems, vec!["'$USDN' should be used instead of 'usdn'"]);
}

#[test]
fn entry_spelling_with_a_pattern_that_is_none() {
    let mut config = empty_config();
    config.expected_spellings = vec![
        ("API".to_string(), "a(pi".to_string()),
        ("CLI".to_string(), "cli".to_string()),
    ];
    let (fixed, problems) = check_spelling(&config, "Fix api and cLi.");
    assert_eq!(fixed, "Fix api and CLI.");
    assert_eq!(problems, vec!["'CLI' should be used instead of 'cLi'"]);
    assert_eq!(
        get_spelling_match("a(pi", "Fix api.").unwrap_err(),
        MatchError::InvalidRegex
    );
    assert_eq!(MatchError::InvalidRegex.to_string(), "invalid regex");
    assert_eq!(MatchError::NoMatchFound.to_string(), "no match found");
    assert_eq!(
        MatchError::MatchInCodeblock.to_string(),
        "match is nested inside of code block"
    );
}

#[test]
fn entry_grammar_edge_cases() {
    let config = load_test_config();
    // a number that does not fit
    let line = "- (cli) [#99999999999999999999](l) Text.";
    assert_eq!(
        parse(&config, line).unwrap_err(),
        EntryError::InvalidEntry(line.to_string())
    );
    assert_eq!(
        parse(&config, line).unwrap_err().to_string(),
        format!("invalid entry: {}", line)
    );
    // the largest number that fits
    let line = "- (cli) [#18446744073709551615](l) Text.";
    assert_eq!(parse(&config, line).unwrap().pr_number, u64::MAX);
    // no description
    assert!(parse(&config, "- (cli) [#1](l)").is_err());
    // a description of white space only keeps its last character
    let parts = split_entry("- (cli) [#1](l)  \t").expect("an entry");
    assert_eq!(parts.spaces, vec!["", " ", " ", "", "  "]);
    assert_eq!(parts.description, "\t");
    // an empty category is none
    assert!(parse(&config, "- () [#1](l) Text.").is_err());
    // white space of any kind is a gap, and a problem
    let entry = parse(&config, "\t-\u{a0}(cli) [#1](l) Text.").unwrap();
    assert_eq!(
        entry.problems[..2],
        [
            "There should be no leading whitespace before the dash",
            "There should be exactly one space between the leading dash and the category",
        ]
    );
    // a line feed inside the description
    assert!(parse(&config, "- (cli) [#1](l) Text\nmore.").is_err());
    // leading zeros are dropped
    let entry = parse(
        &config,
        "- (cli) [#007](https://github.com/MalteHerrmann/changelog-utils/pull/7) Text.",
    )
    .unwrap();
    assert_eq!(entry.pr_number, 7);
    assert_eq!(
        entry.fixed,
        "- (cli) [#7](https://github.com/MalteHerrmann/changelog-utils/pull/7) Text."
    );
}

#[test]
fn entry_problems_come_in_the_order_of_the_checks() {
    let config = load_test_config();
    let entry = parse(&config, " - (Cat)  [\\#3] (https://example.com/pull/4)  fix aPi").unwrap();
    assert_eq!(
        entry.problems,
        vec![
            "There should be no leading whitespace before the dash",
            "There should be exactly one space between the category and the PR link",
            "There should be no whitespace inside of the markdown link",
            "There should be exactly one space between the PR link and the description",
            "category should be lowercase: (Cat)",
            "invalid change category: (Cat)",
            "There should be no backslash in front of the # in the PR link",
            "PR link points to wrong repository: https://example.com/pull/4",
            "PR link is not matching PR number 3: 'https://example.com/pull/4'",
            "PR description should start with capital letter: 'fix aPi'",
            "PR description should end with a dot: 'fix aPi'",
            "'API' should be used instead of 'aPi'",
        ]
    );
    assert_eq!(
        entry.fixed,
        "- (cat) [#3](https://github.com/MalteHerrmann/changelog-utils/pull/3) Fix API."
    );
    assert_eq!(entry.category, "cat");
}

#[test]
fn entry_new_builds_the_line() {
    let entry = Entry::new(&load_test_config(), "cli", "Add things.", 12);
    assert_eq!(
        entry.fixed,
        "- (cli) [#12](https://github.com/MalteHerrmann/changelog-utils/pull/12) Add things."
    );
    assert_eq!(entry.category, "cli");
    assert_eq!(entry.pr_number, 12);
    assert!(entry.problems.is_empty());
    assert_eq!(build_fixed("a", "b", "c", 0), "- (a) [#0](b) c");
}

#[test]
fn entry_category_in_other_scripts() {
    let mut config = empty_config();
    config.categories = vec!["äb".to_string()];
    let (fixed, problems) = check_category(&config, "ÄB");
    assert_eq!(fixed, "äb");
    assert_eq!(problems, vec!["category should be lowercase: (ÄB)"]);
}
