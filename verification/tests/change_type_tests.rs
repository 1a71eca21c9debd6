use clu::change_type::{build_pattern, new, new_empty_change_type, parse, split_change_type};
use clu::config::{ChangeTypeConfig, Config, Mode};
use clu::entry::Entry;
use clu::errors::ChangeTypeError;

fn load_test_config() -> Config {
    Config {
        categories: vec!["cli".to_string(), "test".to_string()],
        change_types: vec![
            ChangeTypeConfig { short: "fix".into(), long: "Bug Fixes".into() },
            ChangeTypeConfig { short: "feat".into(), long: "Features".into() },
            ChangeTypeConfig { short: "imp".into(), long: "Improvements".into() },
        ],
        commit_message: "add changelog entry".to_string(),
        changelog_path: "CHANGELOG.md".to_string(),
        changelog_dir: None,
        expected_spellings: vec![
            ("API".to_string(), "api".to_string()),
            ("CLI".to_string(), "cli".to_string()),
            ("Web-SDK".to_string(), r"web[-\s]*sdk".to_string()),
        ],
        legacy_version: Some("v0.0.1".to_string()),
        mode: Mode::Single,
        target_repo: "https://github.com/MalteHerrmann/changelog-utils".to_string(),
        use_categories: true,
        config_version: 1,
    }
}

#[test]
fn change_type_test_pass() {
    let example = "### Bug Fixes";
    let change_type =
        parse(load_test_config(), example).expect("unexpected error parsing change type");
    assert_eq!(change_type.fixed, example);
    assert_eq!(change_type.name, "Bug Fixes");
    assert!(change_type.problems.is_empty());
}

#[test]
fn change_type_test_wrong_whitespace() {
    let example = " ###  Bug Fixes";
    let change_type =
        parse(load_test_config(), example).expect("unexpected error parsing change type");
    assert_eq!(change_type.fixed, "### Bug Fixes");
    assert_eq!(change_type.name, "Bug Fixes");
    assert_eq!(
        change_type.problems,
        vec!["Change type line is malformed; should be: '### Bug Fixes'"]
    );
}

#[test]
fn change_type_test_fail_malformed_entry() {
    let example = "##jeaf";
    let err = parse(load_test_config(), example).expect_err("expected parsing to fail");
    assert_eq!(err, ChangeTypeError::NoMatchesFound);
}

#[test]
fn change_type_test_wrong_spelling() {
    let example = "### BugFixes";
    let change_type =
        parse(load_test_config(), example).expect("unexpected error parsing change type");
    assert_eq!(change_type.fixed, "### Bug Fixes");
    assert_eq!(change_type.name, "Bug Fixes");
    assert_eq!(
        change_type.problems,
        vec![
            "'Bug Fixes' should be used instead of 'BugFixes'",
            "Change type line is malformed; should be: '### Bug Fixes'"
        ]
    );
}

#[test]
fn change_type_test_invalid_change_type() {
    let example = "### invalid type";
    let change_type =
        parse(load_test_config(), example).expect("unexpected error parsing change type");
    assert_eq!(change_type.fixed, example);
    assert_eq!(change_type.name, "invalid type");
    assert_eq!(
        change_type.problems,
        vec!["'invalid type' is not a valid change type"]
    );
}

#[test]
fn change_type_pattern_of_a_name() {
    assert_eq!(build_pattern("Bug Fixes"), r"Bug\s*Fixes");
    assert_eq!(build_pattern("State  Machine\tBreaking"), r"State\s*Machine\s*Breaking");
    assert_eq!(build_pattern(" a "), r"\s*a\s*");
    assert_eq!(build_pattern(""), "");
}

#[test]
fn change_type_with_a_name_that_is_no_pattern() {
    let mut config = load_test_config();
    config.change_types.insert(
        0,
        ChangeTypeConfig { short: "x".into(), long: "Broken (".into() },
    );
    assert_eq!(
        parse(config, "### Bug Fixes").unwrap_err(),
        ChangeTypeError::InvalidRegex
    );
    // a pattern behind the one that is found is never compiled
    let mut config = load_test_config();
    config.change_types.push(ChangeTypeConfig { short: "x".into(), long: "Broken (".into() });
    assert!(parse(config, "### Bug Fixes").is_ok());
    assert_eq!(ChangeTypeError::InvalidRegex.to_string(), "invalid regex");
    assert_eq!(ChangeTypeError::NoMatchesFound.to_string(), "no matches found");
}

#[test]
fn change_type_grammar_edge_cases() {
    assert_eq!(split_change_type("### Bug Fixes"), Some("Bug Fixes".to_string()));
    assert_eq!(split_change_type("\t###Bug-Fixes 2\t"), Some("Bug-Fixes 2".to_string()));
    assert_eq!(split_change_type("### Bug Fixes  "), Some("Bug Fixes  ".to_string()));
    assert_eq!(split_change_type("### Bug Fixes!"), None);
    assert_eq!(split_change_type("###"), None);
    assert_eq!(split_change_type("###  "), None);
    assert_eq!(split_change_type("## Bug Fixes"), None);
    assert_eq!(split_change_type("#### Bug Fixes"), None);
    // the first configured change type that is found in the name counts
    let change_type = parse(load_test_config(), "### New features and improvements").unwrap();
    assert_eq!(change_type.name, "Features");
    assert_eq!(
        change_type.problems,
        vec![
            "'Features' should be used instead of 'New features and improvements'",
            "Change type line is malformed; should be: '### Features'",
        ]
    );
    // trailing spaces belong to the name
    let change_type = parse(load_test_config(), "### Features ").unwrap();
    assert_eq!(change_type.fixed, "### Features");
    assert_eq!(
        change_type.problems,
        vec![
            "'Features' should be used instead of 'Features '",
            "Change type line is malformed; should be: '### Features'",
        ]
    );
}

#[test]
fn change_type_constructors_and_contents() {
    let config = load_test_config();
    let empty = new_empty_change_type();
    assert_eq!(empty.name, "");
    assert_eq!(empty.fixed, "");
    assert!(empty.problems.is_empty());
    assert!(empty.entries.is_empty());
    let none = new("Features".to_string(), None);
    assert_eq!(none.fixed, "### Features");
    assert_eq!(none.get_fixed_contents(), "### Features\n\n");
    let some = new(
        "Bug Fixes".to_string(),
        Some(vec![
            Entry::new(&config, "cli", "One.", 1),
            Entry::new(&config, "test", "Two.", 2),
        ]),
    );
    assert_eq!(some.name, "Bug Fixes");
    assert_eq!(
        some.get_fixed_contents(),
        "### Bug Fixes\n\n- (cli) [#1](https://github.com/MalteHerrmann/changelog-utils/pull/1) One.\n- (test) [#2](https://github.com/MalteHerrmann/changelog-utils/pull/2) Two.\n"
    );
}
