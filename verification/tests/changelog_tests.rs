use clu::change_type;
use clu::changelog::{
    add_to_problems, parse_changelog, scan_line, split_lines, Changelog, ScanMode, ScanState,
};
use clu::config::{ChangeTypeConfig, Config, Mode};
use clu::entry;
use clu::errors::{ChangeTypeError, ChangelogError, ReleaseError, VersionError};
use clu::escapes::LinterEscape;
use clu::release;

fn load_test_config() -> Config {
    Config {
        categories: vec!["cli".to_string(), "test".to_string()],
        change_types: vec![
            ChangeTypeConfig { short: "fix".into(), long: "Bug Fixes".into() },
            ChangeTypeConfig { short: "feat".into(), long: "Features".into() },
            ChangeTypeConfig { short: "imp".into(), long: "Improvements".into() },
        ],
        commit_message: "add changelog entry".to_string(),
        changelog_path: "CHANGELOG.md".to_string(),
        changelog_dir: None,
        expected_spellings: vec![
            ("API".to_string(), "api".to_string()),
            ("CLI".to_string(), "cli".to_string()),
            ("Web-SDK".to_string(), r"web[-\s]*sdk".to_string()),
        ],
        legacy_version: None,
        mode: Mode::Single,
        target_repo: "https://github.com/Org/Repo".to_string(),
        use_categories: true,
        config_version: 1,
    }
}

fn entry_line(category: &str, pr: u64, text: &str) -> String {
    format!("- ({}) [#{}](https://github.com/Org/Repo/pull/{}) {}", category, pr, pr, text)
}

fn release_line(version: &str) -> String {
    format!("## [{0}](https://github.com/Org/Repo/releases/tag/{0}) - 2024-04-27", version)
}

#[test]
fn changelog_test_pass() {
    let cfg = load_test_config();
    let example = entry_line("cli", 1, "Add initial Python implementation.");

    let mut cl = Changelog {
        path: "test".to_string(),
        fixed: Vec::new(),
        releases: Vec::new(),
        comments: Vec::new(),
        legacy_contents: Vec::new(),
        problems: Vec::new(),
    };
    let e = entry::parse(&cfg, &example).expect("failed to parse entry");
    let ct = change_type::parse(cfg.clone(), "### Bug Fixes").expect("failed to parse change type");

    let er = release_line("v0.1.0");
    let r = release::parse(&cfg, &er).expect("failed to parse release");

    cl.releases.push(r.clone());
    let mut_cr = cl.releases.get_mut(0).expect("failed to get last release");
    mut_cr.change_types.push(ct.clone());

    let mut_ct = mut_cr.change_types.get_mut(0).expect("failed to get last change type");
    mut_ct.entries.push(e);
    assert_eq!(
        mut_cr
            .change_types
            .get(0)
            .expect("failed to get first change type in assert")
            .entries
            .len(),
        1
    );
    assert_eq!(
        cl.releases
            .get(0)
            .expect("failed to get first release")
            .change_types
            .get(0)
            .expect("failed to get first change type in changelog")
            .entries
            .len(),
        1
    );
}

fn correct_document() -> String {
    [
        "<!--",
        "A comment at the head.",
        "-->",
        "",
        "# Changelog",
        "",
        "## Unreleased",
        "",
        "### Features",
        "",
        &entry_line("cli", 4, "Add a fourth thing."),
        &entry_line("test", 3, "Add a third thing."),
        "",
        "### Bug Fixes",
        "",
        &entry_line("cli", 2, "Fix the API."),
        "",
        &release_line("v0.1.0"),
        "",
        "### Features",
        "",
        &entry_line("cli", 1, "Add a first thing."),
        "",
    ]
    .join("\n")
}

#[test]
fn it_should_pass_for_correct_changelogs() {
    let contents = correct_document();
    let changelog = parse_changelog(&load_test_config(), "CHANGELOG.md", &contents)
        .expect("failed to parse correct changelog");
    assert_eq!(changelog.releases.len(), 2);
    assert!(changelog.problems.is_empty(), "{:?}", changelog.problems);

    let first_release = changelog.releases.get(0).unwrap();
    assert_eq!(first_release.change_types.len(), 2);
    assert_eq!(first_release.change_types.first().unwrap().entries.len(), 2);
    assert_eq!(changelog.path, "CHANGELOG.md");
    assert_eq!(changelog.comments, vec!["<!--", "A comment at the head.", "-->"]);
    assert!(changelog.legacy_contents.is_empty());
    // every line of a correct document stays as it is
    assert_eq!(changelog.fixed, split_lines(&contents));
    // and so does the document
    assert_eq!(changelog.get_fixed_contents().trim(), contents.replace("-->\n\n#", "-->\n#").trim());
    assert_eq!(changelog.get_fixed(), changelog.get_fixed_contents());
}

#[test]
fn it_should_pass_for_incorrect_changelogs_that_has_no_critical_flaws() {
    let contents = [
        "# Changelog",                                                     // 1
        "",                                                                // 2
        "## Unreleased",                                                   // 3
        "",                                                                // 4
        "### Improvements",                                                // 5
        "",                                                                // 6
        "- (cli) [#1948](https://github.com/Org/Repo/pull/1949) Add it.",  // 7
        "- (cli) [#1950](https://github.com/Org/Repo/pull/1950) Fix aPi.", // 8
        "- (cli) [#1862](https://github.com/Org/Repo/pull/1862) Fixed the problem `gas_used` is 0", // 9
        "",                                                                // 10
        "### Invalid Category",                                            // 11
        "",                                                                // 12
        "### Bug Fixes",                                                   // 13
        "",                                                                // 14
        "### Bug Fixes",                                                   // 15
        "",                                                                // 16
        "## [v15.0.0](https://github.com/Org/Repo/releases/tag/v15.0.0) - 2023-10-31", // 17
        "",                                                                // 18
        "## [v15.0.0](https://github.com/Org/Repo/releases/tag/v15.0.0) - 2023-10-31", // 19
        "",                                                                // 20
        "### Bug Fixes",                                                   // 21
        "",                                                                // 22
        "- (cli) [#1862](https://github.com/Org/Repo/pull/1862) Fix it.",  // 23
        "- another malformed entry in changelog",                          // 24
    ]
    .join("\n");
    let changelog = parse_changelog(&load_test_config(), "tests/changelog_fail.md", &contents)
        .expect("failed to parse incorrect changelog");
    assert_eq!(changelog.releases.len(), 3);
    assert_eq!(
        changelog.problems,
        vec![
            "tests/changelog_fail.md:7: PR link is not matching PR number 1948: 'https://github.com/Org/Repo/pull/1949'",
            "tests/changelog_fail.md:8: 'API' should be used instead of 'aPi'",
            "tests/changelog_fail.md:9: PR description should end with a dot: 'Fixed the problem `gas_used` is 0'",
            "tests/changelog_fail.md:11: 'Invalid Category' is not a valid change type",
            "tests/changelog_fail.md:15: duplicate change type in release Unreleased: Bug Fixes",
            "tests/changelog_fail.md:19: duplicate release: v15.0.0",
            "tests/changelog_fail.md:23: duplicate PR: #1862",
            "tests/changelog_fail.md:24: invalid entry: - another malformed entry in changelog",
        ]
    );
    // both sections of the change type seen twice are kept
    assert_eq!(changelog.releases[0].change_types.len(), 4);
}

#[test]
fn it_should_fix_the_changelog_as_expected() {
    let contents = [
        "<!-- A comment. -->",
        "#  Changelog",
        " ##  unreleased",
        "###  bug fixes",
        "- (CLI)  [\\#2] (https://github.com/Org/Repo/pull/3) fix the aPi",
        "- not an entry",
        "some text",
        "##   [v0.1.0]   -   2024-04-27",
        "### Features",
        "-   (test) [#1](https://github.com/Org/Repo/pull/1) Add a first thing.",
    ]
    .join("\n");
    let changelog = parse_changelog(&load_test_config(), "CHANGELOG.md", &contents)
        .expect("failed to parse changelog");

    let expected = [
        "<!-- A comment. -->",
        "# Changelog",
        "",
        "## Unreleased",
        "",
        "### Bug Fixes",
        "",
        "- (cli) [#2](https://github.com/Org/Repo/pull/2) Fix the API.",
        "",
        "## [v0.1.0](https://github.com/Org/Repo/releases/tag/v0.1.0) - 2024-04-27",
        "",
        "### Features",
        "",
        "- (test) [#1](https://github.com/Org/Repo/pull/1) Add a first thing.",
        "",
    ]
    .join("\n");

    assert_eq!(
        expected.trim(),
        changelog.get_fixed_contents().trim(),
        "expected different fixed changelog"
    );
    // line by line, what is no header and no entry stays as it was found
    assert_eq!(
        changelog.fixed,
        vec![
            "<!-- A comment. -->",
            "#  Changelog",
            "## Unreleased",
            "### Bug Fixes",
            "- (cli) [#2](https://github.com/Org/Repo/pull/2) Fix the API.",
            "- not an entry",
            "some text",
            "## [v0.1.0](https://github.com/Org/Repo/releases/tag/v0.1.0) - 2024-04-27",
            "### Features",
            "- (test) [#1](https://github.com/Org/Repo/pull/1) Add a first thing.",
        ]
    );
    // fixing what was fixed changes nothing
    let fixed = changelog.get_fixed_contents();
    let again = parse_changelog(&load_test_config(), "CHANGELOG.md", &fixed).unwrap();
    assert_eq!(again.problems, Vec::<String>::new());
    assert_eq!(again.get_fixed_contents(), fixed);
}

#[test]
fn changelog_duplicate_prs_are_found_across_releases() {
    let contents = [
        "## Unreleased".to_string(),
        "### Features".to_string(),
        entry_line("cli", 5, "Add it."),
        release_line("v0.1.0"),
        "### Features".to_string(),
        entry_line("cli", 5, "Add it again."),
        entry_line("cli", 6, "Add more."),
    ]
    .join("\n");
    let config = load_test_config();
    assert!(entry::parse(&config, &entry_line("cli", 5, "Add it.")).unwrap().problems.is_empty());
    assert!(entry::parse(&config, &entry_line("cli", 5, "Add it again.")).unwrap().problems.is_empty());
    let changelog = parse_changelog(&config, "c.md", &contents).unwrap();
    assert_eq!(changelog.problems, vec!["c.md:6: duplicate PR: #5"]);
    assert_eq!(changelog.releases[0].change_types[0].entries.len(), 1);
    assert_eq!(changelog.releases[1].change_types[0].entries.len(), 2);
}

#[test]
fn changelog_legacy_cutover() {
    let mut config = load_test_config();
    config.legacy_version = Some("v1.0.0".to_string());
    let contents = [
        "## Unreleased",
        "## [v1.0.1](https://github.com/Org/Repo/releases/tag/v1.0.1) - 2024-04-27",
        "### Features",
        "- (cli) [#2](https://github.com/Org/Repo/pull/2) Add it.",
        "## [v0.9.0](https://example.com) - 2023-04-27",
        "### whatever this is",
        "- broken entry",
        "## [v2.0.0] - 2025-01-01",
        "",
    ]
    .join("\n");
    let changelog = parse_changelog(&config, "c.md", &contents).unwrap();
    assert_eq!(changelog.releases.len(), 3);
    assert_eq!(changelog.releases[2].version, "v0.9.0");
    assert!(changelog.releases[2].change_types.is_empty());
    // the header of the legacy release is still checked, nothing behind it is
    assert_eq!(
        changelog.problems,
        vec!["c.md:5: Release link should point to the GitHub release for v0.9.0; expected: 'https://github.com/Org/Repo/releases/tag/v0.9.0'; got: 'https://example.com'"]
    );
    assert_eq!(
        changelog.legacy_contents,
        vec!["### whatever this is", "- broken entry", "## [v2.0.0] - 2025-01-01"]
    );
    assert!(changelog.get_fixed_contents().ends_with(
        "## [v0.9.0](https://github.com/Org/Repo/releases/tag/v0.9.0) - 2023-04-27\n### whatever this is\n- broken entry\n## [v2.0.0] - 2025-01-01\n"
    ));
}

#[test]
fn changelog_escape_silences_one_entry_only() {
    let contents = [
        "## Unreleased",
        "### Features",
        "- (cli) [#1](https://github.com/Org/Repo/pull/1) Add one.",
        "<!-- clu-disable-next-line -->",
        "- this is no entry",
        "- this is none either",
        "<!-- clu-disable-next-line: the link is meant to differ -->",
        "- (cli) [#2](https://github.com/Org/Repo/pull/3) add two",
        "- (cli) [#4](https://github.com/Org/Repo/pull/3) Add four.",
    ]
    .join("\n");
    let changelog = parse_changelog(&load_test_config(), "c.md", &contents).unwrap();
    assert_eq!(
        changelog.problems,
        vec![
            "c.md:6: invalid entry: - this is none either",
            "c.md:9: PR link is not matching PR number 4: 'https://github.com/Org/Repo/pull/3'",
        ]
    );
    // the silenced entry is fixed all the same
    assert_eq!(
        changelog.releases[0].change_types[0].entries[1].fixed,
        "- (cli) [#2](https://github.com/Org/Repo/pull/2) Add two."
    );
    assert_eq!(changelog.releases[0].change_types[0].entries[1].problems.len(), 3);
    assert_eq!(changelog.fixed[4], "- this is no entry");
    assert_eq!(changelog.fixed[5], "- this is none either");
}

#[test]
fn changelog_escape_for_duplicate_prs() {
    let contents = [
        "## Unreleased",
        "### Features",
        "- (cli) [#1](https://github.com/Org/Repo/pull/1) Add one.",
        "<!-- clu-disable-next-line-duplicate-pr -->",
        "- (cli) [#1](https://github.com/Org/Repo/pull/1) add one again.",
        "- (cli) [#1](https://github.com/Org/Repo/pull/1) Add one once more.",
        "<!-- clu-disable-next-line -->",
        "- (cli) [#1](https://github.com/Org/Repo/pull/1) add one a fourth time.",
        "<!-- clu-disable-next-line-duplicate-pr -->",
        "### Bug Fixes",
        "- (cli) [#1](https://github.com/Org/Repo/pull/1) Add one a fifth time.",
    ]
    .join("\n");
    let changelog = parse_changelog(&load_test_config(), "c.md", &contents).unwrap();
    assert_eq!(
        changelog.problems,
        vec![
            "c.md:5: PR description should start with capital letter: 'add one again.'",
            "c.md:6: duplicate PR: #1",
            "c.md:11: duplicate PR: #1",
        ]
    );
}

#[test]
fn changelog_comments() {
    let contents = [
        "<!-- one -->",
        "<!--",
        "## Unreleased",
        "- not read",
        "--> <!-- clu-disable-next-line -->",
        "- silenced",
        "## Unreleased",
        "<!-- after the first release -->",
        "<!-- never closed",
        "### Features",
    ]
    .join("\n");
    let changelog = parse_changelog(&load_test_config(), "c.md", &contents).unwrap();
    assert_eq!(
        changelog.comments,
        vec![
            "<!-- one -->",
            "<!--",
            "## Unreleased",
            "- not read",
            "--> <!-- clu-disable-next-line -->",
        ]
    );
    assert_eq!(changelog.problems, Vec::<String>::new());
    assert_eq!(changelog.releases.len(), 1);
    assert_eq!(changelog.releases[0].change_types.len(), 1);
    assert_eq!(changelog.fixed.len(), 10);
}

#[test]
fn changelog_comments_behind_the_first_release() {
    let contents = [
        "## Unreleased",
        "### Features",
        "- (cli) [#1](https://github.com/Org/Repo/pull/1) Add one. <!-- a note -->",
        "- (cli) [#2](https://github.com/Org/Repo/pull/2) add two <!-- not closed",
        "### features <!--",
        "- (cli) [#3](https://github.com/Org/Repo/pull/3) add three",
    ]
    .join("\n");
    let changelog = parse_changelog(&load_test_config(), "c.md", &contents).unwrap();
    // a line that opens a comment is passed over, and opens nothing
    assert_eq!(
        changelog.problems,
        vec![
            "c.md:6: PR description should start with capital letter: 'add three'",
            "c.md:6: PR description should end with a dot: 'add three'",
        ]
    );
    assert!(changelog.comments.is_empty());
    assert_eq!(changelog.releases[0].change_types.len(), 1);
    assert_eq!(changelog.releases[0].change_types[0].entries.len(), 1);
    assert_eq!(changelog.fixed[2], split_lines(&contents)[2]);
    assert!(changelog.has_problems());
}

#[test]
fn changelog_fixed_line_by_line() {
    let contents = [
        "<!-- A comment. -->",
        "#  Changelog",
        "",
        " ##  unreleased",
        "###  bug fixes",
        "- (CLI)  [\\#2] (https://github.com/Org/Repo/pull/3) fix the aPi",
        "- not an entry",
        "some text",
    ]
    .join("\n");
    let config = load_test_config();
    let changelog = parse_changelog(&config, "c.md", &contents).unwrap();
    let fixed = changelog.get_fixed_lines();
    assert_eq!(
        fixed,
        "<!-- A comment. -->\n#  Changelog\n\n## Unreleased\n### Bug Fixes\n- (cli) [#2](https://github.com/Org/Repo/pull/2) Fix the API.\n- not an entry\nsome text\n"
    );
    // fixing what was fixed changes nothing
    let again = parse_changelog(&config, "c.md", &fixed).unwrap();
    assert_eq!(again.get_fixed_lines(), fixed);
    assert_eq!(again.problems, vec!["c.md:7: invalid entry: - not an entry"]);
}

#[test]
fn changelog_lines_that_no_fix_settles() {
    let config = load_test_config();
    // a description of white space only is fixed once more
    let contents = "## Unreleased\n### Features\n- (cli) [#1](https://github.com/Org/Repo/pull/1)  \t\n";
    let first = parse_changelog(&config, "c.md", contents).unwrap().get_fixed_contents();
    let second = parse_changelog(&config, "c.md", &first).unwrap().get_fixed_contents();
    assert!(first.ends_with("/pull/1) \t.\n"));
    assert!(second.ends_with("/pull/1) .\n"));
    // a comment that is never closed takes the title in
    let first = parse_changelog(&config, "c.md", "<!--\n").unwrap().get_fixed_contents();
    let second = parse_changelog(&config, "c.md", &first).unwrap().get_fixed_contents();
    assert_eq!(first, "<!--\n# Changelog\n");
    assert_eq!(second, "<!--\n# Changelog\n# Changelog\n");
}

#[test]
fn changelog_headers_that_follow_no_grammar_are_kept() {
    let contents = ["## Unreleased", "## what is this", "### Bug Fixes!", "### Features"].join("\n");
    let changelog = parse_changelog(&load_test_config(), "c.md", &contents).unwrap();
    assert_eq!(changelog.problems, Vec::<String>::new());
    assert_eq!(changelog.releases.len(), 1);
    assert_eq!(changelog.releases[0].change_types.len(), 1);
    assert_eq!(changelog.fixed, split_lines(&contents));
}

#[test]
fn changelog_entries_without_a_place() {
    let contents = [
        "- (cli) [#1](https://github.com/Org/Repo/pull/1) add one.",
        "### Features",
        "## Unreleased",
        "- (cli) [#2](https://github.com/Org/Repo/pull/2) Add two.",
        "- (cli) [#1](https://github.com/Org/Repo/pull/1) Add one.",
        "### Features",
        "### Features",
    ]
    .join("\n");
    let changelog = parse_changelog(&load_test_config(), "c.md", &contents).unwrap();
    assert_eq!(
        changelog.problems,
        vec![
            "c.md:1: PR description should start with capital letter: 'add one.'",
            "c.md:5: duplicate PR: #1",
            "c.md:7: duplicate change type in release Unreleased: Features",
        ]
    );
    assert_eq!(changelog.releases.len(), 1);
    assert_eq!(changelog.releases[0].change_types.len(), 2);
    assert!(changelog.releases[0].change_types[0].entries.is_empty());
    assert_eq!(
        changelog.fixed[0],
        "- (cli) [#1](https://github.com/Org/Repo/pull/1) Add one."
    );
}

#[test]
fn changelog_errors_of_the_configuration() {
    let mut config = load_test_config();
    config.legacy_version = Some("one".to_string());
    let contents = "## Unreleased\n## [v1.0.0] - 2024-01-01\n";
    assert_eq!(
        parse_changelog(&config, "c.md", contents).unwrap_err(),
        ChangelogError::InvalidRelease(ReleaseError::InvalidVersion(VersionError::NoMatchFound))
    );
    assert!(parse_changelog(&config, "c.md", "## Unreleased\n").is_ok());
    let mut config = load_test_config();
    config.change_types[0].long = "Bug (Fixes".to_string();
    let err = parse_changelog(&config, "c.md", "### Features\n").unwrap_err();
    assert_eq!(err, ChangelogError::InvalidChangeType(ChangeTypeError::InvalidRegex));
    assert_eq!(err.to_string(), "failed to parse change type: invalid regex");
    assert_eq!(
        ChangelogError::InvalidRelease(ReleaseError::NoMatchFound).to_string(),
        "failed to parse release: no release pattern found in line"
    );
}

#[test]
fn changelog_lines_of_a_text() {
    assert_eq!(split_lines(""), Vec::<String>::new());
    assert_eq!(split_lines("\n"), vec![""]);
    assert_eq!(split_lines("a"), vec!["a"]);
    assert_eq!(split_lines("a\n"), vec!["a"]);
    assert_eq!(split_lines("a\n\nb"), vec!["a", "", "b"]);
    assert_eq!(split_lines("a\r\nb\r\n"), vec!["a", "b"]);
    assert_eq!(split_lines("a\rb\r"), vec!["a\rb\r"]);
    assert_eq!(split_lines("a\r\r\n\r"), vec!["a\r", "\r"]);
    for text in ["", "\n", "a", "a\n", "a\n\nb", "a\r\nb\r\n", "a\rb\r", "a\r\r\n\r", "\r\n\r\n"] {
        let expected: Vec<String> = text.lines().map(|l| l.to_string()).collect();
        assert_eq!(split_lines(text), expected);
    }
}

#[test]
fn changelog_problems_with_their_place() {
    let mut problems: Vec<String> = Vec::new();
    add_to_problems(&mut problems, "dir/file.md", Some(0), "first");
    add_to_problems(&mut problems, "dir/file.md", Some(41), "second");
    add_to_problems(&mut problems, "dir/file.md", None, "third");
    assert_eq!(
        problems,
        vec!["dir/file.md:1: first", "dir/file.md:42: second", "dir/file.md: third"]
    );
}

#[test]
fn changelog_one_line_at_a_time() {
    let config = load_test_config();
    let mut state = ScanState::new();
    let mut changelog = Changelog::new("c.md");
    assert_eq!(state.mode, ScanMode::Normal);
    scan_line(&config, &mut state, &mut changelog, 0, "<!-- clu-disable-next-line -->").unwrap();
    assert_eq!(state.escape, Some(LinterEscape::FullLine));
    scan_line(&config, &mut state, &mut changelog, 1, "<!-- clu-disable-next-line-duplicate-pr -->").unwrap();
    assert_eq!(state.escape, Some(LinterEscape::DuplicatePR));
    scan_line(&config, &mut state, &mut changelog, 2, "some text").unwrap();
    assert_eq!(state.escape, Some(LinterEscape::DuplicatePR));
    scan_line(&config, &mut state, &mut changelog, 3, "## Unreleased").unwrap();
    assert_eq!(state.escape, None);
    assert_eq!(state.seen_releases, vec!["Unreleased"]);
    scan_line(&config, &mut state, &mut changelog, 4, "### Features").unwrap();
    assert_eq!(state.seen_change_types, vec!["Features"]);
    scan_line(&config, &mut state, &mut changelog, 5, "- (cli) [#9](https://github.com/Org/Repo/pull/9) Add.").unwrap();
    assert_eq!(state.seen_prs, vec![9]);
    scan_line(&config, &mut state, &mut changelog, 6, "<!--").unwrap();
    assert_eq!(state.mode, ScanMode::Normal);
    let mut legacy = load_test_config();
    legacy.legacy_version = Some("v9.0.0".to_string());
    scan_line(&legacy, &mut state, &mut changelog, 7, "## [v1.0.0] - 2024-01-01").unwrap();
    assert_eq!(state.mode, ScanMode::InLegacyPassthrough);
    assert!(state.seen_change_types.is_empty());
    assert_eq!(state.seen_prs, vec![9]);
    scan_line(&legacy, &mut state, &mut changelog, 8, "## Unreleased").unwrap();
    assert_eq!(changelog.legacy_contents, vec!["## Unreleased"]);
    assert_eq!(changelog.releases.len(), 2);
    assert_eq!(changelog.problems, vec!["c.md:8: Release link is missing for version v1.0.0"]);
}
