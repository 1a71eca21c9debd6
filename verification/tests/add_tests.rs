use clu::add::{add_entry, check_pr_duplicate, release_holds_pr, should_get_user_input};
use clu::changelog::{get_settings_from_existing_changelog, parse_changelog};
use clu::check_diff::{check_diff, get_additions};
use clu::config::{ChangeTypeConfig, Config, Mode};
use clu::errors::{CheckDiffError, EntryError, GetError, LintError, ReleaseCLIError};
use clu::get::get;
use clu::init::create_empty_changelog;
use clu::lint::{lint, outcome};
use clu::release_cli::release;
use clu::version::Version;

fn load_example_config() -> Config {
    Config {
        categories: vec!["all".to_string(), "evm".to_string(), "test".to_string()],
        change_types: vec![
            ChangeTypeConfig { short: "stat".into(), long: "State Machine Breaking".into() },
            ChangeTypeConfig { short: "api".into(), long: "API Breaking".into() },
            ChangeTypeConfig { short: "impr".into(), long: "Improvements".into() },
            ChangeTypeConfig { short: "bug".into(), long: "Bug Fixes".into() },
        ],
        commit_message: "add changelog entry".to_string(),
        changelog_path: "CHANGELOG.md".to_string(),
        changelog_dir: None,
        expected_spellings: vec![
            ("ABI".to_string(), "abi".to_string()),
            ("API".to_string(), "api".to_string()),
        ],
        legacy_version: Some("v10.0.0".to_string()),
        mode: Mode::Single,
        target_repo: "https://github.com/evmos/evmos".to_string(),
        use_categories: true,
        config_version: 1,
    }
}

fn changelog_with_unreleased() -> String {
    [
        "# Changelog",
        "",
        "## Unreleased",
        "",
        "### State Machine Breaking",
        "",
        "- (evm) [#1](https://github.com/evmos/evmos/pull/1) Change one.",
        "",
        "### Improvements",
        "",
        "- (evm) [#2](https://github.com/evmos/evmos/pull/2) Improve two.",
        "",
        "## [v15.0.0](https://github.com/evmos/evmos/releases/tag/v15.0.0) - 2023-10-31",
        "",
        "### Bug Fixes",
        "",
        "- (evm) [#3](https://github.com/evmos/evmos/pull/3) Fix three.",
        "",
    ]
    .join("\n")
}

fn changelog_without_unreleased() -> String {
    [
        "# Changelog",
        "",
        "## [v15.0.0](https://github.com/evmos/evmos/releases/tag/v15.0.0) - 2023-10-31",
        "",
        "### Bug Fixes",
        "",
        "- (evm) [#3](https://github.com/evmos/evmos/pull/3) Fix three.",
        "",
        "## [v14.0.0](https://github.com/evmos/evmos/releases/tag/v14.0.0) - 2023-09-30",
        "",
    ]
    .join("\n")
}

#[test]
fn test_pass_add_into_new_change_type() {
    let config = load_example_config();
    let mut changelog = parse_changelog(&config, "CHANGELOG.md", &changelog_with_unreleased())
        .expect("failed to parse example changelog");
    assert_eq!(changelog.releases.len(), 2);

    add_entry(&config, &mut changelog, "Bug Fixes", "test", "Test object.", 15).unwrap();

    let first_release = changelog.releases.get(0).unwrap();
    assert_eq!(first_release.change_types.len(), 3);
    let new_change_type = first_release.change_types.get(2).unwrap();
    assert_eq!(new_change_type.name, "Bug Fixes");
    assert_eq!(new_change_type.entries.len(), 1);

    let added_entry = new_change_type.entries.get(0).unwrap();
    assert_eq!(added_entry.pr_number, 15);
    assert_eq!(
        added_entry.fixed,
        "- (test) [#15](https://github.com/evmos/evmos/pull/15) Test object."
    );
}

#[test]
fn test_pass_add_with_no_unreleased_section() {
    let config = load_example_config();
    let mut changelog = parse_changelog(&config, "CHANGELOG.md", &changelog_without_unreleased())
        .expect("failed to parse example changelog");
    assert_eq!(changelog.releases.len(), 2);

    add_entry(&config, &mut changelog, "Bug Fixes", "test", "Test object.", 15).unwrap();

    assert_eq!(changelog.releases.len(), 3);
    let first_release = changelog.releases.get(0).unwrap();
    assert_eq!(first_release.change_types.len(), 1);
    let new_change_type = first_release.change_types.get(0).unwrap();
    assert_eq!(new_change_type.name, "Bug Fixes");
    assert_eq!(new_change_type.entries.len(), 1);

    let added_entry = new_change_type.entries.get(0).unwrap();
    assert_eq!(added_entry.pr_number, 15);
    assert_eq!(
        added_entry.fixed,
        "- (test) [#15](https://github.com/evmos/evmos/pull/15) Test object."
    );
}

#[test]
fn test_pass_add_new_with_auto_fix() {
    let config = load_example_config();
    let mut changelog = parse_changelog(&config, "CHANGELOG.md", &changelog_with_unreleased())
        .expect("failed to parse example changelog");
    assert_eq!(changelog.releases.len(), 2);

    add_entry(
        &config,
        &mut changelog,
        "Bug Fixes",
        "all",
        "adding an entry that's auto-fixable",
        15,
    )
    .unwrap();

    // what would be written is read again
    let written = changelog.get_fixed_contents();
    let updated_changelog = parse_changelog(&config, "CHANGELOG.md", &written).unwrap();
    let added_entry = updated_changelog
        .releases
        .get(0)
        .unwrap()
        .change_types
        .get(2)
        .unwrap()
        .entries
        .get(0)
        .unwrap();

    let expected: Vec<String> = vec![];
    assert_eq!(
        added_entry.problems, expected,
        "expected line to have been corrected before writing to changelog."
    );
    assert_eq!(
        added_entry.fixed,
        "- (all) [#15](https://github.com/evmos/evmos/pull/15) Adding an entry that's auto-fixable."
    );
}

#[test]
fn add_entry_goes_to_the_head_of_its_change_type() {
    let config = load_example_config();
    let mut changelog =
        parse_changelog(&config, "CHANGELOG.md", &changelog_with_unreleased()).unwrap();
    add_entry(&config, &mut changelog, "Improvements", "evm", "Improve more.", 16).unwrap();
    let entries = &changelog.releases[0].change_types[1].entries;
    assert_eq!(entries.len(), 2);
    assert_eq!(entries[0].pr_number, 16);
    assert_eq!(entries[1].pr_number, 2);
    assert_eq!(changelog.releases[0].change_types.len(), 2);
    assert_eq!(changelog.releases[1].change_types[0].entries.len(), 1);
}

#[test]
fn add_entry_with_parts_that_make_no_entry() {
    let config = load_example_config();
    let mut changelog =
        parse_changelog(&config, "CHANGELOG.md", &changelog_with_unreleased()).unwrap();
    let before = changelog.get_fixed_contents();
    assert_eq!(
        add_entry(&config, &mut changelog, "Improvements", "no category", "Text.", 16),
        Err(EntryError::InvalidEntry(
            "- (no category) [#16](https://github.com/evmos/evmos/pull/16) Text.".to_string()
        ))
    );
    assert_eq!(changelog.get_fixed_contents(), before);
    assert!(add_entry(&config, &mut changelog, "Improvements", "evm", "A\nB.", 16).is_err());
    assert_eq!(changelog.get_fixed_contents(), before);
}

#[test]
fn add_user_input() {
    assert!(should_get_user_input(false, false));
    assert!(should_get_user_input(false, true));
    assert!(should_get_user_input(true, false));
    assert!(!should_get_user_input(true, true));
}

#[test]
fn add_duplicate_pr() {
    let config = load_example_config();
    let changelog = parse_changelog(&config, "CHANGELOG.md", &changelog_with_unreleased()).unwrap();
    assert!(check_pr_duplicate(&changelog, 1));
    assert!(check_pr_duplicate(&changelog, 2));
    assert!(check_pr_duplicate(&changelog, 3));
    assert!(!check_pr_duplicate(&changelog, 4));
    assert!(release_holds_pr(&changelog.releases[0], 2));
    assert!(!release_holds_pr(&changelog.releases[0], 3));
}

#[test]
fn check_diff_finds_the_entry_of_the_pull_request() {
    let config = load_example_config();
    let changelog = parse_changelog(&config, "CHANGELOG.md", &changelog_with_unreleased()).unwrap();
    let diff = [
        "diff --git a/CHANGELOG.md b/CHANGELOG.md",
        "--- a/CHANGELOG.md",
        "+++ b/CHANGELOG.md",
        "@@ -7,6 +7,7 @@",
        " ### Improvements",
        "+- (evm) [#2](https://github.com/evmos/evmos/pull/2) Improve two.",
        "-removed",
    ]
    .join("\n");
    assert_eq!(
        get_additions(&diff),
        vec![
            "++ b/CHANGELOG.md",
            "- (evm) [#2](https://github.com/evmos/evmos/pull/2) Improve two."
        ]
    );
    assert_eq!(check_diff(&changelog, &diff, 2), Ok(()));
    // in the changelog, but not added by the diff
    assert_eq!(check_diff(&changelog, &diff, 1), Err(CheckDiffError::NoEntry));
    // released already
    assert_eq!(check_diff(&changelog, &diff, 3), Err(CheckDiffError::NoEntry));
    // a number that only begins like the one looked for
    assert_eq!(check_diff(&changelog, &diff.replace("#2]", "#21]"), 2), Err(CheckDiffError::NoEntry));
    let released = parse_changelog(&config, "CHANGELOG.md", &changelog_without_unreleased()).unwrap();
    assert_eq!(check_diff(&released, &diff, 2), Err(CheckDiffError::NoUnreleased));
    assert_eq!(CheckDiffError::NoEntry.to_string(), "no unreleased entry found for pr");
    assert_eq!(CheckDiffError::NoUnreleased.to_string(), "no unreleased section in changelog");
    assert_eq!(get_additions(""), Vec::<String>::new());
    assert_eq!(get_additions("+\n+a\n +b"), vec!["", "a"]);
}

#[test]
fn test_get_existing_version() {
    let config = load_example_config();
    let changelog = parse_changelog(&config, "CHANGELOG.md", &changelog_with_unreleased()).unwrap();
    let result = get(&changelog, "v15.0.0");
    assert!(result.is_ok());
    assert_eq!(
        result.unwrap(),
        "## [v15.0.0](https://github.com/evmos/evmos/releases/tag/v15.0.0) - 2023-10-31\n\n### Bug Fixes\n\n- (evm) [#3](https://github.com/evmos/evmos/pull/3) Fix three.\n"
    );
    assert!(get(&changelog, "Unreleased").unwrap().starts_with("## Unreleased\n\n### State"));
}

#[test]
fn test_get_nonexistent_version() {
    let config = load_example_config();
    let changelog = parse_changelog(&config, "CHANGELOG.md", &changelog_with_unreleased()).unwrap();
    let result = get(&changelog, "v999.999.999");
    assert!(result.is_err());
    match result {
        Err(GetError::VersionNotFound(version)) => {
            assert_eq!(version, "v999.999.999");
        }
        _ => panic!("Expected VersionNotFound error"),
    }
    assert_eq!(
        GetError::VersionNotFound("v1".to_string()).to_string(),
        "version not found: v1"
    );
}

#[test]
fn test_init_empty_folder() {
    let config = Config::default();
    let contents = create_empty_changelog();
    assert_eq!(
        contents,
        "<!--\nThis changelog was created using the `clu` binary\n(https://github.com/MalteHerrmann/changelog-utils).\n-->\n\n# Changelog\n\n## Unreleased\n"
    );
    let changelog = parse_changelog(&config, "CHANGELOG.md", &contents).unwrap();
    assert!(changelog.problems.is_empty());
    assert_eq!(changelog.releases.len(), 1);
    assert!(changelog.releases[0].is_unreleased());
    assert_eq!(changelog.comments.len(), 4);
}

#[test]
fn test_init_changelog_exists() {
    let contents = [
        "# Changelog",
        "## Unreleased",
        "### State Machine Breaking",
        "- (p256-precompile) [#1922](https://github.com/evmos/evmos/pull/1922) One.",
        "- (distribution-precompile) [#1949](https://github.com/evmos/evmos/pull/1949) Two.",
        "### API Breaking",
        "- (inflation) [#1258](https://github.com/evmos/evmos/pull/1258) Three.",
        "- (ante) [#1054](https://github.com/evmos/evmos/pull/1054) Four.",
        "### Improvements",
        "- (ante) [#1208](https://github.com/evmos/evmos/pull/1208) Five.",
        "- (vesting) [#1862](https://github.com/evmos/evmos/pull/1862) Six.",
        "### Bug Fixes",
        "- (stride-outpost) [#1912](https://github.com/evmos/evmos/pull/1912) Seven.",
        "- (evm) [#1801](https://github.com/evmos/evmos/pull/1801) Eight.",
        "### Invalid Category",
        "- (testnet) [#1](https://github.com/evmos/evmos/pull/1) Nine.",
        "### Bug Fixes",
        "- another malformed entry in changelog",
    ]
    .join("\n");
    let mut config = Config::default();
    get_settings_from_existing_changelog(&mut config, &contents);

    assert_eq!(
        config.categories,
        vec![
            "ante".to_string(),
            "distribution-precompile".to_string(),
            "evm".to_string(),
            "inflation".to_string(),
            "p256-precompile".to_string(),
            "stride-outpost".to_string(),
            "testnet".to_string(),
            "vesting".to_string(),
        ]
    );

    let expected_change_types = vec![
        ChangeTypeConfig { long: "State Machine Breaking".into(), short: "stat".into() },
        ChangeTypeConfig { long: "API Breaking".into(), short: "api".into() },
        ChangeTypeConfig { long: "Improvements".into(), short: "impr".into() },
        ChangeTypeConfig { long: "Bug Fixes".into(), short: "bug".into() },
        ChangeTypeConfig { long: "Invalid Category".into(), short: "inva".into() },
    ];

    assert_eq!(config.change_types, expected_change_types);
    assert_eq!(config.commit_message, "add changelog entry");
}

#[test]
fn settings_with_short_names() {
    let mut config = Config::default();
    config.change_types = vec![ChangeTypeConfig { long: "Fix".into(), short: "x".into() }];
    get_settings_from_existing_changelog(&mut config, "### Fix\n### A B\n### fix\n");
    assert_eq!(
        config.change_types,
        vec![
            ChangeTypeConfig { long: "Fix".into(), short: "fix".into() },
            ChangeTypeConfig { long: "A B".into(), short: "a b".into() },
        ]
    );
    assert!(config.categories.is_empty());
}

#[test]
fn lint_outcomes() {
    let config = load_example_config();
    let clean = lint(&config, "CHANGELOG.md", &changelog_with_unreleased()).unwrap();
    assert!(clean.problems.is_empty());
    assert_eq!(outcome(&clean, false), Ok(None));
    assert_eq!(outcome(&clean, true), Ok(Some(clean.get_fixed_contents())));
    let flawed = lint(&config, "CHANGELOG.md", "## Unreleased\n### bug fixes\n- nothing\n").unwrap();
    assert_eq!(
        flawed.problems,
        vec![
            "CHANGELOG.md:2: 'Bug Fixes' should be used instead of 'bug fixes'",
            "CHANGELOG.md:2: Change type line is malformed; should be: '### Bug Fixes'",
            "CHANGELOG.md:3: invalid entry: - nothing",
        ]
    );
    assert_eq!(outcome(&flawed, false), Err(LintError::ProblemsInChangelog));
    assert_eq!(
        outcome(&flawed, true),
        Ok(Some("# Changelog\n\n## Unreleased\n\n### Bug Fixes\n\n".to_string()))
    );
    let mut broken = load_example_config();
    broken.legacy_version = Some("ten".to_string());
    let err = lint(&broken, "CHANGELOG.md", &changelog_without_unreleased()).unwrap_err();
    assert_eq!(
        err.to_string(),
        "failed to parse changelog: failed to parse release: invalid version: version does not follow semantic versioning"
    );
    assert_eq!(LintError::ProblemsInChangelog.to_string(), "found problems in changelog");
}

#[test]
fn release_of_what_is_unreleased() {
    let config = load_example_config();
    let mut changelog =
        parse_changelog(&config, "CHANGELOG.md", &changelog_with_unreleased()).unwrap();
    let version = Version { major: 16, minor: 0, patch: 0, rc_version: Some(1) };
    assert_eq!(release(&config, &mut changelog, &version, "2024-01-02"), Ok(()));
    assert_eq!(changelog.releases[0].version, "v16.0.0-rc1");
    assert_eq!(
        changelog.releases[0].fixed,
        "## [v16.0.0-rc1](https://github.com/evmos/evmos/releases/tag/v16.0.0-rc1) - 2024-01-02"
    );
    assert_eq!(changelog.releases[0].change_types.len(), 2);
    // nothing is left to release
    let next = Version { major: 17, minor: 0, patch: 0, rc_version: None };
    assert_eq!(
        release(&config, &mut changelog, &next, "2024-01-03"),
        Err(ReleaseCLIError::NoUnreleased)
    );
    let mut changelog =
        parse_changelog(&config, "CHANGELOG.md", &changelog_with_unreleased()).unwrap();
    let taken = Version { major: 15, minor: 0, patch: 0, rc_version: None };
    let err = release(&config, &mut changelog, &taken, "2024-01-03").unwrap_err();
    assert_eq!(err, ReleaseCLIError::DuplicateVersion("v15.0.0".to_string()));
    assert_eq!(err.to_string(), "duplicate version: v15.0.0");
    assert_eq!(ReleaseCLIError::NoUnreleased.to_string(), "no unreleased features");
    assert_eq!(changelog.releases[0].version, "Unreleased");
    // the released changelog is a correct one
    let mut changelog =
        parse_changelog(&config, "CHANGELOG.md", &changelog_with_unreleased()).unwrap();
    release(&config, &mut changelog, &version, "2024-01-02").unwrap();
    let again = parse_changelog(&config, "CHANGELOG.md", &changelog.get_fixed_contents()).unwrap();
    assert!(again.problems.is_empty());
    assert_eq!(again.get_fixed_contents(), changelog.get_fixed_contents());
}
