use clu::changelog::Changelog;
use clu::common;
use clu::config::{ChangeTypeConfig, Config, Mode};
use clu::errors::{EntryError, ReleaseError, VersionError};
use clu::multi_file::change_type::ChangeType;
use clu::multi_file::entry::MultiFileEntry;
use clu::multi_file::release::Release;
use clu::multi_file::{change_type, changelog, entry, release};
use regex::{Regex, RegexBuilder};

const REPO: &str = "https://github.com/noble-assets/noble";

fn load_example_config() -> Config {
    Config {
        categories: vec!["deps".to_string(), "dollar".to_string()],
        change_types: vec![
            ChangeTypeConfig { short: "fix".into(), long: "Bug Fixes".into() },
            ChangeTypeConfig { short: "deps".into(), long: "Dependencies".into() },
            ChangeTypeConfig { short: "feat".into(), long: "Features".into() },
        ],
        commit_message: "add changelog entry".to_string(),
        changelog_path: String::new(),
        changelog_dir: Some(".changelog".to_string()),
        expected_spellings: vec![("$USDN".to_string(), r"\$*usdn".to_string())],
        legacy_version: None,
        mode: Mode::Multi,
        target_repo: REPO.to_string(),
        use_categories: true,
        config_version: 1,
    }
}

fn load_multi_test_config() -> Config {
    load_example_config()
}

/// The contents of a file with an entry whose description stands directly
/// before the reference.
fn contents(category: &str, description: &str, pr: u64, link_pr: u64) -> String {
    format!("- ({}) {}([#{}]({}/pull/{}))\n", category, description, pr, REPO, link_pr)
}

fn file(path: &str, text: String) -> (String, Option<String>) {
    (path.to_string(), Some(text))
}

const GAP: &str = "There should be exactly one space between the description and the PR link";
const PREFIX: &str = "The filename should be prefixed with the PR number";

#[test]
fn file_entry_is_divided_into_its_parts() {
    let parts = entry::split_file_entry(
        "  -\t(dollar)  Add the module.  ([#448] (https://a/pull/448)) \n",
    )
    .expect("an entry");
    assert_eq!(parts.spaces, vec!["  ", "\t", "  ", "", " "]);
    assert_eq!(parts.category, "dollar");
    // the description takes the white space before the reference
    assert_eq!(parts.description, "Add the module.  ");
    assert_eq!(parts.pr_number, 448);
    assert_eq!(parts.link, "https://a/pull/448");
}

#[test]
fn file_entry_description_ends_before_the_last_reference() {
    let parts =
        entry::split_file_entry("- (a) See ([#1](x)) and more ([#2](y))").expect("an entry");
    assert_eq!(parts.description, "See ([#1](x)) and more ");
    assert_eq!(parts.pr_number, 2);
    assert_eq!(parts.link, "y");
}

#[test]
fn file_entry_description_stays_in_its_line() {
    // a line feed ends the description, and the gap behind it holds the rest
    let parts = entry::split_file_entry("- (a) Text.\n\n ([#7](l))").expect("an entry");
    assert_eq!(parts.description, "Text.");
    assert_eq!(parts.spaces[3], "\n\n ");
    // nothing may stand behind the line of the description but the reference
    assert!(entry::split_file_entry("- (a) Text.\nmore ([#7](l))").is_none());
}

#[test]
fn file_entry_description_of_white_space() {
    // nothing but white space stands before the reference: its last
    // character that is no line feed is the description
    let parts = entry::split_file_entry("- (a) \t\n([#7](l))").expect("an entry");
    assert_eq!(parts.spaces[2], " ");
    assert_eq!(parts.description, "\t");
    assert_eq!(parts.spaces[3], "\n");
    let parts = entry::split_file_entry("- (a) ([#7](l))").expect("an entry");
    assert_eq!(parts.spaces[2], "");
    assert_eq!(parts.description, " ");
    assert_eq!(parts.spaces[3], "");
    assert!(entry::split_file_entry("- (a)([#7](l))").is_none());
    assert!(entry::split_file_entry("- (a)\n([#7](l))").is_none());
}

#[test]
fn file_entry_that_is_none() {
    for text in [
        "",
        "- (a) Text.",
        "- (a) Text. [#7](l)",
        "- (a) Text. ([#7](l)",
        "- (a) Text. ([#](l))",
        "- () Text. ([#7](l))",
        "- (a b) Text. ([#7](l))",
        "(a) Text. ([#7](l))",
        "- (a) Text. ([#7](l)) x",
        "- (a) Text. ([#18446744073709551616](l))",
    ] {
        assert!(entry::split_file_entry(text).is_none(), "{:?}", text);
    }
    let parts =
        entry::split_file_entry("- (a) Text. ([#18446744073709551615](l))").expect("an entry");
    assert_eq!(parts.pr_number, u64::MAX);
}

#[test]
fn file_entry_whitespace_is_checked() {
    assert!(entry::check_whitespace(["", " ", " ", " ", ""]).is_empty());
    assert_eq!(
        entry::check_whitespace([" ", "", "  ", "", " "]),
        vec![
            "There should be no leading whitespace before the dash",
            "There should be exactly one space between the leading dash and the category",
            "There should be exactly one space between the category and the description",
            "There should be exactly one space between the description and the PR link",
            "There should be no whitespace inside of the markdown link",
        ]
    );
    assert_eq!(entry::check_whitespace(["", " ", " ", "\t", ""]), vec![GAP]);
}

#[test]
fn file_entry_is_built_from_its_parts() {
    assert_eq!(
        entry::build_fixed("dollar", "https://a/pull/448", "Add it.", 448),
        "- (dollar) Add it. [#448](https://a/pull/448)"
    );
}

#[test]
fn file_entry_is_parsed_and_checked() {
    let config = load_example_config();
    let text = contents("dollar", "Add the module.", 448, 448);
    let found = entry::parse(&config, "448-add-module.md", &text).expect("an entry");
    assert_eq!(found.category, "dollar");
    assert_eq!(found.pr_number, 448);
    assert_eq!(found.path, "448-add-module.md");
    assert_eq!(
        found.fixed,
        format!("- (dollar) Add the module. [#448]({}/pull/448)", REPO)
    );
    assert_eq!(found.problems, vec![GAP]);
}

#[test]
fn file_entry_problems_come_in_order() {
    let config = load_example_config();
    let text = format!(
        " - (Other) add $UsDN \n ([#448] ({}/pull/449))",
        "https://github.com/other/noble"
    );
    let found = entry::parse(&config, "dir/448-add.md", &text).expect("an entry");
    assert_eq!(found.category, "other");
    assert_eq!(
        found.fixed,
        format!("- (other) Add $USDN . [#448]({}/pull/448)", REPO)
    );
    assert_eq!(
        found.problems,
        vec![
            PREFIX.to_string(),
            "category should be lowercase: (Other)".to_string(),
            "invalid change category: (Other)".to_string(),
            "PR link points to wrong repository: https://github.com/other/noble/pull/449"
                .to_string(),
            "PR link is not matching PR number 448: 'https://github.com/other/noble/pull/449'"
                .to_string(),
            "PR description should start with capital letter: 'add $UsDN '".to_string(),
            "PR description should end with a dot: 'add $UsDN '".to_string(),
            "'$USDN' should be used instead of '$UsDN'".to_string(),
            "There should be no leading whitespace before the dash".to_string(),
            "There should be exactly one space between the description and the PR link"
                .to_string(),
            "There should be no whitespace inside of the markdown link".to_string(),
        ]
    );
}

#[test]
fn file_entry_that_cannot_be_parsed_is_handed_back() {
    let config = load_example_config();
    let found = entry::parse(&config, "1-x.md", "no entry at all");
    match found {
        Err(EntryError::InvalidEntry(held)) => assert_eq!(held, "no entry at all"),
        Ok(_) => panic!("expected parsing to fail"),
    }
}

#[test]
fn file_entry_grammar_is_the_pattern_of_entries() {
    let pattern = Regex::new(concat_pattern().as_str()).unwrap();
    let pieces = [
        " ", "\t", "\u{a0}", "\n", "-", "(", ")", "[", "]", "#", "a", "Z", "7", "0", ".", "é",
        "- (a)", "([#1](l))", "([#", "](", "))", " x",
    ];
    let mut texts = made_of(&pieces, 10, 40000, 11);
    texts.extend(near("- (cli) Add it. ([#12](https://a/b/pull/12))\n", &pieces));
    texts.extend(near(" -  (c-1)\t \n([#0] (l)) \t", &pieces));
    texts.extend(near("- (a) x ([#1](l)) y\n ([#2](m))", &pieces));
    let mut entries = 0;
    for text in texts {
        let expected = pattern.captures(&text);
        let found = entry::split_file_entry(&text);
        match expected {
            None => assert!(found.is_none(), "{:?}", text),
            Some(c) => {
                let found = found.unwrap_or_else(|| panic!("{:?}", text));
                entries += 1;
                assert_eq!(
                    found.spaces,
                    vec![&c["ws0"], &c["ws1"], &c["ws2"], &c["ws3"], &c["ws4"]],
                    "{:?}",
                    text
                );
                assert_eq!(found.category, &c["category"], "{:?}", text);
                assert_eq!(found.description, &c["desc"], "{:?}", text);
                assert_eq!(found.pr_number, c["pr"].parse::<u64>().unwrap(), "{:?}", text);
                assert_eq!(found.link, &c["link"], "{:?}", text);
            }
        }
    }
    assert!(entries > 100, "{}", entries);
}

fn concat_pattern() -> String {
    [
        r"^(?P<ws0>\s*)-(?P<ws1>\s*)\((?P<category>[a-zA-Z0-9\-]+)\)",
        r"(?P<ws2>\s*)(?P<desc>.+)",
        r"(?P<ws3>\s*)\(\[#(?P<pr>\d+)]",
        r"(?P<ws4>\s*)\((?P<link>[^)]*)\)\)\s*$",
    ]
    .concat()
}

/// A small generator of numbers, the same on every run.
struct Numbers(u64);

impl Numbers {
    fn next(&mut self) -> u64 {
        self.0 = self.0.wrapping_mul(6364136223846793005).wrapping_add(1442695040888963407);
        self.0 >> 33
    }

    fn below(&mut self, n: usize) -> usize {
        (self.next() % n as u64) as usize
    }
}

/// Texts made of the given pieces, at most `length` of them each.
fn made_of(pieces: &[&str], length: usize, count: usize, seed: u64) -> Vec<String> {
    let mut numbers = Numbers(seed);
    let mut made = Vec::new();
    for _ in 0..count {
        let n = numbers.below(length + 1);
        let mut text = String::new();
        for _ in 0..n {
            text.push_str(pieces[numbers.below(pieces.len())]);
        }
        made.push(text);
    }
    made
}

/// Texts that are near to the given one: one character taken out, put in
/// twice or replaced.
fn near(line: &str, pieces: &[&str]) -> Vec<String> {
    let chars: Vec<char> = line.chars().collect();
    let mut made = vec![line.to_string()];
    for i in 0..chars.len() {
        let without: String = chars[..i].iter().chain(chars[i + 1..].iter()).collect();
        made.push(without);
        let twice: String = chars[..=i].iter().chain(chars[i..].iter()).collect();
        made.push(twice);
        for piece in pieces {
            let before: String = chars[..i].iter().collect();
            let after: String = chars[i + 1..].iter().collect();
            made.push(format!("{}{}{}", before, piece, after));
            let behind: String = chars[i..].iter().collect();
            made.push(format!("{}{}{}", before, piece, behind));
        }
    }
    made
}

#[test]
fn test_fail() {
    let dir = "tests/testdata/multi_file/fail/.changelog/v9.0.0/features";
    let files = vec![
        file("448-integrate-dollar.md", contents("dollar", "Integrate $UsDN.", 448, 448)),
        file("449-a.md", contents("dollar", "Add a.", 449, 449)),
        file("450-b.md", contents("Dollar", "Add b.", 450, 450)),
        file("451-c.md", contents("dollar", "add c.", 451, 451)),
        file("452-d.md", contents("dollar", "Add d", 452, 452)),
        file("453-e.md", contents("dollar", "Add e.", 453, 454)),
    ];
    let ct = change_type::parse(&load_example_config(), dir, "features", &files);
    assert_eq!(ct.entries.len(), 6);
    assert_eq!(ct.name, "features");
    assert_eq!(ct.fixed, "features");
    assert_eq!(ct.path, dir);
    assert!(ct.problems.is_empty());
}

#[test]
fn change_type_directory_is_held_against_the_configuration() {
    let config = load_example_config();
    let none: Vec<(String, Option<String>)> = Vec::new();
    assert!(change_type::parse(&config, "d/bug-fixes", "bug-fixes", &none).problems.is_empty());
    for name in ["Bug Fixes", "bug fixes", "Bug-Fixes", "bugfixes", "fix", ""] {
        let ct = change_type::parse(&config, "d", name, &none);
        assert_eq!(ct.problems, vec![format!("invalid change type: {}", name)]);
        assert!(ct.entries.is_empty());
    }
}

#[test]
fn change_type_files_without_an_entry_are_problems() {
    let config = load_example_config();
    let files = vec![
        file("d/1-a.md", contents("dollar", "Add a.", 1, 1)),
        file("d/2-b.md", "nothing".to_string()),
        ("d/3-c.md".to_string(), None),
        file("d/4-d.md", contents("dollar", "Add d.", 4, 4)),
    ];
    let ct = change_type::parse(&config, "d", "other", &files);
    assert_eq!(
        ct.problems,
        vec![
            "invalid change type: other",
            "invalid entry found in file: d/2-b.md",
            "invalid entry found in file: d/3-c.md",
        ]
    );
    let numbers: Vec<u64> = ct.entries.iter().map(|e| e.pr_number).collect();
    assert_eq!(numbers, vec![1, 4]);
    assert_eq!(
        ct.get_fixed_contents(),
        format!(
            "### other\n\n- (dollar) Add a. [#1]({r}/pull/1)\n- (dollar) Add d. [#4]({r}/pull/4)\n",
            r = REPO
        )
    );
}

fn release_named(name: &str) -> Release {
    release::parse("dir", name, Vec::new())
}

#[test]
fn release_directory_is_held_against_the_versions() {
    for name in ["v1.2.3", "v1.2.3-rc1", "xv10.20.30y", "unreleased", "UnReleased \t", "the unreleased"]
    {
        let found = release_named(name);
        assert!(found.problems.is_empty(), "{:?}", name);
        assert_eq!(found.version, name);
        assert_eq!(found.path, "dir");
        assert_eq!(found.summary, None);
    }
    for name in ["", "v1.2", "1.2.3", "v1.2.x", "V1.2.3", "unreleased x", "v.1.2", "v1..2"] {
        assert_eq!(
            release_named(name).problems,
            vec![format!("invalid version string: {}", name)],
            "{:?}",
            name
        );
    }
}

#[test]
fn release_directory_names_are_the_patterns() {
    let unreleased = RegexBuilder::new(r"unreleased\s*$")
        .case_insensitive(true)
        .build()
        .unwrap();
    let version = Regex::new(r"v\d+\.\d+\.\d+(-rc\d+)?").unwrap();
    let pieces = [
        "un", "released", "unreleased", "Unreleased", "UNRELEASED", "d", " ", "\t", "\n", "x", "v",
        "V", "1", "23", ".", "-rc", "v1.2.3",
    ];
    let mut names = made_of(&pieces, 6, 30000, 12);
    names.extend(near("unreleased \t", &pieces));
    names.extend(near("v1.22.3-rc4", &pieces));
    let (mut first, mut second) = (0, 0);
    for name in names {
        let expected = unreleased.is_match(&name);
        assert_eq!(release::is_unreleased(&name), expected, "{:?}", name);
        if expected {
            first += 1;
        }
        let expected = version.is_match(&name);
        assert_eq!(release::has_version(&name), expected, "{:?}", name);
        if expected {
            second += 1;
        }
    }
    assert!(first > 100 && second > 100, "{} {}", first, second);
}

#[test]
fn release_directory_that_is_unreleased() {
    assert!(release_named("unreleased").is_unreleased());
    assert!(release_named("UnReleased").is_unreleased());
    assert!(!release_named("unreleased ").is_unreleased());
    assert!(!release_named("the unreleased").is_unreleased());
    assert!(!release_named("v1.0.0").is_unreleased());
    assert!(!release_named("").is_unreleased());
}

#[test]
fn release_directory_that_is_legacy() {
    let mut config = load_example_config();
    assert_eq!(release_named("v1.0.0").is_legacy(&config), Ok(false));
    config.legacy_version = Some("v1.0.0".to_string());
    assert_eq!(release_named("v0.9.0").is_legacy(&config), Ok(true));
    assert_eq!(release_named("v1.0.0").is_legacy(&config), Ok(true));
    assert_eq!(release_named("v1.0.1").is_legacy(&config), Ok(false));
    assert_eq!(release_named("UNRELEASED").is_legacy(&config), Ok(false));
    assert_eq!(
        release_named("next").is_legacy(&config),
        Err(ReleaseError::InvalidVersion(VersionError::NoMatchFound))
    );
    config.legacy_version = Some("first".to_string());
    assert_eq!(
        release_named("v1.0.0").is_legacy(&config),
        Err(ReleaseError::InvalidVersion(VersionError::NoMatchFound))
    );
    assert_eq!(release_named("Unreleased").is_legacy(&config), Ok(false));
}

fn change_type_in(dir: &str, name: &str, files: Vec<(String, Option<String>)>) -> ChangeType {
    change_type::parse(&load_multi_test_config(), &format!("{}/{}", dir, name), name, &files)
}

#[test]
fn release_directory_is_written_as_a_section() {
    let features = change_type_in(
        "v1.0.0",
        "features",
        vec![file("v1.0.0/features/1-a.md", contents("dollar", "Add a.", 1, 1))],
    );
    let fixes = change_type_in("v1.0.0", "bug-fixes", Vec::new());
    let found = release::parse("v1.0.0", "v1.0.0", vec![features, fixes]);
    assert_eq!(
        found.get_fixed_contents(),
        format!(
            "## v1.0.0\n\n### features\n\n- (dollar) Add a. [#1]({}/pull/1)\n\n### bug-fixes\n\n",
            REPO
        )
    );
}

#[test]
fn it_should_pass_for_correct_multi_file_changelogs() {
    let correct_changelog = "tests/testdata/multi_file/ok/.changelog";
    let first = release::parse(
        &format!("{}/unreleased", correct_changelog),
        "unreleased",
        vec![change_type_in(&format!("{}/unreleased", correct_changelog), "features", Vec::new())],
    );
    let second = release::parse(
        &format!("{}/v8.0.5", correct_changelog),
        "v8.0.5",
        vec![
            change_type_in(&format!("{}/v8.0.5", correct_changelog), "bug-fixes", Vec::new()),
            change_type_in(&format!("{}/v8.0.5", correct_changelog), "dependencies", Vec::new()),
        ],
    );
    let changelog = changelog::parse_changelog(correct_changelog, vec![first, second]);
    assert_eq!(changelog.releases.len(), 2);
    assert!(changelog.problems.is_empty());
    assert!(!changelog.has_problems());
    assert!(changelog.comments.is_empty());
    assert_eq!(changelog.path, correct_changelog);
}

#[test]
fn it_should_pass_for_incorrect_multi_file_changelogs_that_has_no_critical_flaws() {
    let incorrect_changelog = "tests/testdata/multi_file/fail/.changelog";
    let old = format!("{}/v8.0.5", incorrect_changelog);
    let new = format!("{}/v9.0.0", incorrect_changelog);
    let comet = format!("{}/dependencies/466-bump-comet.md", old);
    let dollar = format!("{}/features/448-integrate-dollar.md", new);
    let sdk = format!("{}/dependencies/495-bump-sdk.md", new);
    let first = release::parse(
        &old,
        "v8.0.5",
        vec![change_type_in(
            &old,
            "dependencies",
            vec![file(&comet, contents("deps", "Bump Comet.", 466, 467))],
        )],
    );
    let second = release::parse(
        &new,
        "v9.0.0",
        vec![
            change_type_in(
                &new,
                "features",
                vec![file(&dollar, contents("dollar", "Integrate $UsDN.", 448, 448))],
            ),
            change_type_in(
                &new,
                "dependencies",
                vec![file(
                    &sdk,
                    contents(
                        "deps",
                        "Bump Cosmos SDK to [`v0.50.12`](https://github.com/cosmos/cosmos-sdk/releases/tag/v0.50.12)",
                        495,
                        495,
                    ),
                )],
            ),
        ],
    );
    let changelog = changelog::parse_changelog(incorrect_changelog, vec![first, second]);

    assert_eq!(changelog.releases.len(), 2);
    assert!(changelog.has_problems());
    assert_eq!(changelog.problems, vec![
        format!("{}:1: {}", comet, PREFIX),
        "tests/testdata/multi_file/fail/.changelog/v8.0.5/dependencies/466-bump-comet.md:1: PR link is not matching PR number 466: 'https://github.com/noble-assets/noble/pull/467'".to_string(),
        format!("{}:1: {}", comet, GAP),
        format!("{}:1: {}", dollar, PREFIX),
        "tests/testdata/multi_file/fail/.changelog/v9.0.0/features/448-integrate-dollar.md:1: '$USDN' should be used instead of '$UsDN'".to_string(),
        format!("{}:1: {}", dollar, GAP),
        format!("{}:1: {}", sdk, PREFIX),
        "tests/testdata/multi_file/fail/.changelog/v9.0.0/dependencies/495-bump-sdk.md:1: PR description should end with a dot: 'Bump Cosmos SDK to [`v0.50.12`](https://github.com/cosmos/cosmos-sdk/releases/tag/v0.50.12)'".to_string(),
        format!("{}:1: {}", sdk, GAP),
    ]);
}

#[test]
fn problems_of_directories_come_before_those_of_their_files() {
    let config = load_multi_test_config();
    let files = vec![
        file("r/other/7-a.md", contents("dollar", "Add a.", 7, 7)),
        file("r/other/b.md", "nothing".to_string()),
    ];
    let other = change_type::parse(&config, "r/other", "other", &files);
    let found = release::parse("r", "next", vec![other]);
    let changelog = changelog::parse_changelog(".changelog", vec![found]);
    assert_eq!(
        changelog.problems,
        vec![
            "r: invalid version string: next".to_string(),
            "r/other: invalid change type: other".to_string(),
            "r/other: invalid entry found in file: r/other/b.md".to_string(),
            format!("r/other/7-a.md:1: {}", PREFIX),
            format!("r/other/7-a.md:1: {}", GAP),
        ]
    );
}

#[test]
fn either_changelog_hands_out_its_problems() {
    let mut single = Changelog::new("CHANGELOG.md");
    single.problems.push("CHANGELOG.md:1: a problem".to_string());
    let single = common::Changelog::Single(single);
    assert_eq!(single.problems(), &vec!["CHANGELOG.md:1: a problem".to_string()]);
    let multi = common::Changelog::Multi(changelog::parse_changelog(
        ".changelog",
        vec![release::parse("r", "next", Vec::new())],
    ));
    assert_eq!(multi.problems(), &vec!["r: invalid version string: next".to_string()]);
}

#[test]
fn file_entry_holds_what_was_read() {
    let found: MultiFileEntry = entry::parse(
        &load_example_config(),
        "7-a.md",
        "- (deps) Bump it. \n ([#7](https://github.com/noble-assets/noble/pull/7))",
    )
    .expect("an entry");
    // the description ends with its line, and the gap is what follows
    assert_eq!(
        found.problems,
        vec![
            "PR description should end with a dot: 'Bump it. '",
            "There should be exactly one space between the description and the PR link",
        ]
    );
    assert_eq!(found.fixed, format!("- (deps) Bump it. . [#7]({}/pull/7)", REPO));
}
