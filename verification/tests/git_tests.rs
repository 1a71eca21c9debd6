use clu::changelog::parse_changelog;
use clu::config::{Config, Mode};
use clu::diff_prompt::extract_object;
use clu::errors::{CreateError, GitError, GitHubError, ReleaseCLIError, VersionError};
use clu::git::{diff_from_output, get_git_info, label_names_branch, parse_origin, GitInfo};
use clu::github::{extract_pr_info, merged_pr_numbers, pr_title, PRInfo};
use clu::release_cli::get_release_version;
use clu::version::{ReleaseType, Version};

fn load_test_config() -> Config {
    let mut config = Config::default();
    config.categories = vec!["cli".to_string(), "test".to_string()];
    config.expected_spellings = vec![("API".to_string(), "api".to_string())];
    config.mode = Mode::Single;
    config.target_repo = "https://github.com/MalteHerrmann/changelog-utils".to_string();
    config
}

#[test]
fn test_get_origin() {
    let origin = parse_origin("https://github.com/MalteHerrmann/changelog-utils.git\n")
        .expect("failed to get origin");
    assert_eq!(
        origin, "https://github.com/MalteHerrmann/changelog-utils",
        "expected different origin"
    );
}

#[test]
fn git_origin_edge_cases() {
    assert_eq!(
        parse_origin("https://github.com/owner/repo"),
        Ok("https://github.com/owner/repo".to_string())
    );
    assert_eq!(
        parse_origin("origin\thttps://github.com/owner/repo/more (fetch)"),
        Ok("https://github.com/owner/repo/more".to_string())
    );
    assert_eq!(
        parse_origin("https://github.com/owner https://github.com/a/b.git"),
        Ok("https://github.com/a/b".to_string())
    );
    for output in [
        "",
        "git@github.com:owner/repo.git",
        "https://github.com/owner",
        "https://github.com/owner/",
        "https://github.com//repo",
        "https://github.com/owner/.git",
        "https://gitlab.com/owner/repo",
    ] {
        assert_eq!(
            parse_origin(output),
            Err(GitError::RegexMatch(output.to_string())),
            "{}",
            output
        );
    }
    assert_eq!(
        GitError::RegexMatch("x".to_string()).to_string(),
        "failed to match GitHub repo: x"
    );
}

#[test]
fn git_info_of_the_configured_repository() {
    let config = load_test_config();
    assert_eq!(
        get_git_info(&config, "main".to_string()),
        Ok(GitInfo {
            owner: "MalteHerrmann".to_string(),
            repo: "changelog-utils".to_string(),
            branch: "main".to_string(),
        })
    );
    let mut other = load_test_config();
    other.target_repo = "https://GitHub.com/owner/repo".to_string();
    assert_eq!(
        get_git_info(&other, "main".to_string()),
        Err(GitError::RegexMatch("https://GitHub.com/owner/repo".to_string()))
    );
    other.target_repo = "https://github.com/owner".to_string();
    assert!(get_git_info(&other, "main".to_string()).is_err());
    other.target_repo = "ssh://git@github.com/ow_ner/re-po.git".to_string();
    let info = get_git_info(&other, "b".to_string()).unwrap();
    assert_eq!(info.owner, "ow_ner");
    assert_eq!(info.repo, "re-po");
}

#[test]
fn git_diff_of_an_answer() {
    assert_eq!(diff_from_output("\n  +a\n-b \n\n", "x", "y"), Ok("+a\n-b".to_string()));
    let err = diff_from_output(" \n\t", "feature", "main").unwrap_err();
    assert_eq!(err, GitError::EmptyDiff("feature".to_string(), "main".to_string()));
    assert_eq!(err.to_string(), "empty diff found between 'feature' and 'main'");
    assert_eq!(diff_from_output("", "a", "b").unwrap_err(), GitError::EmptyDiff("a".into(), "b".into()));
    assert_eq!(GitError::InvalidRegex.to_string(), "failed to build regex");
}

#[test]
fn git_label_of_a_branch() {
    assert!(label_names_branch("owner:feature", "feature"));
    assert!(label_names_branch("owner:feature:part", "feature/part"));
    assert!(!label_names_branch("owner:feature", "owner:feature"));
    assert!(!label_names_branch("feature", "feature"));
    assert!(label_names_branch("feature", ""));
    assert!(label_names_branch("owner:", ""));
    assert!(!label_names_branch("owner:feature", "featur"));
}

#[test]
fn github_title_of_a_pull_request() {
    let config = load_test_config();
    assert_eq!(
        extract_pr_info(&config, "imp(cli): add the aPi", 12),
        Ok(PRInfo {
            change_type: "imp".to_string(),
            category: "cli".to_string(),
            description: "Add the API.".to_string(),
            number: 12,
        })
    );
    // a change type that the configuration does not know is left out
    let info = extract_pr_info(&config, "chore(CLI) tidy up.", 3).unwrap();
    assert_eq!(info.change_type, "");
    assert_eq!(info.category, "cli");
    assert_eq!(info.description, "Tidy up.");
    let info = extract_pr_info(&config, "fix: something", 4).unwrap();
    assert_eq!(info.change_type, "fix");
    assert_eq!(info.category, "");
    assert_eq!(info.description, "Something.");
    assert_eq!(extract_pr_info(&config, "", 5), Ok(PRInfo { number: 5, ..PRInfo::default() }));
    assert_eq!(pr_title("imp", "cli", "Add it."), "imp(cli): Add it.");
    assert_eq!(GitHubError::InvalidRegex.to_string(), "failed to build regex");
}

#[test]
fn test_parse_suggestions() {
    let response = r##"
            ```json
            {
                "category": "",
                "change_type": "Improvements",
                "title": "Add tests for diff prompt functionality"
            }
            ```
        "##;
    let object = extract_object(response).expect("an object");
    assert!(object.starts_with("{"));
    assert!(object.ends_with("}"));
    assert_eq!(
        object,
        "{                \"category\": \"\",                \"change_type\": \"Improvements\",                \"title\": \"Add tests for diff prompt functionality\"            }"
    );
}

#[test]
fn suggestions_edge_cases() {
    assert_eq!(extract_object("a {b} c } d"), Ok("{b} c }".to_string()));
    assert_eq!(extract_object("{\n\"a\": 1\r\n}"), Ok("{\"a\": 1}".to_string()));
    assert_eq!(
        extract_object("no\nobject"),
        Err(CreateError::FailedToMatch("noobject".to_string()))
    );
    assert_eq!(extract_object("{}"), Err(CreateError::FailedToMatch("{}".to_string())));
    assert_eq!(extract_object("} {"), Err(CreateError::FailedToMatch("} {".to_string())));
    assert_eq!(extract_object("{x}"), Ok("{x}".to_string()));
    assert_eq!(
        CreateError::FailedToMatch("x".to_string()).to_string(),
        "failed to match: x"
    );
}

#[test]
fn release_version_that_follows_the_latest() {
    let config = load_test_config();
    let contents = [
        "## Unreleased",
        "## [v1.2.3] - 2024-01-03",
        "## [v1.10.0] - 2024-02-03",
        "## [v1.2.10] - 2024-01-10",
    ]
    .join("\n");
    let changelog = parse_changelog(&config, "c.md", &contents).unwrap();
    // the latest release is the last in the order of strings
    assert_eq!(
        get_release_version(&changelog, &ReleaseType::Patch),
        Ok(Version { major: 1, minor: 2, patch: 4, rc_version: None })
    );
    assert_eq!(
        get_release_version(&changelog, &ReleaseType::RcMinor),
        Ok(Version { major: 1, minor: 3, patch: 0, rc_version: Some(1) })
    );
    let none = parse_changelog(&config, "c.md", "## Unreleased\n").unwrap();
    assert_eq!(
        get_release_version(&none, &ReleaseType::Patch),
        Err(ReleaseCLIError::NoRelease)
    );
    let limit = parse_changelog(&config, "c.md", "## [v255.0.0] - 2024-01-03\n").unwrap();
    assert_eq!(
        get_release_version(&limit, &ReleaseType::Major),
        Err(ReleaseCLIError::InvalidVersion(VersionError::NoInteger))
    );
    let capital = parse_changelog(&config, "c.md", "## [V1.0.0] - 2024-01-03\n").unwrap();
    assert_eq!(
        get_release_version(&capital, &ReleaseType::Major),
        Err(ReleaseCLIError::InvalidVersion(VersionError::NoMatchFound))
    );
    assert_eq!(ReleaseCLIError::NoRelease.to_string(), "no release found");
}

#[test]
fn github_merged_pull_requests() {
    let pulls = vec![(7, true), (3, false), (5, true), (7, true), (1, true), (9, false), (5, true)];
    assert_eq!(merged_pr_numbers(&pulls), vec![1, 5, 7]);
    assert_eq!(merged_pr_numbers(&Vec::new()), Vec::<u64>::new());
    assert_eq!(merged_pr_numbers(&vec![(2, false)]), Vec::<u64>::new());
    assert_eq!(merged_pr_numbers(&vec![(u64::MAX, true), (0, true)]), vec![0, u64::MAX]);
}
