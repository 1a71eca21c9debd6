use clu::config::{
    add_into_collection, create_default_config, get_migration_info, migrate_to_current,
    needs_migration, remove_from_collection, set_target_repo, ChangeTypeConfig, Config, Mode,
    CURRENT_CONFIG_VERSION,
};
use clu::errors::{ConfigAdjustError, ConfigError};

fn load_example_config() -> Config {
    Config {
        categories: vec!["cli".to_string(), "test".to_string()],
        change_types: vec![
            ChangeTypeConfig { short: "fix".into(), long: "Bug Fixes".into() },
            ChangeTypeConfig { short: "feat".into(), long: "Features".into() },
            ChangeTypeConfig { short: "imp".into(), long: "Improvements".into() },
        ],
        commit_message: "add changelog entry".to_string(),
        changelog_path: "CHANGELOG.md".to_string(),
        changelog_dir: None,
        expected_spellings: vec![
            ("API".to_string(), "api".to_string()),
            ("CLI".to_string(), "cli".to_string()),
            ("Web-SDK".to_string(), r"web[-\s]*sdk".to_string()),
        ],
        legacy_version: Some("v0.0.1".to_string()),
        mode: Mode::Single,
        target_repo: "https://github.com/MalteHerrmann/changelog-utils".to_string(),
        use_categories: true,
        config_version: 1,
    }
}

fn keys(config: &Config) -> Vec<&str> {
    config.expected_spellings.iter().map(|p| p.0.as_str()).collect()
}

#[test]
fn config_test_load_config() {
    let config = load_example_config();
    assert!(config.expected_spellings.len() > 0);
    assert_eq!(
        config.expected_spellings.iter().find(|p| p.0 == "API").unwrap().1,
        "api"
    );
    assert!(config.change_types.len() > 0);
    assert_eq!(
        config.get_long_change_type("Bug Fixes").unwrap(),
        ChangeTypeConfig { short: "fix".into(), long: "Bug Fixes".into() }
    );
    assert!(config.categories.len() > 0);
    assert!(config.categories.contains(&"cli".to_string()));
    assert!(config.legacy_version.is_some());
    assert!(config.has_legacy_version());
}

#[test]
fn config_test_load_config_no_optionals() {
    let mut config = load_example_config();
    config.legacy_version = None;
    assert!(config.legacy_version.is_none(), "expected legacy version not to be set");
    assert!(!config.has_legacy_version());
}

#[test]
fn config_test_add_category_pass() {
    let mut config = load_example_config();
    assert_eq!(config.categories.len(), 2);
    assert!(!config.categories.contains(&"new".to_string()));
    assert!(config.add_category("new".into()).is_ok());
    assert_eq!(config.categories.len(), 3);
    assert!(config.categories.contains(&"new".to_string()));
}

#[test]
fn config_test_add_category_duplicate() {
    let mut config = load_example_config();
    assert_eq!(config.categories.len(), 2);
    assert_eq!(
        config.add_category("test".to_string()).unwrap_err(),
        ConfigAdjustError::CategoryAlreadyFound
    );
    assert_eq!(config.categories.len(), 2);
}

#[test]
fn config_test_remove_category() {
    let mut config = load_example_config();
    assert_eq!(config.categories.len(), 2);
    assert!(config.remove_category("test".to_string()).is_ok());
    assert_eq!(config.categories.len(), 1);
}

#[test]
fn config_test_remove_category_not_found() {
    let mut config = load_example_config();
    assert_eq!(config.categories.len(), 2);
    assert_eq!(
        config.remove_category("not-found".to_string()).unwrap_err(),
        ConfigAdjustError::NotFound
    );
    assert_eq!(config.categories.len(), 2);
}

#[test]
fn config_test_add_change_type() {
    let mut config = load_example_config();
    assert_eq!(config.change_types.len(), 3);
    assert!(config.add_change_type("LONG CHANGE TYPE".into(), "SHORT".into()).is_ok());
    assert_eq!(config.change_types.len(), 4);
    assert_eq!(
        config.change_types[3],
        ChangeTypeConfig { short: "SHORT".into(), long: "LONG CHANGE TYPE".into() }
    );
}

#[test]
fn config_test_add_change_type_duplicate() {
    let mut config = load_example_config();
    assert_eq!(config.change_types.len(), 3);
    assert!(config.add_change_type("Bug Fixes".into(), "fix".into()).is_err());
    assert_eq!(config.change_types.len(), 3);
}

#[test]
fn config_test_get_short_change_type() {
    let config = load_example_config();
    assert!(config.get_short_change_type("fix").is_some());
    assert!(config.get_short_change_type("abcde").is_none());
}

#[test]
fn config_test_get_long_change_type() {
    let config = load_example_config();
    assert!(config.get_long_change_type("Bug Fixes").is_some());
    assert!(config.get_long_change_type("non-existente").is_none());
}

#[test]
fn config_test_remove_change_type() {
    let mut config = load_example_config();
    assert_eq!(config.change_types.len(), 3);
    assert!(config.get_long_change_type("Bug Fixes").is_some());

    assert!(config.remove_change_type("fix".into()).is_ok());
    assert_eq!(config.change_types.len(), 2);
    assert!(config.get_long_change_type("Bug Fixes").is_none());

    assert!(config.remove_change_type("abcde".into()).is_err());
    assert_eq!(config.change_types.len(), 2);
}

#[test]
fn config_test_add_into_collection() {
    let mut config = load_example_config();
    assert_eq!(keys(&config).len(), 3);
    assert!(!keys(&config).contains(&"newkey"));
    assert!(config.add_expected_spelling("newkey".to_string(), "newvalue".to_string()).is_ok());
    assert_eq!(keys(&config).len(), 4);
    assert!(keys(&config).contains(&"newkey"));

    let mut pairs = load_example_config().expected_spellings;
    assert!(add_into_collection(&mut pairs, "newkey".to_string(), "newvalue".to_string()).is_ok());
    assert_eq!(pairs.len(), 4);
    assert_eq!(pairs[3], ("newkey".to_string(), "newvalue".to_string()));
}

#[test]
fn config_test_add_into_collection_already_present() {
    let mut config = load_example_config();
    assert_eq!(keys(&config).len(), 3);
    assert!(keys(&config).contains(&"API"));
    assert_eq!(
        config.add_expected_spelling("API".to_string(), "newvalue".to_string()).unwrap_err(),
        ConfigAdjustError::KeyAlreadyFound
    );
    assert_eq!(keys(&config).len(), 3);
    assert_eq!(config.expected_spellings[0].1, "api");
}

#[test]
fn config_test_remove_from_collection() {
    let mut config = load_example_config();
    assert_eq!(keys(&config).len(), 3);
    assert!(keys(&config).contains(&"API"));
    assert!(config.remove_expected_spelling("API".to_string()).is_ok());
    assert_eq!(keys(&config).len(), 2);
    assert!(!keys(&config).contains(&"API"));

    let mut pairs = load_example_config().expected_spellings;
    assert!(remove_from_collection(&mut pairs, "CLI".to_string()).is_ok());
    assert_eq!(pairs.len(), 2);
    assert_eq!(pairs[1].0, "Web-SDK");
}

#[test]
fn config_test_remove_from_collection_not_found() {
    let mut config = load_example_config();
    assert_eq!(keys(&config).len(), 3);
    assert_eq!(
        config.remove_expected_spelling("not found".to_string()).unwrap_err(),
        ConfigAdjustError::NotFound
    );
    assert_eq!(keys(&config).len(), 3);
}

#[test]
fn config_test_set_target_repo_fail() {
    let mut config = load_example_config();
    let new_target = "https://other-link.com/MalteHerrmann/other-repo";
    assert_eq!(
        set_target_repo(&mut config, new_target.to_string()).unwrap_err(),
        ConfigAdjustError::NoGitHubRepository
    );
    assert_ne!(config.target_repo, new_target);
}

#[test]
fn config_test_set_target_repo_pass() {
    let mut config = load_example_config();
    let new_target = "https://github.com/MalteHerrmann/other-repo";
    assert_ne!(config.target_repo, new_target);
    assert!(set_target_repo(&mut config, new_target.to_string()).is_ok());
    assert_eq!(config.target_repo, new_target);
}

#[test]
fn config_target_repo_that_is_no_address() {
    let mut config = load_example_config();
    let before = config.target_repo.clone();
    assert_eq!(
        set_target_repo(&mut config, "not an address".to_string()).unwrap_err(),
        ConfigAdjustError::InvalidURL
    );
    assert_eq!(
        set_target_repo(&mut config, "https://127.0.0.1/a/b".to_string()).unwrap_err(),
        ConfigAdjustError::NoGitHubRepository
    );
    assert_eq!(
        set_target_repo(&mut config, "mailto:someone@github.com".to_string()).unwrap_err(),
        ConfigAdjustError::NoGitHubRepository
    );
    assert_eq!(config.target_repo, before);
    assert_eq!(ConfigAdjustError::InvalidURL.to_string(), "Invalid URL");
    assert_eq!(
        ConfigAdjustError::NoGitHubRepository.to_string(),
        "target repository should be a GitHub link"
    );
    assert_eq!(ConfigAdjustError::NotFound.to_string(), "expected value not found");
    assert_eq!(ConfigAdjustError::CategoryAlreadyFound.to_string(), "category already found");
    assert_eq!(
        ConfigAdjustError::KeyAlreadyFound.to_string(),
        "key is already present in hash map"
    );
}

#[test]
fn config_categories_are_kept_in_order() {
    let mut config = load_example_config();
    config.categories = vec!["zeta".to_string(), "alpha".to_string(), "Beta".to_string()];
    config.add_category("gamma".to_string()).unwrap();
    assert_eq!(config.categories, vec!["Beta", "alpha", "gamma", "zeta"]);
    config.categories = vec!["b".to_string(), "a".to_string(), "b".to_string()];
    config.remove_category("b".to_string()).unwrap();
    assert_eq!(config.categories, vec!["a", "b"]);
}

#[test]
fn config_duplicate_change_types_name_what_is_held() {
    let mut config = load_example_config();
    assert_eq!(
        config.add_change_type("Bug Fixes".to_string(), "new".to_string()).unwrap_err(),
        ConfigAdjustError::DuplicateChangeType("Bug Fixes".to_string())
    );
    let err = config.add_change_type("New".to_string(), "fix".to_string()).unwrap_err();
    assert_eq!(err, ConfigAdjustError::DuplicateChangeType("fix".to_string()));
    assert_eq!(err.to_string(), "duplicate change type: fix");
    assert_eq!(config.change_types.len(), 3);
    assert_eq!(
        config.get_short_change_type("imp"),
        Some(ChangeTypeConfig { short: "imp".into(), long: "Improvements".into() })
    );
}

#[test]
fn config_spellings_are_kept_in_order() {
    let mut config = load_example_config();
    config.add_expected_spelling("Bitcoin".to_string(), "bitcoin".to_string()).unwrap();
    config.add_expected_spelling("AAA".to_string(), "aaa".to_string()).unwrap();
    config.add_expected_spelling("zsh".to_string(), "zsh".to_string()).unwrap();
    config.add_expected_spelling("API2".to_string(), "api2".to_string()).unwrap();
    assert_eq!(keys(&config), vec!["AAA", "API", "API2", "Bitcoin", "CLI", "Web-SDK", "zsh"]);
    let mut sorted = keys(&config);
    sorted.sort();
    assert_eq!(keys(&config), sorted);
}

#[test]
fn config_setters() {
    let mut config = load_example_config();
    config.set_changelog_dir(Some(".changelog".to_string()));
    assert_eq!(config.changelog_dir, Some(".changelog".to_string()));
    config.set_changelog_dir(None);
    assert_eq!(config.changelog_dir, None);
    config.set_mode(Mode::Multi);
    assert_eq!(config.mode, Mode::Multi);
    assert_eq!(config.mode.to_string(), "multi");
    assert_eq!(Mode::Single.to_string(), "single");
    config.set_use_categories(false);
    assert!(!config.use_categories);
}

#[test]
fn config_default() {
    let config = Config::default();
    assert!(config.categories.is_empty());
    assert_eq!(
        config.change_types,
        vec![
            ChangeTypeConfig { short: "feat".into(), long: "Features".into() },
            ChangeTypeConfig { short: "imp".into(), long: "Improvements".into() },
            ChangeTypeConfig { short: "fix".into(), long: "Bug Fixes".into() },
        ]
    );
    assert_eq!(config.commit_message, "add changelog entry");
    assert_eq!(config.changelog_path, "CHANGELOG.md");
    assert_eq!(config.changelog_dir, None);
    assert!(config.expected_spellings.is_empty());
    assert_eq!(config.legacy_version, None);
    assert_eq!(config.mode, Mode::Single);
    assert_eq!(config.target_repo, "");
    assert!(config.use_categories);
    assert_eq!(config.config_version, CURRENT_CONFIG_VERSION);
    assert_eq!(create_default_config().change_types, config.change_types);
}

#[test]
fn config_migration() {
    let mut config = load_example_config();
    assert_eq!(config.get_version(), 1);
    assert!(!needs_migration(&config));
    assert_eq!(get_migration_info(&config), "Configuration is already at the current version.");
    assert_eq!(migrate_to_current(&mut config), Ok(()));
    config.config_version = 0;
    assert!(needs_migration(&config));
    assert_eq!(
        get_migration_info(&config),
        "Configuration will be migrated from version 0 to version 1.\nNew fields will be added with default values."
    );
    let err = migrate_to_current(&mut config).unwrap_err();
    assert_eq!(
        err,
        ConfigError::InvalidConfig("No migration path found from version 0 to 1".to_string())
    );
    assert_eq!(
        err.to_string(),
        "invalid configuration: No migration path found from version 0 to 1"
    );
    assert_eq!(config.config_version, 0);
    config.update_to_current_version();
    assert_eq!(config.config_version, 1);
}
