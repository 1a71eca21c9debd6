use clu::changelog::parse_changelog;
use clu::cli::{
    AddArgs, CategoryOperation, ChangeTypeArgs, ChangeTypeConfigOperation, ChangelogCLI,
    ConditionalArgs, ConfigArgs, ConfigSubcommands, GetArgs, KeyValueArgs, KeyValueOperation,
    OptionalOperation, ReleaseArgs, StringValue,
};
use clu::cli_config::{adjust_config, AdjustAction};
use clu::config::{ChangeTypeConfig, Config, Mode};
use clu::create_pr::{action_of, create_step, get_pr_title, CreateAction, CreateEvent, CreateStep};
use clu::errors::{ConfigAdjustError, CreateError, EntryError};
use clu::github::PRInfo;
use clu::init::init_settings;
use clu::inputs::{begin_inputs, next_question, take_answer, Answer, InputStep, Question};

fn load_test_config() -> Config {
    let mut config = Config::default();
    config.categories = vec!["cli".to_string(), "test".to_string()];
    config.target_repo = "https://github.com/Org/Repo".to_string();
    config
}

fn conditional(value: Option<&str>) -> ConditionalArgs {
    ConditionalArgs {
        command: match value {
            Some(value) => OptionalOperation::SetTo { value: value.to_string() },
            None => OptionalOperation::Unset,
        },
    }
}

#[test]
fn cli_commands_are_plain_values() {
    let add = ChangelogCLI::Add(AddArgs { number: Some(3), yes: true });
    assert_eq!(add.clone(), add);
    assert_ne!(add, ChangelogCLI::Lint);
    let get = ChangelogCLI::Get(GetArgs { version: "v1.0.0".to_string() });
    assert_ne!(get, ChangelogCLI::Get(GetArgs { version: "v1.0.1".to_string() }));
    let release = ChangelogCLI::Release(ReleaseArgs { version: None });
    assert_ne!(release, ChangelogCLI::Fix);
    for command in [
        ChangelogCLI::Check,
        ChangelogCLI::CheckDiff,
        ChangelogCLI::CreatePR,
        ChangelogCLI::Init,
        ChangelogCLI::Config(ConfigSubcommands::Show),
    ] {
        assert_eq!(command.clone(), command);
    }
}

#[test]
fn config_is_adjusted_as_asked() {
    let mut config = load_test_config();
    let add = ConfigSubcommands::Category(ConfigArgs {
        command: CategoryOperation::Add { value: "api".to_string() },
    });
    assert_eq!(adjust_config(&mut config, add.clone()), Ok(AdjustAction::Write));
    assert_eq!(config.categories, vec!["api", "cli", "test"]);
    assert_eq!(
        adjust_config(&mut config, add),
        Err(ConfigAdjustError::CategoryAlreadyFound)
    );
    let remove = ConfigSubcommands::Category(ConfigArgs {
        command: CategoryOperation::Remove { value: "cli".to_string() },
    });
    assert_eq!(adjust_config(&mut config, remove.clone()), Ok(AdjustAction::Write));
    assert_eq!(adjust_config(&mut config, remove), Err(ConfigAdjustError::NotFound));
    assert_eq!(config.categories, vec!["api", "test"]);

    let add = ConfigSubcommands::ChangeType(ChangeTypeArgs {
        command: ChangeTypeConfigOperation::Add {
            long: "Dependencies".to_string(),
            short: "deps".to_string(),
        },
    });
    assert_eq!(adjust_config(&mut config, add), Ok(AdjustAction::Write));
    assert_eq!(
        config.change_types[3],
        ChangeTypeConfig { short: "deps".into(), long: "Dependencies".into() }
    );
    let remove = ConfigSubcommands::ChangeType(ChangeTypeArgs {
        command: ChangeTypeConfigOperation::Remove { short: "feat".to_string() },
    });
    assert_eq!(adjust_config(&mut config, remove), Ok(AdjustAction::Write));
    assert_eq!(config.change_types.len(), 3);

    let add = ConfigSubcommands::Spelling(KeyValueArgs {
        command: KeyValueOperation::Add { key: "API".to_string(), value: "api".to_string() },
    });
    assert_eq!(adjust_config(&mut config, add.clone()), Ok(AdjustAction::Write));
    assert_eq!(adjust_config(&mut config, add), Err(ConfigAdjustError::KeyAlreadyFound));
    let remove = ConfigSubcommands::Spelling(KeyValueArgs {
        command: KeyValueOperation::Remove { key: "API".to_string() },
    });
    assert_eq!(adjust_config(&mut config, remove), Ok(AdjustAction::Write));
    assert!(config.expected_spellings.is_empty());

    assert_eq!(
        adjust_config(&mut config, ConfigSubcommands::LegacyVersion(conditional(Some("v1.0.0")))),
        Ok(AdjustAction::Write)
    );
    assert_eq!(config.legacy_version, Some("v1.0.0".to_string()));
    adjust_config(&mut config, ConfigSubcommands::LegacyVersion(conditional(None))).unwrap();
    assert_eq!(config.legacy_version, None);
    adjust_config(&mut config, ConfigSubcommands::ChangelogDir(conditional(Some(".changelog"))))
        .unwrap();
    assert_eq!(config.changelog_dir, Some(".changelog".to_string()));

    let target = |value: &str| ConfigSubcommands::TargetRepo(StringValue { value: value.to_string() });
    assert_eq!(
        adjust_config(&mut config, target("https://github.com/a/b")),
        Ok(AdjustAction::Write)
    );
    assert_eq!(config.target_repo, "https://github.com/a/b");
    assert_eq!(
        adjust_config(&mut config, target("https://example.com/a/b")),
        Err(ConfigAdjustError::NoGitHubRepository)
    );
    assert_eq!(config.target_repo, "https://github.com/a/b");

    let mode = |value: &str| ConfigSubcommands::Mode(StringValue { value: value.to_string() });
    assert_eq!(adjust_config(&mut config, mode("MULTI")), Ok(AdjustAction::Write));
    assert_eq!(config.mode, Mode::Multi);
    let err = adjust_config(&mut config, mode("many")).unwrap_err();
    assert_eq!(err, ConfigAdjustError::InvalidMode("many".to_string()));
    assert_eq!(err.to_string(), "Invalid mode: many. Expected 'single' or 'multi'");
    assert_eq!(Mode::parse("Single"), Some(Mode::Single));
    assert_eq!(Mode::parse(""), None);

    adjust_config(&mut config, ConfigSubcommands::UseCategories(conditional(Some("false")))).unwrap();
    assert!(!config.use_categories);
    adjust_config(&mut config, ConfigSubcommands::UseCategories(conditional(Some("true")))).unwrap();
    assert!(config.use_categories);
    let err = adjust_config(&mut config, ConfigSubcommands::UseCategories(conditional(Some("yes"))))
        .unwrap_err();
    assert_eq!(err, ConfigAdjustError::InvalidBoolean("yes".to_string()));
    assert_eq!(err.to_string(), "invalid boolean: yes");
    assert!(config.use_categories);
    adjust_config(&mut config, ConfigSubcommands::UseCategories(conditional(None))).unwrap();
    assert!(!config.use_categories);

    assert_eq!(adjust_config(&mut config, ConfigSubcommands::Show), Ok(AdjustAction::ShowAndWrite));
    assert_eq!(adjust_config(&mut config, ConfigSubcommands::Migrate), Ok(AdjustAction::Migrate));
}

#[test]
fn init_settings_of_a_new_project() {
    let (config, skeleton) = init_settings(Some("https://github.com/a/b".to_string()), None);
    assert_eq!(config.target_repo, "https://github.com/a/b");
    assert_eq!(config.change_types.len(), 3);
    assert!(skeleton.unwrap().ends_with("# Changelog\n\n## Unreleased\n"));
    let contents = "### Bug Fixes\n- (z) [#1](l) A.\n- (a) [#2](l) B.\n";
    let (config, skeleton) = init_settings(None, Some(contents));
    assert_eq!(skeleton, None);
    assert_eq!(config.target_repo, "");
    assert_eq!(config.categories, vec!["a", "z"]);
    assert_eq!(
        config.change_types,
        vec![ChangeTypeConfig { short: "bug".into(), long: "Bug Fixes".into() }]
    );
}

#[test]
fn create_pr_steps() {
    assert_eq!(action_of(CreateStep::OpenPr), CreateAction::LookForOpenPr);
    assert_eq!(action_of(CreateStep::Branch), CreateAction::LookForBranch);
    assert_eq!(action_of(CreateStep::Permission), CreateAction::AskPermission);
    assert_eq!(action_of(CreateStep::Push), CreateAction::PushBranch);
    assert_eq!(action_of(CreateStep::PushedBranch), CreateAction::LookForBranch);
    assert_eq!(action_of(CreateStep::Ready), CreateAction::OpenPullRequest);

    let err = create_step(CreateStep::OpenPr, CreateEvent::OpenPr(Some(7)), "b").unwrap_err();
    assert_eq!(err, CreateError::ExistingPR(7));
    assert_eq!(err.to_string(), "found an existing PR for this branch: 7");
    assert_eq!(
        create_step(CreateStep::OpenPr, CreateEvent::OpenPr(None), "b"),
        Ok(CreateStep::Branch)
    );
    assert_eq!(
        create_step(CreateStep::Branch, CreateEvent::BranchOnRemote(true), "b"),
        Ok(CreateStep::Ready)
    );
    assert_eq!(
        create_step(CreateStep::Branch, CreateEvent::BranchOnRemote(false), "b"),
        Ok(CreateStep::Permission)
    );
    let err = create_step(CreateStep::Permission, CreateEvent::Permission(false), "b").unwrap_err();
    assert_eq!(err, CreateError::BranchNotOnRemote("b".to_string()));
    assert_eq!(err.to_string(), "branch not found on remote: b");
    assert_eq!(
        create_step(CreateStep::Permission, CreateEvent::Permission(true), "b"),
        Ok(CreateStep::Push)
    );
    assert_eq!(
        create_step(CreateStep::Push, CreateEvent::Pushed, "b"),
        Ok(CreateStep::PushedBranch)
    );
    assert_eq!(
        create_step(CreateStep::PushedBranch, CreateEvent::BranchOnRemote(true), "b"),
        Ok(CreateStep::Ready)
    );
    assert_eq!(
        create_step(CreateStep::PushedBranch, CreateEvent::BranchOnRemote(false), "b"),
        Err(CreateError::BranchNotOnRemote("b".to_string()))
    );
    // an event that does not belong to the step changes nothing
    assert_eq!(create_step(CreateStep::Ready, CreateEvent::Pushed, "b"), Ok(CreateStep::Ready));
    assert_eq!(
        create_step(CreateStep::Branch, CreateEvent::Permission(true), "b"),
        Ok(CreateStep::Branch)
    );

    let config = load_test_config();
    assert_eq!(
        get_pr_title(&config, "Bug Fixes", "cli", "Fix it."),
        Some("fix(cli): Fix it.".to_string())
    );
    assert_eq!(get_pr_title(&config, "fix", "cli", "Fix it."), None);
}

#[test]
fn inputs_are_asked_for_in_order() {
    let config = load_test_config();
    let changelog = parse_changelog(
        &config,
        "c.md",
        "## Unreleased\n### Features\n- (cli) [#5](https://github.com/Org/Repo/pull/5) Five.\n",
    )
    .unwrap();
    let info = PRInfo {
        change_type: "Features".to_string(),
        category: "cli".to_string(),
        description: "add it".to_string(),
        number: 5,
    };
    // everything is known and accepted: only the number is asked for, being held already
    let mut state = begin_inputs(&info, true, true);
    assert!(!state.ask_all);
    assert_eq!(
        next_question(&config, &changelog, &mut state),
        Ok(Question::PrNumber { suggestion: 5, duplicate: true })
    );
    assert_eq!(state.step, InputStep::Review);
    take_answer(&mut state, Answer::Number(6));
    assert_eq!(
        next_question(&config, &changelog, &mut state),
        Ok(Question::Confirmation {
            fixed: "- (cli) [#6](https://github.com/Org/Repo/pull/6) Add it.".to_string(),
            problems: vec![
                "PR description should start with capital letter: 'add it'".to_string(),
                "PR description should end with a dot: 'add it'".to_string(),
            ],
        })
    );
    // a refusal begins the asking again, with every part
    take_answer(&mut state, Answer::Confirmed(false));
    assert_eq!(
        next_question(&config, &changelog, &mut state),
        Ok(Question::ChangeType("Features".to_string()))
    );
    take_answer(&mut state, Answer::Text("Bug Fixes".to_string()));
    assert_eq!(
        next_question(&config, &changelog, &mut state),
        Ok(Question::PrNumber { suggestion: 6, duplicate: false })
    );
    take_answer(&mut state, Answer::Number(7));
    assert_eq!(
        next_question(&config, &changelog, &mut state),
        Ok(Question::Category("cli".to_string()))
    );
    take_answer(&mut state, Answer::Text("test".to_string()));
    assert_eq!(
        next_question(&config, &changelog, &mut state),
        Ok(Question::Description("add it".to_string()))
    );
    take_answer(&mut state, Answer::Text("Add it.".to_string()));
    assert_eq!(
        next_question(&config, &changelog, &mut state),
        Ok(Question::Confirmation {
            fixed: "- (test) [#7](https://github.com/Org/Repo/pull/7) Add it.".to_string(),
            problems: vec![],
        })
    );
    take_answer(&mut state, Answer::Confirmed(true));
    assert_eq!(next_question(&config, &changelog, &mut state), Ok(Question::Nothing));
    assert_eq!(state.step, InputStep::Done);
    assert_eq!(state.change_type, "Bug Fixes");
    assert_eq!(state.pr_number, 7);
    assert_eq!(state.category, "test");
    assert_eq!(state.description, "Add it.");
}

#[test]
fn inputs_that_are_not_known_are_asked_for() {
    let config = load_test_config();
    let changelog = parse_changelog(&config, "c.md", "## Unreleased\n").unwrap();
    let info = PRInfo {
        change_type: "feat".to_string(),
        category: "unknown".to_string(),
        description: "Text.".to_string(),
        number: 9,
    };
    let mut state = begin_inputs(&info, true, true);
    assert_eq!(
        next_question(&config, &changelog, &mut state),
        Ok(Question::ChangeType("feat".to_string()))
    );
    take_answer(&mut state, Answer::Text("Features".to_string()));
    assert_eq!(
        next_question(&config, &changelog, &mut state),
        Ok(Question::Category("unknown".to_string()))
    );
    // an answer that does not fit the question changes nothing
    take_answer(&mut state, Answer::Number(1));
    assert_eq!(state.step, InputStep::Category);
    take_answer(&mut state, Answer::Text("bad category".to_string()));
    // parts that make no entry
    assert_eq!(
        next_question(&config, &changelog, &mut state),
        Err(EntryError::InvalidEntry(
            "- (bad category) [#9](https://github.com/Org/Repo/pull/9) Text.".to_string()
        ))
    );
    // nothing was found, or nothing is accepted: everything is asked for
    assert!(begin_inputs(&info, false, true).ask_all);
    assert!(begin_inputs(&info, true, false).ask_all);
    let mut state = begin_inputs(&PRInfo::default(), true, false);
    assert_eq!(
        next_question(&config, &changelog, &mut state),
        Ok(Question::ChangeType(String::new()))
    );
}
