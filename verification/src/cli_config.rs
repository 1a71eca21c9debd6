//! Changing the configuration as a command asks.

use crate::cli::{
    CategoryOperation,
    ChangeTypeConfigOperation,
    ConfigSubcommands,
    KeyValueOperation,
    OptionalOperation,
};
use crate::config::{
    category_added,
    category_removed,
    change_type_added,
    change_type_removed,
    mode_of,
    set_target_repo,
    spelling_added,
    spelling_removed,
    target_repo_set,
    Config,
    ConfigView,
    Mode,
};
use crate::errors::ConfigAdjustError;
use crate::text::same_text;
use vstd::prelude::*;
use vstd::string::*;

verus! {

/// What is to be done with a configuration after a command has changed it.
#[derive(Clone, Copy, Debug, PartialEq, Eq)]
pub enum AdjustAction {
    /// The configuration is written.
    Write,
    /// The configuration is shown and written.
    ShowAndWrite,
    /// The configuration is brought into the form of now.
    Migrate,
}

/// Whether a text says yes or no: `true` or `false`, to the letter.
pub open spec fn boolean_of(s: Seq<char>) -> Option<bool> {
    if s == "true"@ {
        Some(true)
    } else if s == "false"@ {
        Some(false)
    } else {
        None
    }
}

/// What a command makes of a configuration, and what is to be done with it
/// then. A command that fails leaves the configuration as it is.
pub open spec fn adjusted(
    before: ConfigView,
    command: ConfigSubcommands,
    r: Result<AdjustAction, ConfigAdjustError>,
    after: ConfigView,
) -> bool {
    let done: Result<(), ConfigAdjustError> = match r {
        Ok(_) => Ok(()),
        Err(e) => Err(e),
    };
    &&& r is Err ==> after == before
    &&& r matches Ok(action) ==> action == match command {
        ConfigSubcommands::Show => AdjustAction::ShowAndWrite,
        ConfigSubcommands::Migrate => AdjustAction::Migrate,
        _ => AdjustAction::Write,
    }
    &&& match command {
        ConfigSubcommands::Category(args) => match args.command {
            CategoryOperation::Add { value } => category_added(before, value@, done, after),
            CategoryOperation::Remove { value } => category_removed(before, value@, done, after),
        },
        ConfigSubcommands::ChangeType(args) => match args.command {
            ChangeTypeConfigOperation::Add { long, short } => change_type_added(
                before,
                long@,
                short@,
                done,
                after,
            ),
            ChangeTypeConfigOperation::Remove { short } => change_type_removed(
                before,
                short@,
                done,
                after,
            ),
        },
        ConfigSubcommands::LegacyVersion(args) => r is Ok && after == (ConfigView {
            legacy_version: match args.command {
                OptionalOperation::SetTo { value } => Some(value@),
                OptionalOperation::Unset => None,
            },
            ..before
        }),
        ConfigSubcommands::Show => r is Ok && after == before,
        ConfigSubcommands::Spelling(args) => {
            &&& after == (ConfigView { expected_spellings: after.expected_spellings, ..before })
            &&& match args.command {
                KeyValueOperation::Add { key, value } => spelling_added(
                    before.expected_spellings,
                    key@,
                    value@,
                    done,
                    after.expected_spellings,
                ),
                KeyValueOperation::Remove { key } => spelling_removed(
                    before.expected_spellings,
                    key@,
                    done,
                    after.expected_spellings,
                ),
            }
        },
        ConfigSubcommands::TargetRepo(args) => match done {
            Ok(()) => target_repo_set(before, args.value@) == Ok::<
                ConfigView,
                ConfigAdjustError,
            >(after),
            Err(e) => target_repo_set(before, args.value@) == Err::<
                ConfigView,
                ConfigAdjustError,
            >(e),
        },
        ConfigSubcommands::ChangelogDir(args) => r is Ok && after == (ConfigView {
            changelog_dir: match args.command {
                OptionalOperation::SetTo { value } => Some(value@),
                OptionalOperation::Unset => None,
            },
            ..before
        }),
        ConfigSubcommands::Mode(args) => match mode_of(args.value@) {
            Some(mode) => r is Ok && after == (ConfigView { mode, ..before }),
            None => r matches Err(ConfigAdjustError::InvalidMode(held)) && held@ == args.value@,
        },
        ConfigSubcommands::UseCategories(args) => match args.command {
            OptionalOperation::SetTo { value } => match boolean_of(value@) {
                Some(b) => r is Ok && after == (ConfigView { use_categories: b, ..before }),
                None => r matches Err(ConfigAdjustError::InvalidBoolean(held)) && held@
                    == value@,
            },
            OptionalOperation::Unset => r is Ok && after == (ConfigView {
                use_categories: false,
                ..before
            }),
        },
        ConfigSubcommands::Migrate => r is Ok && after == before,
    }
}

/// Changes the configuration as the command asks, and says what is to be
/// done with it then.
pub fn adjust_config(configuration: &mut Config, config_subcommand: ConfigSubcommands) -> (r:
    Result<AdjustAction, ConfigAdjustError>)
    ensures
        adjusted(old(configuration)@, config_subcommand, r, final(configuration)@),
        r is Err ==> *final(configuration) == *old(configuration),
{
    match config_subcommand {
        ConfigSubcommands::Category(args) => match args.command {
            CategoryOperation::Add { value } => match configuration.add_category(value) {
                Ok(()) => Ok(AdjustAction::Write),
                Err(e) => Err(e),
            },
            CategoryOperation::Remove { value } => match configuration.remove_category(value) {
                Ok(()) => Ok(AdjustAction::Write),
                Err(e) => Err(e),
            },
        },
        ConfigSubcommands::ChangeType(args) => match args.command {
            ChangeTypeConfigOperation::Add { long, short } => match configuration.add_change_type(
                long,
                short,
            ) {
                Ok(()) => Ok(AdjustAction::Write),
                Err(e) => Err(e),
            },
            ChangeTypeConfigOperation::Remove { short } => match configuration.remove_change_type(
                short,
            ) {
                Ok(()) => Ok(AdjustAction::Write),
                Err(e) => Err(e),
            },
        },
        ConfigSubcommands::LegacyVersion(args) => {
            match args.command {
                OptionalOperation::SetTo { value } => {
                    configuration.legacy_version = Some(value);
                },
                OptionalOperation::Unset => {
                    configuration.legacy_version = None;
                },
            }
            Ok(AdjustAction::Write)
        },
        ConfigSubcommands::Show => Ok(AdjustAction::ShowAndWrite),
        ConfigSubcommands::Spelling(args) => match args.command {
            KeyValueOperation::Add { key, value } => match configuration.add_expected_spelling(
                key,
                value,
            ) {
                Ok(()) => Ok(AdjustAction::Write),
                Err(e) => Err(e),
            },
            KeyValueOperation::Remove { key } => match configuration.remove_expected_spelling(
                key,
            ) {
                Ok(()) => Ok(AdjustAction::Write),
                Err(e) => Err(e),
            },
        },
        ConfigSubcommands::TargetRepo(args) => match set_target_repo(configuration, args.value) {
            Ok(()) => Ok(AdjustAction::Write),
            Err(e) => Err(e),
        },
        ConfigSubcommands::ChangelogDir(args) => {
            match args.command {
                OptionalOperation::SetTo { value } => configuration.set_changelog_dir(Some(value)),
                OptionalOperation::Unset => configuration.set_changelog_dir(None),
            }
            Ok(AdjustAction::Write)
        },
        ConfigSubcommands::Mode(args) => match Mode::parse(args.value.as_str()) {
            Some(mode) => {
                configuration.set_mode(mode);
                Ok(AdjustAction::Write)
            },
            None => Err(ConfigAdjustError::InvalidMode(args.value)),
        },
        ConfigSubcommands::UseCategories(args) => match args.command {
            OptionalOperation::SetTo { value } => {
                if same_text(value.as_str(), "true") {
                    configuration.set_use_categories(true);
                    Ok(AdjustAction::Write)
                } else if same_text(value.as_str(), "false") {
                    configuration.set_use_categories(false);
                    Ok(AdjustAction::Write)
                } else {
                    Err(ConfigAdjustError::InvalidBoolean(value))
                }
            },
            OptionalOperation::Unset => {
                configuration.set_use_categories(false);
                Ok(AdjustAction::Write)
            },
        },
        ConfigSubcommands::Migrate => Ok(AdjustAction::Migrate),
    }
}

} // verus!
