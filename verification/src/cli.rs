//! The commands of the program and their arguments, as plain values.

use vstd::prelude::*;

verus! {

/// The commands.
#[derive(Clone, Debug, PartialEq)]
pub enum ChangelogCLI {
    /// Adds an entry to the unreleased section.
    Add(AddArgs),
    /// Says how the tool is set up.
    Check,
    /// Checks that a pull request brought its entry.
    CheckDiff,
    /// Opens a pull request and adds its entry.
    CreatePR,
    /// Fixes the changelog.
    Fix,
    /// Hands out the section of one release.
    Get(GetArgs),
    /// Lints the changelog.
    Lint,
    /// Sets the tool up.
    Init,
    /// Changes the configuration.
    Config(ConfigSubcommands),
    /// Makes a release of what is not released yet.
    Release(ReleaseArgs),
}

/// What `add` is called with.
#[derive(Clone, Debug, PartialEq)]
pub struct AddArgs {
    /// The number of the pull request.
    pub number: Option<u64>,
    /// Whether what the pull request tells is taken without asking.
    pub yes: bool,
}

/// What `get` is called with.
#[derive(Clone, Debug, PartialEq)]
pub struct GetArgs {
    pub version: String,
}

/// What of the configuration is changed.
#[derive(Clone, Debug, PartialEq)]
pub enum ConfigSubcommands {
    Category(ConfigArgs),
    ChangeType(ChangeTypeArgs),
    LegacyVersion(ConditionalArgs),
    Show,
    Spelling(KeyValueArgs),
    TargetRepo(StringValue),
    ChangelogDir(ConditionalArgs),
    Mode(StringValue),
    UseCategories(ConditionalArgs),
    Migrate,
}

/// One text.
#[derive(Clone, Debug, PartialEq)]
pub struct StringValue {
    pub value: String,
}

/// What is done with a category.
#[derive(Clone, Debug, PartialEq)]
pub struct ConfigArgs {
    pub command: CategoryOperation,
}

/// What `release` is called with.
#[derive(Clone, Debug, PartialEq)]
pub struct ReleaseArgs {
    pub version: Option<String>,
}

/// To add or to remove a category.
#[derive(Clone, Debug, PartialEq)]
pub enum CategoryOperation {
    Add { value: String },
    Remove { value: String },
}

/// What is done with a change type.
#[derive(Clone, Debug, PartialEq)]
pub struct ChangeTypeArgs {
    pub command: ChangeTypeConfigOperation,
}

/// To add or to remove a change type.
#[derive(Clone, Debug, PartialEq)]
pub enum ChangeTypeConfigOperation {
    Add { long: String, short: String },
    Remove { short: String },
}

/// What is done with an expected spelling.
#[derive(Clone, Debug, PartialEq)]
pub struct KeyValueArgs {
    pub command: KeyValueOperation,
}

/// To add or to remove an expected spelling.
#[derive(Clone, Debug, PartialEq)]
pub enum KeyValueOperation {
    Add { key: String, value: String },
    Remove { key: String },
}

/// What is done with a value that may be missing.
#[derive(Clone, Debug, PartialEq)]
pub struct ConditionalArgs {
    pub command: OptionalOperation,
}

/// To set or to unset a value that may be missing.
#[derive(Clone, Debug, PartialEq)]
pub enum OptionalOperation {
    SetTo { value: String },
    Unset,
}

} // verus!
