//! What the parsers of this crate answer where they cannot parse.

use vstd::prelude::*;
use vstd::string::*;

verus! {

/// A line that is no entry.
#[derive(Debug, PartialEq)]
pub enum EntryError {
    /// The line does not follow the grammar of an entry; it is held here.
    InvalidEntry(String),
}

impl EntryError {
    /// The message of the error.
    pub open spec fn text(self) -> Seq<char> {
        match self {
            EntryError::InvalidEntry(line) => "invalid entry: "@ + line@,
        }
    }

    /// The message of the error.
    pub fn to_string(&self) -> (s: String)
        ensures
            s@ == self.text(),
    {
        match self {
            EntryError::InvalidEntry(line) => {
                let mut s = String::from_str("invalid entry: ");
                s.append(line.as_str());
                s
            },
        }
    }
}

/// Why a text holds nothing to hold against an expected spelling.
#[derive(Debug, PartialEq)]
pub enum MatchError {
    /// A match stands between two backticks.
    MatchInCodeblock,
    /// The pattern of the spelling is no regular expression.
    InvalidRegex,
    /// The pattern matches no word of the text.
    NoMatchFound,
}

impl MatchError {
    /// The message of the error.
    pub open spec fn text(self) -> Seq<char> {
        match self {
            MatchError::MatchInCodeblock => "match is nested inside of code block"@,
            MatchError::InvalidRegex => "invalid regex"@,
            MatchError::NoMatchFound => "no match found"@,
        }
    }

    /// The message of the error.
    pub fn to_string(&self) -> (s: String)
        ensures
            s@ == self.text(),
    {
        match self {
            MatchError::MatchInCodeblock => String::from_str(
                "match is nested inside of code block",
            ),
            MatchError::InvalidRegex => String::from_str("invalid regex"),
            MatchError::NoMatchFound => String::from_str("no match found"),
        }
    }
}

/// A text that is no version.
#[derive(Debug, PartialEq)]
pub enum VersionError {
    /// A number of the version does not fit into eight bits.
    NoInteger,
    /// The text does not read `vMAJOR.MINOR.PATCH` or
    /// `vMAJOR.MINOR.PATCH-rcN`.
    NoMatchFound,
}

impl VersionError {
    /// The message of the error.
    pub open spec fn text(self) -> Seq<char> {
        match self {
            VersionError::NoInteger => "failed to parse version integer"@,
            VersionError::NoMatchFound => "version does not follow semantic versioning"@,
        }
    }

    /// The message of the error.
    pub fn to_string(&self) -> (s: String)
        ensures
            s@ == self.text(),
    {
        match self {
            VersionError::NoInteger => String::from_str("failed to parse version integer"),
            VersionError::NoMatchFound => String::from_str(
                "version does not follow semantic versioning",
            ),
        }
    }
}

/// A line that is no release header, or a release whose version cannot be
/// read.
#[derive(Debug, PartialEq)]
pub enum ReleaseError {
    /// The version of the release, or the legacy version it is held against,
    /// is no version.
    InvalidVersion(VersionError),
    /// The line does not follow the grammar of a release header.
    NoMatchFound,
}

impl ReleaseError {
    /// The message of the error.
    pub open spec fn text(self) -> Seq<char> {
        match self {
            ReleaseError::InvalidVersion(e) => "invalid version: "@ + e.text(),
            ReleaseError::NoMatchFound => "no release pattern found in line"@,
        }
    }

    /// The message of the error.
    pub fn to_string(&self) -> (s: String)
        ensures
            s@ == self.text(),
    {
        match self {
            ReleaseError::InvalidVersion(e) => {
                let mut s = String::from_str("invalid version: ");
                s.append(e.to_string().as_str());
                s
            },
            ReleaseError::NoMatchFound => String::from_str("no release pattern found in line"),
        }
    }
}

/// A line that is no change type header, or a configuration whose change
/// types cannot be searched for.
#[derive(Debug, PartialEq)]
pub enum ChangeTypeError {
    /// The pattern made from a configured change type is no regular
    /// expression.
    InvalidRegex,
    /// The line does not follow the grammar of a change type header.
    NoMatchesFound,
}

impl ChangeTypeError {
    /// The message of the error.
    pub open spec fn text(self) -> Seq<char> {
        match self {
            ChangeTypeError::InvalidRegex => "invalid regex"@,
            ChangeTypeError::NoMatchesFound => "no matches found"@,
        }
    }

    /// The message of the error.
    pub fn to_string(&self) -> (s: String)
        ensures
            s@ == self.text(),
    {
        match self {
            ChangeTypeError::InvalidRegex => String::from_str("invalid regex"),
            ChangeTypeError::NoMatchesFound => String::from_str("no matches found"),
        }
    }
}

/// Why a configuration is not changed as asked.
#[derive(Debug, PartialEq)]
pub enum ConfigAdjustError {
    /// The category is in the configuration already.
    CategoryAlreadyFound,
    /// The spelling is in the configuration already.
    KeyAlreadyFound,
    /// A change type of this name, long or short, is in the configuration
    /// already.
    DuplicateChangeType(String),
    /// The text is neither `true` nor `false`.
    InvalidBoolean(String),
    /// The text names no mode.
    InvalidMode(String),
    /// The text is no address.
    InvalidURL,
    /// What is to be removed is not in the configuration.
    NotFound,
    /// The address is not one of GitHub.
    NoGitHubRepository,
}

impl ConfigAdjustError {
    /// The message of the error.
    pub open spec fn text(self) -> Seq<char> {
        match self {
            ConfigAdjustError::CategoryAlreadyFound => "category already found"@,
            ConfigAdjustError::KeyAlreadyFound => "key is already present in hash map"@,
            ConfigAdjustError::DuplicateChangeType(name) => "duplicate change type: "@ + name@,
            ConfigAdjustError::InvalidBoolean(held) => "invalid boolean: "@ + held@,
            ConfigAdjustError::InvalidMode(held) => "Invalid mode: "@ + held@
                + ". Expected 'single' or 'multi'"@,
            ConfigAdjustError::InvalidURL => "Invalid URL"@,
            ConfigAdjustError::NotFound => "expected value not found"@,
            ConfigAdjustError::NoGitHubRepository => "target repository should be a GitHub link"@,
        }
    }

    /// The message of the error.
    pub fn to_string(&self) -> (s: String)
        ensures
            s@ == self.text(),
    {
        match self {
            ConfigAdjustError::CategoryAlreadyFound => String::from_str("category already found"),
            ConfigAdjustError::KeyAlreadyFound => String::from_str(
                "key is already present in hash map",
            ),
            ConfigAdjustError::DuplicateChangeType(name) => {
                let mut s = String::from_str("duplicate change type: ");
                s.append(name.as_str());
                s
            },
            ConfigAdjustError::InvalidBoolean(held) => {
                let mut s = String::from_str("invalid boolean: ");
                s.append(held.as_str());
                s
            },
            ConfigAdjustError::InvalidMode(held) => {
                let mut s = String::from_str("Invalid mode: ");
                s.append(held.as_str());
                s.append(". Expected 'single' or 'multi'");
                s
            },
            ConfigAdjustError::InvalidURL => String::from_str("Invalid URL"),
            ConfigAdjustError::NotFound => String::from_str("expected value not found"),
            ConfigAdjustError::NoGitHubRepository => String::from_str(
                "target repository should be a GitHub link",
            ),
        }
    }
}

/// A configuration that cannot be worked with.
#[derive(Debug, PartialEq)]
pub enum ConfigError {
    /// What is wrong with the configuration, in words.
    InvalidConfig(String),
}

impl ConfigError {
    /// The message of the error.
    pub open spec fn text(self) -> Seq<char> {
        match self {
            ConfigError::InvalidConfig(message) => "invalid configuration: "@ + message@,
        }
    }

    /// The message of the error.
    pub fn to_string(&self) -> (s: String)
        ensures
            s@ == self.text(),
    {
        match self {
            ConfigError::InvalidConfig(message) => {
                let mut s = String::from_str("invalid configuration: ");
                s.append(message.as_str());
                s
            },
        }
    }
}

/// Why a changelog cannot be read with a configuration.
#[derive(Debug, PartialEq)]
pub enum ChangelogError {
    /// The change types of the configuration cannot be searched for.
    InvalidChangeType(ChangeTypeError),
    /// The version of a release, or the legacy version, cannot be read.
    InvalidRelease(ReleaseError),
}

impl ChangelogError {
    /// The message of the error.
    pub open spec fn text(self) -> Seq<char> {
        match self {
            ChangelogError::InvalidChangeType(e) => "failed to parse change type: "@ + e.text(),
            ChangelogError::InvalidRelease(e) => "failed to parse release: "@ + e.text(),
        }
    }

    /// The message of the error.
    pub fn to_string(&self) -> (s: String)
        ensures
            s@ == self.text(),
    {
        match self {
            ChangelogError::InvalidChangeType(e) => {
                let mut s = String::from_str("failed to parse change type: ");
                s.append(e.to_string().as_str());
                s
            },
            ChangelogError::InvalidRelease(e) => {
                let mut s = String::from_str("failed to parse release: ");
                s.append(e.to_string().as_str());
                s
            },
        }
    }
}

/// Why a pull request has no entry of its own in the changelog.
#[derive(Debug, PartialEq)]
pub enum CheckDiffError {
    /// No entry of the unreleased section names the pull request, or none
    /// was added by it.
    NoEntry,
    /// The changelog has no unreleased section.
    NoUnreleased,
}

impl CheckDiffError {
    /// The message of the error.
    pub open spec fn text(self) -> Seq<char> {
        match self {
            CheckDiffError::NoEntry => "no unreleased entry found for pr"@,
            CheckDiffError::NoUnreleased => "no unreleased section in changelog"@,
        }
    }

    /// The message of the error.
    pub fn to_string(&self) -> (s: String)
        ensures
            s@ == self.text(),
    {
        match self {
            CheckDiffError::NoEntry => String::from_str("no unreleased entry found for pr"),
            CheckDiffError::NoUnreleased => String::from_str("no unreleased section in changelog"),
        }
    }
}

/// Why the answers of Git tell nothing.
#[derive(Debug, PartialEq)]
pub enum GitError {
    /// Nothing differs between the two branches that are named.
    EmptyDiff(String, String),
    /// The pattern for the address of a repository is no regular
    /// expression.
    InvalidRegex,
    /// The text that is held names no repository at GitHub.
    RegexMatch(String),
}

impl GitError {
    /// The message of the error.
    pub open spec fn text(self) -> Seq<char> {
        match self {
            GitError::EmptyDiff(branch, target) => "empty diff found between '"@ + branch@
                + "' and '"@ + target@ + "'"@,
            GitError::InvalidRegex => "failed to build regex"@,
            GitError::RegexMatch(held) => "failed to match GitHub repo: "@ + held@,
        }
    }

    /// The message of the error.
    pub fn to_string(&self) -> (s: String)
        ensures
            s@ == self.text(),
    {
        match self {
            GitError::EmptyDiff(branch, target) => {
                let mut s = String::from_str("empty diff found between '");
                s.append(branch.as_str());
                s.append("' and '");
                s.append(target.as_str());
                s.append("'");
                s
            },
            GitError::InvalidRegex => String::from_str("failed to build regex"),
            GitError::RegexMatch(held) => {
                let mut s = String::from_str("failed to match GitHub repo: ");
                s.append(held.as_str());
                s
            },
        }
    }
}

/// Why the title of a pull request tells nothing.
#[derive(Debug, PartialEq)]
pub enum GitHubError {
    /// The pattern for the title of a pull request is no regular
    /// expression.
    InvalidRegex,
}

impl GitHubError {
    /// The message of the error.
    pub open spec fn text(self) -> Seq<char> {
        match self {
            GitHubError::InvalidRegex => "failed to build regex"@,
        }
    }

    /// The message of the error.
    pub fn to_string(&self) -> (s: String)
        ensures
            s@ == self.text(),
    {
        match self {
            GitHubError::InvalidRegex => String::from_str("failed to build regex"),
        }
    }
}

/// Why no pull request is opened.
#[derive(Debug, PartialEq)]
pub enum CreateError {
    /// The branch is not at the remote repository.
    BranchNotOnRemote(String),
    /// A pull request for the branch is open already.
    ExistingPR(u64),
    /// The answer that is held names no suggestions.
    FailedToMatch(String),
}

impl CreateError {
    /// The message of the error.
    pub open spec fn text(self) -> Seq<char> {
        match self {
            CreateError::BranchNotOnRemote(branch) => "branch not found on remote: "@ + branch@,
            CreateError::ExistingPR(number) => "found an existing PR for this branch: "@
                + crate::text::decimal(number as nat),
            CreateError::FailedToMatch(held) => "failed to match: "@ + held@,
        }
    }

    /// The message of the error.
    pub fn to_string(&self) -> (s: String)
        ensures
            s@ == self.text(),
    {
        match self {
            CreateError::BranchNotOnRemote(branch) => {
                let mut s = String::from_str("branch not found on remote: ");
                s.append(branch.as_str());
                s
            },
            CreateError::ExistingPR(number) => {
                let mut s = String::from_str("found an existing PR for this branch: ");
                crate::text::push_decimal(&mut s, *number);
                s
            },
            CreateError::FailedToMatch(held) => {
                let mut s = String::from_str("failed to match: ");
                s.append(held.as_str());
                s
            },
        }
    }
}

/// Why the contents of a release are not handed out.
#[derive(Debug, PartialEq)]
pub enum GetError {
    /// The changelog holds no release of this version.
    VersionNotFound(String),
}

impl GetError {
    /// The message of the error.
    pub open spec fn text(self) -> Seq<char> {
        match self {
            GetError::VersionNotFound(version) => "version not found: "@ + version@,
        }
    }

    /// The message of the error.
    pub fn to_string(&self) -> (s: String)
        ensures
            s@ == self.text(),
    {
        match self {
            GetError::VersionNotFound(version) => {
                let mut s = String::from_str("version not found: ");
                s.append(version.as_str());
                s
            },
        }
    }
}

/// Why the linter does not end well.
#[derive(Debug, PartialEq)]
pub enum LintError {
    /// The changelog cannot be read with the configuration.
    InvalidChangelog(ChangelogError),
    /// The changelog has problems.
    ProblemsInChangelog,
}

impl LintError {
    /// The message of the error.
    pub open spec fn text(self) -> Seq<char> {
        match self {
            LintError::InvalidChangelog(e) => "failed to parse changelog: "@ + e.text(),
            LintError::ProblemsInChangelog => "found problems in changelog"@,
        }
    }

    /// The message of the error.
    pub fn to_string(&self) -> (s: String)
        ensures
            s@ == self.text(),
    {
        match self {
            LintError::InvalidChangelog(e) => {
                let mut s = String::from_str("failed to parse changelog: ");
                s.append(e.to_string().as_str());
                s
            },
            LintError::ProblemsInChangelog => String::from_str("found problems in changelog"),
        }
    }
}

/// Why what is not released yet does not become a release.
#[derive(Debug, PartialEq)]
pub enum ReleaseCLIError {
    /// The changelog holds a release of this version already.
    DuplicateVersion(String),
    /// The version of the latest release cannot be read, or no version
    /// follows it.
    InvalidVersion(VersionError),
    /// The changelog holds no release to go on from.
    NoRelease,
    /// The changelog has no unreleased section.
    NoUnreleased,
}

impl ReleaseCLIError {
    /// The message of the error.
    pub open spec fn text(self) -> Seq<char> {
        match self {
            ReleaseCLIError::DuplicateVersion(version) => "duplicate version: "@ + version@,
            ReleaseCLIError::InvalidVersion(e) => "invalid version: "@ + e.text(),
            ReleaseCLIError::NoRelease => "no release found"@,
            ReleaseCLIError::NoUnreleased => "no unreleased features"@,
        }
    }

    /// The message of the error.
    pub fn to_string(&self) -> (s: String)
        ensures
            s@ == self.text(),
    {
        match self {
            ReleaseCLIError::DuplicateVersion(version) => {
                let mut s = String::from_str("duplicate version: ");
                s.append(version.as_str());
                s
            },
            ReleaseCLIError::InvalidVersion(e) => {
                let mut s = String::from_str("invalid version: ");
                s.append(e.to_string().as_str());
                s
            },
            ReleaseCLIError::NoRelease => String::from_str("no release found"),
            ReleaseCLIError::NoUnreleased => String::from_str("no unreleased features"),
        }
    }
}

} // verus!
