//! Opening a pull request: what is to be done next, and when to give up.
//!
//! Talking to Git, to GitHub and to the user is the business of the
//! program. It reports what it found as an event; `create_step` says where
//! the work stands then, `action_of` what is to be done there.

use crate::config::{first_index, long_names, Config, ConfigView};
use crate::errors::CreateError;
use crate::github::{pr_title, pr_title_text};
use vstd::prelude::*;
use vstd::string::*;

verus! {

/// Where the work stands.
#[derive(Clone, Copy, Debug, PartialEq, Eq)]
pub enum CreateStep {
    /// It is not known yet whether a pull request is open for the branch.
    OpenPr,
    /// It is not known yet whether the branch is at the remote repository.
    Branch,
    /// The branch is not at the remote repository: the user decides
    /// whether it is pushed.
    Permission,
    /// The branch is to be pushed.
    Push,
    /// The branch was pushed: it is not known yet whether it arrived.
    PushedBranch,
    /// The pull request can be opened.
    Ready,
}

/// What the program found.
#[derive(Clone, Copy, Debug, PartialEq, Eq)]
pub enum CreateEvent {
    /// The number of the pull request that is open for the branch, if one
    /// is.
    OpenPr(Option<u64>),
    /// Whether the branch is at the remote repository.
    BranchOnRemote(bool),
    /// Whether the user lets the branch be pushed.
    Permission(bool),
    /// The branch was pushed.
    Pushed,
}

/// What the program is to do.
#[derive(Clone, Copy, Debug, PartialEq, Eq)]
pub enum CreateAction {
    LookForOpenPr,
    LookForBranch,
    AskPermission,
    PushBranch,
    OpenPullRequest,
}

/// What is to be done where the work stands.
pub open spec fn action_at(step: CreateStep) -> CreateAction {
    match step {
        CreateStep::OpenPr => CreateAction::LookForOpenPr,
        CreateStep::Branch => CreateAction::LookForBranch,
        CreateStep::Permission => CreateAction::AskPermission,
        CreateStep::Push => CreateAction::PushBranch,
        CreateStep::PushedBranch => CreateAction::LookForBranch,
        CreateStep::Ready => CreateAction::OpenPullRequest,
    }
}

/// Says what is to be done where the work stands.
pub fn action_of(step: CreateStep) -> (action: CreateAction)
    ensures
        action == action_at(step),
{
    match step {
        CreateStep::OpenPr => CreateAction::LookForOpenPr,
        CreateStep::Branch => CreateAction::LookForBranch,
        CreateStep::Permission => CreateAction::AskPermission,
        CreateStep::Push => CreateAction::PushBranch,
        CreateStep::PushedBranch => CreateAction::LookForBranch,
        CreateStep::Ready => CreateAction::OpenPullRequest,
    }
}

/// Where the work stands after an event. A pull request that is open
/// already ends it, and so does a branch that is not at the remote
/// repository and is not to be pushed, or was pushed and did not arrive.
/// The message of the error names the pull request or the branch. An event
/// that does not belong to the step leaves the work where it stands.
pub open spec fn create_stepped(step: CreateStep, event: CreateEvent, branch: Seq<char>) -> Result<
    CreateStep,
    Seq<char>,
> {
    match (step, event) {
        (CreateStep::OpenPr, CreateEvent::OpenPr(Some(number))) => Err(
            "found an existing PR for this branch: "@ + crate::text::decimal(number as nat),
        ),
        (CreateStep::OpenPr, CreateEvent::OpenPr(None)) => Ok(CreateStep::Branch),
        (CreateStep::Branch, CreateEvent::BranchOnRemote(there)) => if there {
            Ok(CreateStep::Ready)
        } else {
            Ok(CreateStep::Permission)
        },
        (CreateStep::Permission, CreateEvent::Permission(given)) => if given {
            Ok(CreateStep::Push)
        } else {
            Err("branch not found on remote: "@ + branch)
        },
        (CreateStep::Push, CreateEvent::Pushed) => Ok(CreateStep::PushedBranch),
        (CreateStep::PushedBranch, CreateEvent::BranchOnRemote(there)) => if there {
            Ok(CreateStep::Ready)
        } else {
            Err("branch not found on remote: "@ + branch)
        },
        _ => Ok(step),
    }
}

/// Says where the work stands after an event.
pub fn create_step(step: CreateStep, event: CreateEvent, branch: &str) -> (r: Result<
    CreateStep,
    CreateError,
>)
    ensures
        match r {
            Ok(next) => create_stepped(step, event, branch@) == Ok::<CreateStep, Seq<char>>(next),
            Err(e) => create_stepped(step, event, branch@) == Err::<CreateStep, Seq<char>>(
                e.text(),
            ),
        },
{
    match (step, event) {
        (CreateStep::OpenPr, CreateEvent::OpenPr(Some(number))) => Err(
            CreateError::ExistingPR(number),
        ),
        (CreateStep::OpenPr, CreateEvent::OpenPr(None)) => Ok(CreateStep::Branch),
        (CreateStep::Branch, CreateEvent::BranchOnRemote(there)) => if there {
            Ok(CreateStep::Ready)
        } else {
            Ok(CreateStep::Permission)
        },
        (CreateStep::Permission, CreateEvent::Permission(given)) => if given {
            Ok(CreateStep::Push)
        } else {
            Err(CreateError::BranchNotOnRemote(branch.to_string()))
        },
        (CreateStep::Push, CreateEvent::Pushed) => Ok(CreateStep::PushedBranch),
        (CreateStep::PushedBranch, CreateEvent::BranchOnRemote(there)) => if there {
            Ok(CreateStep::Ready)
        } else {
            Err(CreateError::BranchNotOnRemote(branch.to_string()))
        },
        _ => Ok(step),
    }
}

/// The title of the pull request for an entry of a change type that the
/// configuration holds: it begins with the short name of the change type.
pub open spec fn title_for(
    config: ConfigView,
    change_type: Seq<char>,
    category: Seq<char>,
    description: Seq<char>,
) -> Option<Seq<char>> {
    let at = first_index(long_names(config.change_types), change_type, config.change_types.len());
    if at < config.change_types.len() {
        Some(pr_title_text(config.change_types[at as int].short, category, description))
    } else {
        None
    }
}

/// Makes the title of the pull request for an entry. There is none for a
/// change type that the configuration does not hold.
pub fn get_pr_title(config: &Config, change_type: &str, category: &str, description: &str) -> (r:
    Option<String>)
    ensures
        r.deep_view() == title_for(config@, change_type@, category@, description@),
{
    match config.get_long_change_type(change_type) {
        Some(found) => Some(pr_title(found.short.as_str(), category, description)),
        None => None,
    }
}

} // verus!
