//! What the user is asked when an entry is added, and in which order.
//!
//! Asking is the business of the program; which question comes next, and
//! what an answer does, is decided here. `next_question` says what to ask
//! where the asking stands, `take_answer` where it stands after the answer.

use crate::add::{check_pr_duplicate, names_pr};
use crate::changelog::{Changelog, ChangelogView};
use crate::config::{long_names, Config, ConfigView};
use crate::entry::{entry_of, Entry, EntryView};
use crate::add::new_entry_line;
use crate::errors::EntryError;
use crate::github::{PRInfo, PRInfoView};
use crate::text::holds_text;
use vstd::prelude::*;
use vstd::string::*;

verus! {

/// Where the asking stands.
#[derive(Clone, Copy, Debug, PartialEq, Eq)]
pub enum InputStep {
    /// The change type is next.
    ChangeType,
    /// The number of the pull request is next.
    PrNumber,
    /// The category is next.
    Category,
    /// The description is next.
    Description,
    /// Everything is there: the entry is to be confirmed.
    Review,
    /// The entry was confirmed.
    Done,
}

/// What was gathered for an entry, and where the asking stands.
#[derive(Clone, Debug, PartialEq)]
pub struct InputState {
    pub change_type: String,
    pub pr_number: u64,
    pub category: String,
    pub description: String,
    pub step: InputStep,
    /// Whether every part is asked for, also what is known already.
    pub ask_all: bool,
}

/// What an `InputState` holds.
pub struct InputStateView {
    pub change_type: Seq<char>,
    pub pr_number: u64,
    pub category: Seq<char>,
    pub description: Seq<char>,
    pub step: InputStep,
    pub ask_all: bool,
}

impl DeepView for InputState {
    type V = InputStateView;

    open spec fn deep_view(&self) -> InputStateView {
        InputStateView {
            change_type: self.change_type@,
            pr_number: self.pr_number,
            category: self.category@,
            description: self.description@,
            step: self.step,
            ask_all: self.ask_all,
        }
    }
}

impl View for InputState {
    type V = InputStateView;

    open spec fn view(&self) -> InputStateView {
        self.deep_view()
    }
}

/// What the user is asked.
#[derive(Clone, Debug, PartialEq)]
pub enum Question {
    /// To choose a change type; the one that is held is suggested.
    ChangeType(String),
    /// To give the number of the pull request; the one that is held is
    /// suggested. `duplicate` says that the changelog holds it already.
    PrNumber { suggestion: u64, duplicate: bool },
    /// To choose a category; the one that is held is suggested.
    Category(String),
    /// To write the description; the one that is held is suggested.
    Description(String),
    /// To confirm the entry as it will read, with what was found wrong
    /// with it as it was given.
    Confirmation { fixed: String, problems: Vec<String> },
    /// Nothing: the entry was confirmed.
    Nothing,
}

/// What the user answers.
#[derive(Clone, Debug, PartialEq)]
pub enum Answer {
    Text(String),
    Number(u64),
    Confirmed(bool),
}

/// Where the asking begins from what the pull request told.
pub open spec fn inputs_begun(info: PRInfoView, accept: bool, retrieved: bool) -> InputStateView {
    InputStateView {
        change_type: info.change_type,
        pr_number: info.number as u64,
        category: info.category,
        description: info.description,
        step: InputStep::ChangeType,
        ask_all: !accept || !retrieved,
    }
}

/// Begins the asking with what the pull request told. Everything is asked
/// for unless it is to be accepted and the pull request was found.
pub fn begin_inputs(info: &PRInfo, accept: bool, retrieved: bool) -> (state: InputState)
    ensures
        state@ == inputs_begun(info@, accept, retrieved),
{
    InputState {
        change_type: info.change_type.clone(),
        pr_number: info.number,
        category: info.category.clone(),
        description: info.description.clone(),
        step: InputStep::ChangeType,
        ask_all: crate::add::should_get_user_input(accept, retrieved),
    }
}

/// The step at which the next question is asked, from `step` on: a part is
/// passed over where not everything is asked for and the part is known, a
/// change type and a category being known only if the configuration holds
/// them.
pub open spec fn step_to_ask(config: ConfigView, state: InputStateView) -> InputStep {
    if state.step == InputStep::ChangeType && (state.ask_all || !long_names(
        config.change_types,
    ).contains(state.change_type)) {
        InputStep::ChangeType
    } else if (state.step == InputStep::ChangeType || state.step == InputStep::PrNumber)
        && state.ask_all {
        InputStep::PrNumber
    } else if (state.step == InputStep::ChangeType || state.step == InputStep::PrNumber
        || state.step == InputStep::Category) && (state.ask_all || !config.categories.contains(
        state.category,
    )) {
        InputStep::Category
    } else if state.step == InputStep::Done {
        InputStep::Done
    } else if state.step != InputStep::Review && state.ask_all {
        InputStep::Description
    } else {
        InputStep::Review
    }
}

/// Whether a question is the one that is asked where the asking stands. At
/// the review, a number that the changelog holds already is asked for
/// again; else the entry is made from the parts, read as a line, and put up
/// for confirmation as it will read.
pub open spec fn is_next_question(
    config: ConfigView,
    doc: ChangelogView,
    state: InputStateView,
    r: Result<Question, EntryError>,
) -> bool {
    let line = new_entry_line(config, state.category, state.description, state.pr_number as nat);
    match step_to_ask(config, state) {
        InputStep::ChangeType => r matches Ok(Question::ChangeType(s)) && s@ == state.change_type,
        InputStep::PrNumber => r == Ok::<Question, EntryError>(
            Question::PrNumber { suggestion: state.pr_number, duplicate: false },
        ),
        InputStep::Category => r matches Ok(Question::Category(s)) && s@ == state.category,
        InputStep::Description => r matches Ok(Question::Description(s)) && s@
            == state.description,
        InputStep::Review => if names_pr(doc.releases, state.pr_number as nat) {
            r == Ok::<Question, EntryError>(
                Question::PrNumber { suggestion: state.pr_number, duplicate: true },
            )
        } else {
            match entry_of(config, line) {
                Some(e) => r matches Ok(Question::Confirmation { fixed, problems }) && fixed@
                    == e.fixed && problems.deep_view() == e.problems,
                None => r matches Err(EntryError::InvalidEntry(held)) && held@ == line,
            }
        },
        InputStep::Done => r == Ok::<Question, EntryError>(Question::Nothing),
    }
}

/// Whether the configuration holds a change type of this long name.
fn knows_change_type(config: &Config, name: &str) -> (r: bool)
    ensures
        r == long_names(config@.change_types).contains(name@),
{
    let mut i: usize = 0;
    while i < config.change_types.len()
        invariant
            i <= config.change_types.len(),
            forall|j: int| 0 <= j < i ==> long_names(config@.change_types)[j] != name@,
        decreases config.change_types.len() - i,
    {
        assert(long_names(config@.change_types)[i as int] == config.change_types[i as int].long@);
        if crate::text::same_text(config.change_types[i].long.as_str(), name) {
            return true;
        }
        i += 1;
    }
    false
}

/// Says what to ask next, and moves the asking on to that question. Parts
/// that make no entry are an error.
pub fn next_question(config: &Config, changelog: &Changelog, state: &mut InputState) -> (r: Result<
    Question,
    EntryError,
>)
    ensures
        is_next_question(config@, changelog@, old(state)@, r),
        final(state)@ == (InputStateView {
            step: step_to_ask(config@, old(state)@),
            ..old(state)@
        }),
{
    let step = state.step;
    let first = match step {
        InputStep::ChangeType => true,
        _ => false,
    };
    let second = first || match step {
        InputStep::PrNumber => true,
        _ => false,
    };
    let third = second || match step {
        InputStep::Category => true,
        _ => false,
    };
    if first && (state.ask_all || !knows_change_type(config, state.change_type.as_str())) {
        state.step = InputStep::ChangeType;
        return Ok(Question::ChangeType(state.change_type.clone()));
    }
    if second && state.ask_all {
        state.step = InputStep::PrNumber;
        return Ok(Question::PrNumber { suggestion: state.pr_number, duplicate: false });
    }
    if third && (state.ask_all || !holds_text(&config.categories, state.category.as_str())) {
        state.step = InputStep::Category;
        return Ok(Question::Category(state.category.clone()));
    }
    match step {
        InputStep::Done => {
            return Ok(Question::Nothing);
        },
        InputStep::Review => {},
        _ => {
            if state.ask_all {
                state.step = InputStep::Description;
                return Ok(Question::Description(state.description.clone()));
            }
        },
    }
    state.step = InputStep::Review;
    if check_pr_duplicate(changelog, state.pr_number) {
        return Ok(Question::PrNumber { suggestion: state.pr_number, duplicate: true });
    }
    let made = Entry::new(
        config,
        state.category.as_str(),
        state.description.as_str(),
        state.pr_number,
    );
    match crate::entry::parse(config, made.fixed.as_str()) {
        Ok(e) => Ok(Question::Confirmation { fixed: e.fixed, problems: e.problems }),
        Err(e) => Err(e),
    }
}

/// What an answer does to the asking: it is kept as the part that was asked
/// for, and the next part is next. At the review, a number is taken in
/// place of the one that the changelog holds already; a confirmation ends
/// the asking, and a refusal begins it again, with every part asked for. An
/// answer that does not fit the question changes nothing.
pub open spec fn answer_taken(state: InputStateView, answer: Answer) -> InputStateView {
    match (state.step, answer) {
        (InputStep::ChangeType, Answer::Text(s)) => InputStateView {
            change_type: s@,
            step: InputStep::PrNumber,
            ..state
        },
        (InputStep::PrNumber, Answer::Number(n)) => InputStateView {
            pr_number: n,
            step: InputStep::Category,
            ..state
        },
        (InputStep::Category, Answer::Text(s)) => InputStateView {
            category: s@,
            step: InputStep::Description,
            ..state
        },
        (InputStep::Description, Answer::Text(s)) => InputStateView {
            description: s@,
            step: InputStep::Review,
            ask_all: false,
            ..state
        },
        (InputStep::Review, Answer::Number(n)) => InputStateView { pr_number: n, ..state },
        (InputStep::Review, Answer::Confirmed(yes)) => if yes {
            InputStateView { step: InputStep::Done, ..state }
        } else {
            InputStateView { step: InputStep::ChangeType, ask_all: true, ..state }
        },
        _ => state,
    }
}

/// Takes the answer to the question that was asked last.
pub fn take_answer(state: &mut InputState, answer: Answer)
    ensures
        final(state)@ == answer_taken(old(state)@, answer),
{
    match (state.step, answer) {
        (InputStep::ChangeType, Answer::Text(s)) => {
            state.change_type = s;
            state.step = InputStep::PrNumber;
        },
        (InputStep::PrNumber, Answer::Number(n)) => {
            state.pr_number = n;
            state.step = InputStep::Category;
        },
        (InputStep::Category, Answer::Text(s)) => {
            state.category = s;
            state.step = InputStep::Description;
        },
        (InputStep::Description, Answer::Text(s)) => {
            state.description = s;
            state.step = InputStep::Review;
            state.ask_all = false;
        },
        (InputStep::Review, Answer::Number(n)) => {
            state.pr_number = n;
        },
        (InputStep::Review, Answer::Confirmed(yes)) => {
            if yes {
                state.step = InputStep::Done;
            } else {
                state.step = InputStep::ChangeType;
                state.ask_all = true;
            }
        },
        _ => {},
    }
}

} // verus!
