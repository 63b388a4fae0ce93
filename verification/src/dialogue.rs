//! What a session asks of the outside, and what comes back.

use vstd::prelude::*;
use crate::git::{Command, CommandModel, GitError, GitErrorModel, Reply, ReplyModel};
use crate::lists::{copy_strings, no_items, one, put_all};
use crate::messages::{Line, LineModel};
use crate::style::{Span, SpanModel};
use crate::text::Text;

verus! {

/// Why a session failed.
#[derive(Debug, PartialEq, Eq)]
pub enum Failure {
    /// A git command gave no result.
    Git(GitError),
    /// The repository has no branches.
    NoBranches,
    /// A prompt failed, with this message; `causes` are the messages of what that
    /// goes back to.
    Prompt { message: String, causes: Vec<String> },
    /// The prompt for commits failed, likewise.
    CommitPrompt { message: String, causes: Vec<String> },
    /// The prompt for files failed, likewise.
    FilePrompt { message: String, causes: Vec<String> },
    /// The branch could not be created.
    Create(GitError),
}

/// The model of a [`Failure`].
pub enum FailureModel {
    Git(GitErrorModel),
    NoBranches,
    Prompt { message: Text, causes: Seq<Text> },
    CommitPrompt { message: Text, causes: Seq<Text> },
    FilePrompt { message: Text, causes: Seq<Text> },
    Create(GitErrorModel),
}

impl DeepView for Failure {
    type V = FailureModel;

    open spec fn deep_view(&self) -> FailureModel {
        match self {
            Failure::Git(error) => FailureModel::Git(error.deep_view()),
            Failure::NoBranches => FailureModel::NoBranches,
            Failure::Prompt { message, causes } => FailureModel::Prompt {
                message: message@,
                causes: causes.deep_view(),
            },
            Failure::CommitPrompt { message, causes } => FailureModel::CommitPrompt {
                message: message@,
                causes: causes.deep_view(),
            },
            Failure::FilePrompt { message, causes } => FailureModel::FilePrompt {
                message: message@,
                causes: causes.deep_view(),
            },
            Failure::Create(error) => FailureModel::Create(error.deep_view()),
        }
    }
}

impl FailureModel {
    /// The message shown for the failure.
    pub open spec fn message(self) -> Text {
        match self {
            FailureModel::Git(error) => error.message(),
            FailureModel::NoBranches => "No branches found in this repository"@,
            FailureModel::Prompt { message, .. } => message,
            FailureModel::CommitPrompt { .. } => "Failed to get user input, try running in a terminal"@,
            FailureModel::FilePrompt { .. } => "Failed to get user input"@,
            FailureModel::Create(_) => "Failed to create new branch"@,
        }
    }

    /// The messages of what the failure goes back to, from the nearest on.
    pub open spec fn causes(self) -> Seq<Text> {
        match self {
            FailureModel::Git(error) => error.causes(),
            FailureModel::NoBranches => Seq::empty(),
            FailureModel::Prompt { causes, .. } => causes,
            FailureModel::CommitPrompt { message, causes } => seq![message] + causes,
            FailureModel::FilePrompt { message, causes } => seq![message] + causes,
            FailureModel::Create(error) => seq![error.message()] + error.causes(),
        }
    }
}

impl Failure {
    /// The message shown for the failure.
    pub fn message(&self) -> (r: String)
        ensures
            r@ == self.deep_view().message(),
    {
        match self {
            Failure::Git(error) => error.message(),
            Failure::NoBranches => "No branches found in this repository".to_string(),
            Failure::Prompt { message, .. } => message.clone(),
            Failure::CommitPrompt { .. } =>
            "Failed to get user input, try running in a terminal".to_string(),
            Failure::FilePrompt { .. } => "Failed to get user input".to_string(),
            Failure::Create(_) => "Failed to create new branch".to_string(),
        }
    }

    /// The messages of what the failure goes back to, from the nearest on.
    pub fn causes(&self) -> (r: Vec<String>)
        ensures
            r.deep_view() == self.deep_view().causes(),
    {
        match self {
            Failure::Git(error) => error.causes(),
            Failure::NoBranches => no_items(),
            Failure::Prompt { causes, .. } => copy_strings(causes),
            Failure::CommitPrompt { message, causes } => {
                let mut r: Vec<String> = one(message.clone());
                put_all(&mut r, copy_strings(causes));
                r
            },
            Failure::FilePrompt { message, causes } => {
                let mut r: Vec<String> = one(message.clone());
                put_all(&mut r, copy_strings(causes));
                r
            },
            Failure::Create(error) => {
                let mut r: Vec<String> = one(error.message());
                put_all(&mut r, error.causes());
                r
            },
        }
    }
}

/// What a session needs next.
#[derive(Debug, PartialEq, Eq)]
pub enum Ask {
    /// A git command to run.
    Git(Command),
    /// A question to answer with yes or no; `preset` is the answer offered.
    Confirm { question: Vec<Span>, preset: bool },
    /// One of `items` to pick; `initial` is the position offered.
    Select { prompt: String, items: Vec<String>, initial: usize },
    /// Any of `items` to pick; all of them are checked at first, or none.
    MultiSelect { prompt: String, items: Vec<String>, checked: bool },
    /// A text to enter; `offered` is what is offered, if anything.
    Input { prompt: String, offered: Option<String> },
    /// Nothing: the session is over.
    End(Result<(), Failure>),
}

/// The model of an [`Ask`].
pub enum AskModel {
    Git(CommandModel),
    Confirm { question: Seq<SpanModel>, preset: bool },
    Select { prompt: Text, items: Seq<Text>, initial: int },
    MultiSelect { prompt: Text, items: Seq<Text>, checked: bool },
    Input { prompt: Text, offered: Option<Text> },
    End(Result<(), FailureModel>),
}

impl DeepView for Ask {
    type V = AskModel;

    open spec fn deep_view(&self) -> AskModel {
        match self {
            Ask::Git(command) => AskModel::Git(command.deep_view()),
            Ask::Confirm { question, preset } => AskModel::Confirm {
                question: question.deep_view(),
                preset: *preset,
            },
            Ask::Select { prompt, items, initial } => AskModel::Select {
                prompt: prompt@,
                items: items.deep_view(),
                initial: *initial as int,
            },
            Ask::MultiSelect { prompt, items, checked } => AskModel::MultiSelect {
                prompt: prompt@,
                items: items.deep_view(),
                checked: *checked,
            },
            Ask::Input { prompt, offered } => AskModel::Input {
                prompt: prompt@,
                offered: offered.deep_view(),
            },
            Ask::End(Ok(_)) => AskModel::End(Ok(())),
            Ask::End(Err(failure)) => AskModel::End(Err(failure.deep_view())),
        }
    }
}

/// What comes back to a session.
#[derive(Debug, PartialEq, Eq)]
pub enum Event {
    /// How the command went.
    Ran(Reply),
    /// The answer to a question.
    Answered(bool),
    /// The position that was picked.
    Picked(usize),
    /// The positions that were picked.
    PickedMany(Vec<usize>),
    /// The text that was entered.
    Entered(String),
    /// The prompt failed, with this message; `causes` are the messages of what that
    /// goes back to, from the nearest on.
    Failed { message: String, causes: Vec<String> },
}

/// The model of an [`Event`].
pub enum EventModel {
    Ran(ReplyModel),
    Answered(bool),
    Picked(usize),
    PickedMany(Seq<usize>),
    Entered(Text),
    Failed { message: Text, causes: Seq<Text> },
}

impl DeepView for Event {
    type V = EventModel;

    open spec fn deep_view(&self) -> EventModel {
        match self {
            Event::Ran(reply) => EventModel::Ran(reply.deep_view()),
            Event::Answered(answer) => EventModel::Answered(*answer),
            Event::Picked(index) => EventModel::Picked(*index),
            Event::PickedMany(indices) => EventModel::PickedMany(indices@),
            Event::Entered(text) => EventModel::Entered(text@),
            Event::Failed { message, causes } => EventModel::Failed {
                message: message@,
                causes: causes.deep_view(),
            },
        }
    }
}

/// A step of a session: what to print, and what to do after that.
#[derive(Debug, PartialEq, Eq)]
pub struct Step {
    pub lines: Vec<Line>,
    pub ask: Ask,
}

/// The model of a [`Step`].
pub struct StepModel {
    pub lines: Seq<LineModel>,
    pub ask: AskModel,
}

impl DeepView for Step {
    type V = StepModel;

    open spec fn deep_view(&self) -> StepModel {
        StepModel { lines: self.lines.deep_view(), ask: self.ask.deep_view() }
    }
}

/// What is said of a failure, and what it goes back to, the nearest first.
pub proof fn law_failures_say_what_happened(
    error: GitErrorModel,
    message: Text,
    causes: Seq<Text>,
)
    ensures
        FailureModel::Git(error).message() == error.message(),
        FailureModel::Git(error).causes() == error.causes(),
        FailureModel::NoBranches.message() == "No branches found in this repository"@,
        FailureModel::NoBranches.causes().len() == 0,
        (FailureModel::Prompt { message, causes }).message() == message,
        (FailureModel::Prompt { message, causes }).causes() == causes,
        (FailureModel::CommitPrompt { message, causes }).message()
            == "Failed to get user input, try running in a terminal"@,
        (FailureModel::CommitPrompt { message, causes }).causes() == seq![message] + causes,
        (FailureModel::FilePrompt { message, causes }).message() == "Failed to get user input"@,
        (FailureModel::FilePrompt { message, causes }).causes() == seq![message] + causes,
        FailureModel::Create(error).message() == "Failed to create new branch"@,
        FailureModel::Create(error).causes() == seq![error.message()] + error.causes(),
{
}

/// The models of what a session asks for hold all of it.
pub proof fn law_models_hold_every_question(ask: Ask, step: Step, line: Line)
    ensures
        ask matches Ask::Git(command) ==> ask.deep_view() == AskModel::Git(command.deep_view()),
        ask matches Ask::Confirm { question, preset } ==> ask.deep_view() == (AskModel::Confirm {
            question: question.deep_view(),
            preset,
        }),
        ask matches Ask::Select { prompt, items, initial } ==> ask.deep_view() == (
        AskModel::Select { prompt: prompt@, items: items.deep_view(), initial: initial as int }),
        ask matches Ask::MultiSelect { prompt, items, checked } ==> ask.deep_view() == (
        AskModel::MultiSelect { prompt: prompt@, items: items.deep_view(), checked }),
        ask matches Ask::Input { prompt, offered } ==> ask.deep_view() == (AskModel::Input {
            prompt: prompt@,
            offered: match offered {
                Some(text) => Some(text@),
                None => None,
            },
        }),
        ask matches Ask::End(Ok(_)) ==> ask.deep_view() == AskModel::End(Ok(())),
        ask matches Ask::End(Err(failure)) ==> ask.deep_view() == AskModel::End(
            Err(failure.deep_view()),
        ),
        step.deep_view().ask == step.ask.deep_view(),
        step.deep_view().lines == step.lines.deep_view(),
        line.deep_view().stream == line.stream,
        line.deep_view().spans == line.spans.deep_view(),
{
}

/// The models of failures and events hold all of their parts.
pub proof fn law_models_hold_every_event(failure: Failure, event: Event)
    ensures
        failure matches Failure::Git(error) ==> failure.deep_view() == FailureModel::Git(
            error.deep_view(),
        ),
        failure is NoBranches <==> failure.deep_view() is NoBranches,
        failure matches Failure::Prompt { message, causes } ==> failure.deep_view() == (
        FailureModel::Prompt { message: message@, causes: causes.deep_view() }),
        failure matches Failure::CommitPrompt { message, causes } ==> failure.deep_view() == (
        FailureModel::CommitPrompt { message: message@, causes: causes.deep_view() }),
        failure matches Failure::FilePrompt { message, causes } ==> failure.deep_view() == (
        FailureModel::FilePrompt { message: message@, causes: causes.deep_view() }),
        failure matches Failure::Create(error) ==> failure.deep_view() == FailureModel::Create(
            error.deep_view(),
        ),
        event matches Event::Ran(reply) ==> event.deep_view() == EventModel::Ran(reply.deep_view()),
        event matches Event::Answered(answer) ==> event.deep_view() == EventModel::Answered(answer),
        event matches Event::Picked(index) ==> event.deep_view() == EventModel::Picked(index),
        event matches Event::PickedMany(picked) ==> event.deep_view() == EventModel::PickedMany(
            picked@,
        ),
        event matches Event::Entered(text) ==> event.deep_view() == EventModel::Entered(text@),
        event matches Event::Failed { message, causes } ==> event.deep_view() == (
        EventModel::Failed { message: message@, causes: causes.deep_view() }),
{
}

} // verus!
