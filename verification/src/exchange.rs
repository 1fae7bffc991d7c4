//! What a render asks of the outside world, what comes back, and how a
//! render ends.
//!
//! Rendering itself performs no I/O. Where a value has to come from outside
//! (history, the HTTP engine, a command, a file, the user, the environment),
//! the render stops with the [`Action`] it needs. The caller performs it and
//! renders again with the [`Answer`] added to those given before.

use vstd::prelude::*;
use vstd::string::*;
use crate::http::{
    opt_string_view, HttpError, RecordView, Request, RequestRecord, RequestView, Response,
};
use crate::outside::utc_now_millis;
use crate::prompter::Prompt;
use crate::select::SelectorError;
use crate::template::strings_view;
use crate::trigger::TriggerError;

verus! {

/// Something only the outside world can do.
#[derive(Debug, PartialEq, Eq)]
pub enum Action {
    /// Look up the latest record for a recipe under a profile.
    GetLatest { profile: Option<String>, recipe: String },
    /// Send a request.
    Send { request: Request },
    /// Add a record to history.
    Store { record: RequestRecord },
    /// Run a program and capture its standard output.
    Run { program: String, arguments: Vec<String> },
    /// Read a file, relative to the root of the collection.
    ReadFile { path: String },
    /// Ask the user.
    Ask { prompt: Prompt },
    /// Read an environment variable.
    ReadEnv { variable: String },
}

/// What an action gave. Times are milliseconds since the Unix epoch.
#[derive(Debug, PartialEq, Eq)]
pub enum Answer {
    /// The latest record, if there is one, and the time of the lookup.
    Latest { record: Option<RequestRecord>, now: i64 },
    /// The response to a request, or why there is none.
    Sent { result: Result<Response, HttpError>, start_time: i64, end_time: i64 },
    /// The record was added.
    Stored,
    /// The standard output of a program that ran and exited with status 0;
    /// `None` when it could not be started or exited otherwise.
    Ran { output: Option<Vec<u8>> },
    /// The content of a file; `None` when it could not be read.
    FileRead { content: Option<Vec<u8>> },
    /// The user's reply; `None` when there is none.
    Asked { reply: Option<String> },
    /// The value of a variable; `None` when it is not set.
    EnvRead { value: Option<String> },
}

/// Why a chain has no value.
#[derive(Clone, Debug, PartialEq, Eq)]
pub enum ChainError {
    /// The collection has no chain of that id.
    NotFound,
    /// Chains are nested deeper than the render allows.
    RecursionLimit,
    /// The selector, the field path or the section found nothing to take.
    Selector(SelectorError),
    /// The command could not be started or did not exit with status 0.
    CommandFailed,
    /// The file could not be read.
    Io,
    /// Nobody answered the prompt.
    PromptUnavailable,
    /// The variable is not set and the chain has no default.
    EnvUnset,
    /// The trigger policy forbids what would be needed.
    Trigger(TriggerError),
    /// The HTTP engine gave no response.
    Http(HttpError),
    /// The chain names a recipe that the collection does not have.
    RecipeNotFound,
    /// An answer does not fit the action it was given for.
    UnexpectedAnswer,
}

/// A field of a recipe. Query parameters and headers are counted from 0.
#[derive(Clone, Copy, Debug, PartialEq, Eq)]
pub enum Field {
    Url,
    Query(usize),
    Header(usize),
    Body,
}

/// One level of the path from the template being rendered down to the
/// chain that failed.
#[derive(Clone, Debug, PartialEq, Eq)]
pub enum Step {
    Chain(String),
    Field { recipe: String, field: Field },
}

/// A failed render: the cause, and the path that led to it, outermost level
/// first.
#[derive(Clone, Debug, PartialEq, Eq)]
pub struct RenderError {
    pub trail: Vec<Step>,
    pub cause: ChainError,
}

/// How a render ends.
#[derive(Debug, PartialEq, Eq)]
pub enum Outcome {
    /// The rendered bytes.
    Done(Vec<u8>),
    Failed(RenderError),
    /// The render needs this action's answer to go on.
    Pending(Action),
}

/// An action as contracts see it.
pub enum ActionView {
    GetLatest { profile: Option<Seq<char>>, recipe: Seq<char> },
    Send { request: RequestView },
    Store { record: RecordView },
    Run { program: Seq<char>, arguments: Seq<Seq<char>> },
    ReadFile { path: Seq<char> },
    Ask { label: Seq<char>, default: Option<Seq<char>> },
    ReadEnv { variable: Seq<char> },
}

/// A cause as contracts see it.
pub enum CauseView {
    NotFound,
    RecursionLimit,
    Selector(SelectorError),
    CommandFailed,
    Io,
    PromptUnavailable,
    EnvUnset,
    Trigger(TriggerError),
    Http(Seq<char>),
    RecipeNotFound,
    UnexpectedAnswer,
}

/// A step as contracts see it.
pub enum StepView {
    Chain(Seq<char>),
    Field { recipe: Seq<char>, field: Field },
}

/// A failed render as contracts see it.
pub struct FailureView {
    pub trail: Seq<StepView>,
    pub cause: CauseView,
}

/// The end of a render as contracts see it.
pub enum OutcomeView {
    Done(Seq<u8>),
    Failed(FailureView),
    Pending(ActionView),
}

impl View for Action {
    type V = ActionView;

    open spec fn view(&self) -> ActionView {
        match self {
            Action::GetLatest { profile, recipe } => ActionView::GetLatest {
                profile: opt_string_view(*profile),
                recipe: recipe@,
            },
            Action::Send { request } => ActionView::Send { request: request@ },
            Action::Store { record } => ActionView::Store { record: record@ },
            Action::Run { program, arguments } => ActionView::Run {
                program: program@,
                arguments: strings_view(arguments@),
            },
            Action::ReadFile { path } => ActionView::ReadFile { path: path@ },
            Action::Ask { prompt } => ActionView::Ask {
                label: prompt.label@,
                default: opt_string_view(prompt.default),
            },
            Action::ReadEnv { variable } => ActionView::ReadEnv { variable: variable@ },
        }
    }
}

impl View for ChainError {
    type V = CauseView;

    open spec fn view(&self) -> CauseView {
        match self {
            ChainError::NotFound => CauseView::NotFound,
            ChainError::RecursionLimit => CauseView::RecursionLimit,
            ChainError::Selector(e) => CauseView::Selector(*e),
            ChainError::CommandFailed => CauseView::CommandFailed,
            ChainError::Io => CauseView::Io,
            ChainError::PromptUnavailable => CauseView::PromptUnavailable,
            ChainError::EnvUnset => CauseView::EnvUnset,
            ChainError::Trigger(e) => CauseView::Trigger(*e),
            ChainError::Http(e) => CauseView::Http(e.message@),
            ChainError::RecipeNotFound => CauseView::RecipeNotFound,
            ChainError::UnexpectedAnswer => CauseView::UnexpectedAnswer,
        }
    }
}

impl View for Step {
    type V = StepView;

    open spec fn view(&self) -> StepView {
        match self {
            Step::Chain(id) => StepView::Chain(id@),
            Step::Field { recipe, field } => StepView::Field { recipe: recipe@, field: *field },
        }
    }
}

impl View for RenderError {
    type V = FailureView;

    open spec fn view(&self) -> FailureView {
        FailureView { trail: self.trail@.map_values(|s: Step| s@), cause: self.cause@ }
    }
}

impl View for Outcome {
    type V = OutcomeView;

    open spec fn view(&self) -> OutcomeView {
        match self {
            Outcome::Done(bytes) => OutcomeView::Done(bytes@),
            Outcome::Failed(e) => OutcomeView::Failed(e@),
            Outcome::Pending(a) => OutcomeView::Pending(a@),
        }
    }
}

impl Answer {
    /// The answer to a lookup in history, made now: the record that was
    /// found, and the time of the call.
    pub fn latest(record: Option<RequestRecord>) -> (r: Answer)
        ensures
            r matches Answer::Latest { record: found, now } && found == record,
    {
        Answer::Latest { record, now: utc_now_millis() }
    }
}

/// A digit as text.
pub open spec fn digit_text(d: nat) -> Seq<char> {
    if d == 0 {
        "0"@
    } else if d == 1 {
        "1"@
    } else if d == 2 {
        "2"@
    } else if d == 3 {
        "3"@
    } else if d == 4 {
        "4"@
    } else if d == 5 {
        "5"@
    } else if d == 6 {
        "6"@
    } else if d == 7 {
        "7"@
    } else if d == 8 {
        "8"@
    } else {
        "9"@
    }
}

/// A number in decimal.
pub open spec fn number_text(n: nat) -> Seq<char>
    decreases n,
{
    if n < 10 {
        digit_text(n)
    } else {
        number_text(n / 10) + digit_text(n % 10)
    }
}

/// What is shown for a selector that gave no value.
pub open spec fn selector_text(e: SelectorError) -> Seq<char> {
    match e {
        SelectorError::NoContentType => "the chain has a selector but no content type"@,
        SelectorError::InvalidContent => "the value is not of its content type"@,
        SelectorError::NoMatch => "nothing is selected"@,
    }
}

/// What is shown for a cause.
pub open spec fn cause_text(cause: CauseView) -> Seq<char> {
    match cause {
        CauseView::NotFound => "no such chain"@,
        CauseView::RecursionLimit => "chains are nested too deep"@,
        CauseView::Selector(e) => selector_text(e),
        CauseView::CommandFailed => "the command failed"@,
        CauseView::Io => "the file could not be read"@,
        CauseView::PromptUnavailable => "the prompt was not answered"@,
        CauseView::EnvUnset => "the variable is not set"@,
        CauseView::Trigger(_) => "no response is on record"@,
        CauseView::Http(message) => "the request failed: "@ + message,
        CauseView::RecipeNotFound => "no such recipe"@,
        CauseView::UnexpectedAnswer => "an answer does not fit its action"@,
    }
}

/// What is shown for a field of a recipe.
pub open spec fn field_text(field: Field) -> Seq<char> {
    match field {
        Field::Url => "url"@,
        Field::Body => "body"@,
        Field::Query(i) => "query "@ + number_text(i as nat),
        Field::Header(i) => "header "@ + number_text(i as nat),
    }
}

/// What is shown for one level of the path.
pub open spec fn step_text(step: StepView) -> Seq<char> {
    match step {
        StepView::Chain(id) => "chain "@ + id,
        StepView::Field { recipe, field } => "recipe "@ + recipe + " "@ + field_text(field),
    }
}

/// The steps from `i` on, each followed by a colon.
pub open spec fn trail_text(trail: Seq<StepView>, i: int) -> Seq<char>
    decreases trail.len() - i,
{
    if i < 0 || i >= trail.len() {
        Seq::empty()
    } else {
        step_text(trail[i]) + ": "@ + trail_text(trail, i + 1)
    }
}

/// A failure in one line: the path from the outermost level inwards, then
/// the cause.
pub open spec fn described(f: FailureView) -> Seq<char> {
    trail_text(f.trail, 0) + cause_text(f.cause)
}

fn push_digit(out: &mut String, d: usize)
    requires
        d < 10,
    ensures
        final(out)@ == old(out)@ + digit_text(d as nat),
{
    let text = if d == 0 {
        "0"
    } else if d == 1 {
        "1"
    } else if d == 2 {
        "2"
    } else if d == 3 {
        "3"
    } else if d == 4 {
        "4"
    } else if d == 5 {
        "5"
    } else if d == 6 {
        "6"
    } else if d == 7 {
        "7"
    } else if d == 8 {
        "8"
    } else {
        "9"
    };
    out.append(text);
}

fn push_number(out: &mut String, n: usize)
    ensures
        final(out)@ == old(out)@ + number_text(n as nat),
    decreases n,
{
    if n < 10 {
        push_digit(out, n);
    } else {
        push_number(out, n / 10);
        push_digit(out, n % 10);
    }
}

fn push_cause(out: &mut String, cause: &ChainError)
    ensures
        final(out)@ == old(out)@ + cause_text(cause@),
{
    match cause {
        ChainError::NotFound => out.append("no such chain"),
        ChainError::RecursionLimit => out.append("chains are nested too deep"),
        ChainError::Selector(SelectorError::NoContentType) => out.append(
            "the chain has a selector but no content type",
        ),
        ChainError::Selector(SelectorError::InvalidContent) => out.append(
            "the value is not of its content type",
        ),
        ChainError::Selector(SelectorError::NoMatch) => out.append("nothing is selected"),
        ChainError::CommandFailed => out.append("the command failed"),
        ChainError::Io => out.append("the file could not be read"),
        ChainError::PromptUnavailable => out.append("the prompt was not answered"),
        ChainError::EnvUnset => out.append("the variable is not set"),
        ChainError::Trigger(_) => out.append("no response is on record"),
        ChainError::Http(e) => {
            out.append("the request failed: ");
            out.append(e.message.as_str());
        },
        ChainError::RecipeNotFound => out.append("no such recipe"),
        ChainError::UnexpectedAnswer => out.append("an answer does not fit its action"),
    }
}

fn push_step(out: &mut String, step: &Step)
    ensures
        final(out)@ == old(out)@ + step_text(step@),
{
    match step {
        Step::Chain(id) => {
            out.append("chain ");
            out.append(id.as_str());
        },
        Step::Field { recipe, field } => {
            out.append("recipe ");
            out.append(recipe.as_str());
            out.append(" ");
            match field {
                Field::Url => out.append("url"),
                Field::Body => out.append("body"),
                Field::Query(i) => {
                    out.append("query ");
                    push_number(out, *i);
                },
                Field::Header(i) => {
                    out.append("header ");
                    push_number(out, *i);
                },
            }
        },
    }
}

impl RenderError {
    /// The failure in one line, fit to be shown: each level of the path from
    /// the template down to the failing chain, then the cause.
    pub fn describe(&self) -> (r: String)
        ensures
            r@ == described(self@),
    {
        let mut out = String::new();
        let ghost trail = self.trail@.map_values(|s: Step| s@);
        let mut i: usize = 0;
        while i < self.trail.len()
            invariant
                i <= self.trail.len(),
                trail == self.trail@.map_values(|s: Step| s@),
                out@ + trail_text(trail, i as int) == trail_text(trail, 0),
            decreases self.trail.len() - i,
        {
            push_step(&mut out, &self.trail[i]);
            out.append(": ");
            i += 1;
        }
        push_cause(&mut out, &self.cause);
        out
    }
}

} // verus!
