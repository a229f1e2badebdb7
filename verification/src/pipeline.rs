//! The course of one query: which stage runs next, and what is returned
//! when a stage fails or the last one is done.

use vstd::prelude::*;
use crate::render::{Rendered, RenderedView};

verus! {

/// The form in which the result is asked for.
#[derive(Clone, Copy, Debug, PartialEq, Eq, Structural)]
pub enum OutputFormat {
    Render,
    JSON,
    CSV,
}

/// The kinds of document that a result set is serialised to.
#[derive(Clone, Copy, Debug, PartialEq, Eq, Structural)]
pub enum Document {
    Json,
    Csv,
}

/// What the diagnostic reporter is told when the query ends.
#[derive(Clone, Copy, Debug, PartialEq, Eq, Structural)]
pub enum Report {
    /// Nothing: the end is no failure.
    Silent,
    /// The diagnostic of the stage that failed, as an error.
    Diagnostic,
    /// The message of the failed evaluation, as an exception.
    Exception,
}

/// What has just happened to the query.
#[derive(Debug, PartialEq)]
pub enum PipelineEvent {
    /// The query was handed in.
    Started,
    /// The query was split into this many tokens.
    Tokenized { tokens: usize },
    TokenizeFailed,
    Parsed,
    ParseFailed,
    /// The plan was evaluated; `selected` says whether the outcome is a
    /// result set.
    Evaluated { selected: bool },
    EvaluateFailed,
    /// The result set was rendered as this value.
    Rendered(Rendered),
    /// The result set was serialised: to this document, or not at all.
    Serialized { kind: Document, document: Option<String> },
}

/// What is to be done next.
#[derive(Debug, PartialEq)]
pub enum PipelineStep {
    Tokenize,
    Parse,
    Evaluate,
    Render,
    Serialize(Document),
    /// The query ends with `value`. `report` says what the reporter is told
    /// first, and `timed` whether the durations of the two phases are
    /// written out where the analysis was asked for.
    Finish { value: Rendered, report: Report, timed: bool },
}

/// The two phases whose durations are measured.
#[derive(Clone, Copy, Debug, PartialEq, Eq, Structural)]
pub enum Phase {
    Frontend,
    Engine,
}

pub open spec fn tokenizer_error_text() -> Seq<char> {
    "tokenizer_result error"@
}

pub open spec fn no_tokens_text() -> Seq<char> {
    "No tokens to parse"@
}

pub open spec fn parser_error_text() -> Seq<char> {
    "parser_result error"@
}

pub open spec fn evaluation_error_text() -> Seq<char> {
    "evaluation_result error"@
}

pub open spec fn not_selected_text() -> Seq<char> {
    "Not a SelectedGroups result"@
}

pub open spec fn no_json_text() -> Seq<char> {
    "No JSON data to show"@
}

pub open spec fn no_csv_text() -> Seq<char> {
    "No CSV data to show"@
}

/// The text that stands for a document that could not be made.
pub open spec fn no_document_text(kind: Document) -> Seq<char> {
    match kind {
        Document::Json => no_json_text(),
        Document::Csv => no_csv_text(),
    }
}

impl PipelineStep {
    /// Whether this step ends the query with a value of the given model,
    /// report and timing.
    pub open spec fn finishes_with(self, value: RenderedView, report: Report, timed: bool) -> bool {
        &&& self is Finish
        &&& self->value@ == value
        &&& self->report == report
        &&& self->timed == timed
    }

    /// Whether this step ends the query with the given text.
    pub open spec fn finishes_with_text(self, text: Seq<char>, report: Report, timed: bool) -> bool {
        self.finishes_with(RenderedView::String(text), report, timed)
    }
}

/// The step that presents a result set in the given format.
pub open spec fn presentation(format: OutputFormat) -> PipelineStep {
    match format {
        OutputFormat::Render => PipelineStep::Render,
        OutputFormat::JSON => PipelineStep::Serialize(Document::Json),
        OutputFormat::CSV => PipelineStep::Serialize(Document::Csv),
    }
}

/// Whether `step` is what follows `event` when the result is asked for in
/// `format`.
///
/// The stages follow one another: tokenize, parse, evaluate, present. A
/// query without tokens ends at once, silently. A stage that fails ends the
/// query with the text of that stage and a report; nothing is presented
/// then. An outcome that is no result set ends the query with its own text.
/// A rendered value is returned as it is, a document as text, and a
/// document that could not be made as the text of its kind.
pub open spec fn follows(format: OutputFormat, event: PipelineEvent, step: PipelineStep) -> bool {
    match event {
        PipelineEvent::Started => step == PipelineStep::Tokenize,
        PipelineEvent::Tokenized { tokens } => if tokens == 0 {
            step.finishes_with_text(no_tokens_text(), Report::Silent, false)
        } else {
            step == PipelineStep::Parse
        },
        PipelineEvent::TokenizeFailed => step.finishes_with_text(
            tokenizer_error_text(),
            Report::Diagnostic,
            false,
        ),
        PipelineEvent::Parsed => step == PipelineStep::Evaluate,
        PipelineEvent::ParseFailed => step.finishes_with_text(
            parser_error_text(),
            Report::Diagnostic,
            false,
        ),
        PipelineEvent::Evaluated { selected } => if selected {
            step == presentation(format)
        } else {
            step.finishes_with_text(not_selected_text(), Report::Silent, true)
        },
        PipelineEvent::EvaluateFailed => step.finishes_with_text(
            evaluation_error_text(),
            Report::Exception,
            false,
        ),
        PipelineEvent::Rendered(value) => step.finishes_with(value@, Report::Silent, true),
        PipelineEvent::Serialized { kind, document } => match document {
            Some(text) => step.finishes_with_text(text@, Report::Silent, true),
            None => step.finishes_with_text(no_document_text(kind), Report::Silent, true),
        },
    }
}

fn finish_with_text(text: &str, report: Report, timed: bool) -> (step: PipelineStep)
    ensures
        step.finishes_with_text(text@, report, timed),
{
    PipelineStep::Finish { value: Rendered::String(text.to_owned()), report, timed }
}

/// Decides what is done after `event` when the result is asked for in
/// `format`.
pub fn next_step(format: OutputFormat, event: PipelineEvent) -> (step: PipelineStep)
    ensures
        follows(format, event, step),
{
    match event {
        PipelineEvent::Started => PipelineStep::Tokenize,
        PipelineEvent::Tokenized { tokens } => {
            if tokens == 0 {
                finish_with_text("No tokens to parse", Report::Silent, false)
            } else {
                PipelineStep::Parse
            }
        },
        PipelineEvent::TokenizeFailed => finish_with_text(
            "tokenizer_result error",
            Report::Diagnostic,
            false,
        ),
        PipelineEvent::Parsed => PipelineStep::Evaluate,
        PipelineEvent::ParseFailed => finish_with_text(
            "parser_result error",
            Report::Diagnostic,
            false,
        ),
        PipelineEvent::Evaluated { selected } => {
            if selected {
                match format {
                    OutputFormat::Render => PipelineStep::Render,
                    OutputFormat::JSON => PipelineStep::Serialize(Document::Json),
                    OutputFormat::CSV => PipelineStep::Serialize(Document::Csv),
                }
            } else {
                finish_with_text("Not a SelectedGroups result", Report::Silent, true)
            }
        },
        PipelineEvent::EvaluateFailed => finish_with_text(
            "evaluation_result error",
            Report::Exception,
            false,
        ),
        PipelineEvent::Rendered(value) => PipelineStep::Finish {
            value,
            report: Report::Silent,
            timed: true,
        },
        PipelineEvent::Serialized { kind, document } => match document {
            Some(text) => PipelineStep::Finish {
                value: Rendered::String(text),
                report: Report::Silent,
                timed: true,
            },
            None => match kind {
                Document::Json => finish_with_text("No JSON data to show", Report::Silent, true),
                Document::Csv => finish_with_text("No CSV data to show", Report::Silent, true),
            },
        },
    }
}

/// The phase whose clock runs while `step` is done: the front end while the
/// query is tokenized and parsed, the engine while it is evaluated and
/// presented. The end of the query belongs to no phase.
pub fn phase_of(step: &PipelineStep) -> (phase: Option<Phase>)
    ensures
        phase == match *step {
            PipelineStep::Tokenize | PipelineStep::Parse => Some(Phase::Frontend),
            PipelineStep::Evaluate | PipelineStep::Render | PipelineStep::Serialize(_) => Some(
                Phase::Engine,
            ),
            PipelineStep::Finish { .. } => None,
        },
{
    match step {
        PipelineStep::Tokenize | PipelineStep::Parse => Some(Phase::Frontend),
        PipelineStep::Evaluate | PipelineStep::Render | PipelineStep::Serialize(_) => Some(
            Phase::Engine,
        ),
        PipelineStep::Finish { .. } => None,
    }
}

/// A failed stage ends the query: what follows it is never another stage,
/// and so nothing is evaluated, rendered or serialised after it.
pub proof fn lemma_failure_ends(format: OutputFormat, event: PipelineEvent, step: PipelineStep)
    requires
        event is TokenizeFailed || event is ParseFailed || event is EvaluateFailed,
        follows(format, event, step),
    ensures
        step is Finish,
        step->report != Report::Silent,
        step->value@ is String,
{
}

/// A result set is presented only after an evaluation that selected one.
pub proof fn lemma_presented_after_selection(
    format: OutputFormat,
    event: PipelineEvent,
    step: PipelineStep,
)
    requires
        follows(format, event, step),
        step is Render || step is Serialize,
    ensures
        event == (PipelineEvent::Evaluated { selected: true }),
        step == presentation(format),
{
}

} // verus!
