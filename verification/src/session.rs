//! The interactive loop around the pipelines: what to do with what the line
//! source hands over.

use crate::stage::{parse_line, pipeline_of, stage_views, Stage, StageView};
use vstd::prelude::*;
use vstd::string::StringExecFns;

verus! {

/// What one call of the line source gave.
#[derive(Debug, PartialEq, Eq)]
pub enum Outcome {
    /// A line of text.
    Line(String),
    /// The user interrupted the prompt.
    Interrupted,
    /// The input has ended.
    EndOfInput,
    /// The line could not be read; the text says why.
    Error(String),
}

/// What the loop does next.
#[derive(Debug, PartialEq, Eq)]
pub enum Directive {
    /// Append `entry` to the history, then run the pipeline `stages`.
    Run { entry: String, stages: Vec<Stage> },
    /// Leave the loop. Where there is a `notice`, print it first.
    Quit { notice: Option<String> },
}

/// An outcome as plain values.
pub enum OutcomeView {
    Line(Seq<char>),
    Interrupted,
    EndOfInput,
    Error(Seq<char>),
}

/// A directive as plain values.
pub enum DirectiveView {
    Run { entry: Seq<char>, stages: Seq<StageView> },
    Quit { notice: Option<Seq<char>> },
}

impl View for Outcome {
    type V = OutcomeView;

    open spec fn view(&self) -> OutcomeView {
        match *self {
            Outcome::Line(line) => OutcomeView::Line(line@),
            Outcome::Interrupted => OutcomeView::Interrupted,
            Outcome::EndOfInput => OutcomeView::EndOfInput,
            Outcome::Error(reason) => OutcomeView::Error(reason@),
        }
    }
}

impl View for Directive {
    type V = DirectiveView;

    open spec fn view(&self) -> DirectiveView {
        match *self {
            Directive::Run { entry, stages } => DirectiveView::Run {
                entry: entry@,
                stages: stage_views(stages@),
            },
            Directive::Quit { notice } => DirectiveView::Quit {
                notice: match notice {
                    Some(text) => Some(text@),
                    None => None,
                },
            },
        }
    }
}

/// What the loop does with an outcome. A line goes into the history as it
/// was typed and is run as the pipeline it stands for. An interrupt and the
/// end of the input end the loop quietly, an error ends it with a notice.
pub open spec fn directive_for(outcome: OutcomeView) -> DirectiveView {
    match outcome {
        OutcomeView::Line(line) => DirectiveView::Run { entry: line, stages: pipeline_of(line) },
        OutcomeView::Interrupted => DirectiveView::Quit { notice: None },
        OutcomeView::EndOfInput => DirectiveView::Quit { notice: None },
        OutcomeView::Error(reason) => DirectiveView::Quit {
            notice: Some("Error: "@ + reason),
        },
    }
}

/// Decides what the loop does with what the line source gave.
pub fn on_read(outcome: Outcome) -> (directive: Directive)
    ensures
        directive@ == directive_for(outcome@),
{
    match outcome {
        Outcome::Line(line) => {
            let stages = parse_line(line.as_str());
            Directive::Run { entry: line, stages }
        },
        Outcome::Interrupted => Directive::Quit { notice: None },
        Outcome::EndOfInput => Directive::Quit { notice: None },
        Outcome::Error(reason) => {
            let notice = String::from_str("Error: ").concat(reason.as_str());
            Directive::Quit { notice: Some(notice) }
        },
    }
}

} // verus!
