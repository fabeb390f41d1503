//! The chaining of a pipeline's stages, one decision at a time.
//!
//! The interpreter itself starts no process and touches no directory. It is
//! told what happened last (an [`Event`]) and answers with what to do next
//! (an [`Action`]). The handle of a started process travels with them: it
//! comes in with the event that reports the start, and it leaves again with
//! the very next action, wired into the next stage or handed over to be
//! awaited. The interpreter never keeps one.

use crate::builtin::{cd_target, classify, kind_of, target, Kind};
use crate::stage::{copy_texts, stage_views, Stage, StageView};
use crate::text::texts;
use vstd::prelude::*;

verus! {

/// Where a stage reads its standard input from.
#[derive(Debug, PartialEq, Eq)]
pub enum Input<H> {
    /// The session's own standard input.
    Inherit,
    /// The captured output of the process behind this handle, which is given
    /// away with it.
    Pipe(H),
}

/// Where a stage writes its standard output to.
#[derive(Debug, Clone, Copy, PartialEq, Eq, Structural)]
pub enum Output {
    /// The session's own standard output.
    Inherit,
    /// A pipe that the next stage can read.
    Piped,
}

/// What the interpreter asks for next.
#[derive(Debug, PartialEq, Eq)]
pub enum Action<H> {
    /// Start a program with these streams, and report how that went.
    Spawn { program: String, args: Vec<String>, stdin: Input<H>, stdout: Output },
    /// Change the working directory, and report how that went. A handle that
    /// was waiting for a reader is let go: `cd` reads nothing.
    ChangeDir { path: String, released: Option<H> },
    /// Write one line to the error stream.
    Report { message: String },
    /// Block until this process has ended.
    Wait { handle: H },
    /// Leave the interpreter for good.
    Exit { released: Option<H> },
    /// The line is done.
    Done,
}

/// What happened to the last action.
#[derive(Debug, PartialEq, Eq)]
pub enum Event<H> {
    /// Nothing to tell: the line begins, or the last action went well and
    /// left no process behind.
    Proceed,
    /// The program was started; this is its handle.
    Spawned(H),
    /// The program could not be started, or the directory not be changed.
    Failed(String),
}

/// An action as plain values.
pub enum ActionView<H> {
    Spawn { program: Seq<char>, args: Seq<Seq<char>>, stdin: Input<H>, stdout: Output },
    ChangeDir { path: Seq<char>, released: Option<H> },
    Report { message: Seq<char> },
    Wait { handle: H },
    Exit { released: Option<H> },
    Done,
}

/// An event as plain values.
pub enum EventView<H> {
    Proceed,
    Spawned(H),
    Failed(Seq<char>),
}

impl<H> View for Action<H> {
    type V = ActionView<H>;

    open spec fn view(&self) -> ActionView<H> {
        match *self {
            Action::Spawn { program, args, stdin, stdout } => ActionView::Spawn {
                program: program@,
                args: texts(args@),
                stdin,
                stdout,
            },
            Action::ChangeDir { path, released } => ActionView::ChangeDir {
                path: path@,
                released,
            },
            Action::Report { message } => ActionView::Report { message: message@ },
            Action::Wait { handle } => ActionView::Wait { handle },
            Action::Exit { released } => ActionView::Exit { released },
            Action::Done => ActionView::Done,
        }
    }
}

impl<H> View for Event<H> {
    type V = EventView<H>;

    open spec fn view(&self) -> EventView<H> {
        match *self {
            Event::Proceed => EventView::Proceed,
            Event::Spawned(handle) => EventView::Spawned(handle),
            Event::Failed(message) => EventView::Failed(message@),
        }
    }
}

/// The streams of a stage. It reads from the process before it where there
/// is one, else from the session. It writes into a pipe where a stage
/// follows, else to the session.
pub open spec fn wiring_of<H>(previous: Option<H>, has_more: bool) -> (Input<H>, Output) {
    (
        match previous {
            Some(handle) => Input::Pipe(handle),
            None => Input::Inherit,
        },
        if has_more {
            Output::Piped
        } else {
            Output::Inherit
        },
    )
}

/// Chooses the streams of a stage.
pub fn wiring<H>(previous: Option<H>, has_more: bool) -> (streams: (Input<H>, Output))
    ensures
        streams == wiring_of(previous, has_more),
{
    let stdin = match previous {
        Some(handle) => Input::Pipe(handle),
        None => Input::Inherit,
    };
    let stdout = if has_more {
        Output::Piped
    } else {
        Output::Inherit
    };
    (stdin, stdout)
}

/// How far the interpreter has come in a pipeline: the stages before
/// `position` have had their action.
pub struct ChainView {
    pub stages: Seq<StageView>,
    pub position: nat,
}

/// The handle that an event brings along, if any.
pub open spec fn handle_in<H>(event: EventView<H>) -> Option<H> {
    match event {
        EventView::Spawned(handle) => Some(handle),
        _ => None,
    }
}

/// The handle that an action gives away, if any.
pub open spec fn handle_out<H>(action: ActionView<H>) -> Option<H> {
    match action {
        ActionView::Spawn { stdin: Input::Pipe(handle), .. } => Some(handle),
        ActionView::ChangeDir { released, .. } => released,
        ActionView::Wait { handle } => Some(handle),
        ActionView::Exit { released } => released,
        _ => None,
    }
}

/// The action for the stage at `chain.position`, which exists, given the
/// process that waits for a reader.
pub open spec fn stage_action<H>(chain: ChainView, previous: Option<H>) -> ActionView<H> {
    let stage = chain.stages[chain.position as int];
    match kind_of(stage) {
        Kind::Exit => ActionView::Exit { released: previous },
        Kind::ChangeDir => ActionView::ChangeDir { path: cd_target(stage), released: previous },
        Kind::External => {
            let streams = wiring_of(previous, chain.position + 1 < chain.stages.len());
            ActionView::Spawn {
                program: stage.program,
                args: stage.args,
                stdin: streams.0,
                stdout: streams.1,
            }
        },
    }
}

/// One decision of the interpreter.
///
/// A failure is reported, and the pipeline goes on afterwards without the
/// failed stage's output. Otherwise the next stage has its turn: `exit` ends
/// the line there and then, `cd` and a program move the position on by one.
/// Past the last stage, a process that was just started is awaited, and
/// with none the line is done.
pub open spec fn step_model<H>(chain: ChainView, event: EventView<H>) -> (ChainView, ActionView<H>) {
    match event {
        EventView::Failed(message) => (chain, ActionView::Report { message }),
        _ => {
            let previous = handle_in(event);
            if chain.position < chain.stages.len() {
                let action = stage_action(chain, previous);
                let position = if action is Exit {
                    chain.stages.len()
                } else {
                    chain.position + 1
                };
                (ChainView { stages: chain.stages, position }, action)
            } else {
                match previous {
                    Some(handle) => (chain, ActionView::Wait { handle }),
                    None => (chain, ActionView::Done),
                }
            }
        },
    }
}

/// The interpreter's place in one pipeline.
pub struct Chain {
    stages: Vec<Stage>,
    position: usize,
}

impl View for Chain {
    type V = ChainView;

    closed spec fn view(&self) -> ChainView {
        ChainView { stages: stage_views(self.stages@), position: self.position as nat }
    }
}

impl Chain {
    #[verifier::type_invariant]
    spec fn within(self) -> bool {
        self.position <= self.stages.len()
    }

    /// The interpreter before the first stage of `stages`.
    pub fn new(stages: Vec<Stage>) -> (chain: Chain)
        ensures
            chain@ == (ChainView { stages: stage_views(stages@), position: 0 }),
    {
        Chain { stages, position: 0 }
    }

    /// Takes in what happened last and decides what to do next.
    ///
    /// The handle that comes in with `event` leaves with the action.
    pub fn step<H>(&mut self, event: Event<H>) -> (action: Action<H>)
        ensures
            (final(self)@, action@) == step_model(old(self)@, event@),
            handle_out(action@) == handle_in(event@),
    {
        proof {
            use_type_invariant(&*self);
        }
        let previous: Option<H> = match event {
            Event::Failed(message) => {
                return Action::Report { message };
            },
            Event::Spawned(handle) => Some(handle),
            Event::Proceed => None,
        };
        let n = self.stages.len();
        let i = self.position;
        if i < n {
            match classify(&self.stages[i]) {
                Kind::Exit => {
                    self.position = n;
                    Action::Exit { released: previous }
                },
                Kind::ChangeDir => {
                    let path = target(&self.stages[i]);
                    self.position = i + 1;
                    Action::ChangeDir { path, released: previous }
                },
                Kind::External => {
                    let (stdin, stdout) = wiring(previous, i + 1 < n);
                    let program = self.stages[i].program.clone();
                    let args = copy_texts(&self.stages[i].args);
                    self.position = i + 1;
                    Action::Spawn { program, args, stdin, stdout }
                },
            }
        } else {
            match previous {
                Some(handle) => Action::Wait { handle },
                None => Action::Done,
            }
        }
    }
}

} // verus!
