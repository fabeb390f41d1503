//! A whole line at once: the actions that the interpreter asks for when each
//! of them is answered, and what holds of them.

use crate::builtin::{kind_of, Kind};
use crate::chain::{
    handle_in, handle_out, stage_action, step_model, ActionView, ChainView, EventView, Input,
    Output,
};
use crate::stage::StageView;
use vstd::prelude::*;

verus! {

/// The interpreter before the first stage of a pipeline.
pub open spec fn start(stages: Seq<StageView>) -> ChainView {
    ChainView { stages, position: 0 }
}

/// The answer to the action of stage `i`. Where `replies` holds none, the
/// action went well and left no process behind.
pub open spec fn reply_at<H>(replies: Seq<EventView<H>>, i: int) -> EventView<H> {
    if 0 <= i < replies.len() {
        replies[i]
    } else {
        EventView::Proceed
    }
}

/// A bound on the number of decisions that are still to come.
pub open spec fn steps_left<H>(chain: ChainView, event: EventView<H>) -> nat {
    let stages_left = if chain.position <= chain.stages.len() {
        chain.stages.len() - chain.position
    } else {
        0
    };
    let pending: nat = if event is Proceed {
        0
    } else {
        1
    };
    (2 * stages_left + pending) as nat
}

/// The actions of the interpreter from `chain` on, when `event` is what
/// happened last, the action of stage `i` is answered with `replies[i]`, and
/// a report or a wait is answered by going on. The last action is `Done` or
/// `Exit`.
pub open spec fn run<H>(chain: ChainView, replies: Seq<EventView<H>>, event: EventView<H>) -> Seq<
    ActionView<H>,
>
    decreases steps_left(chain, event),
{
    let (next, action) = step_model(chain, event);
    match action {
        ActionView::Done | ActionView::Exit { .. } => seq![action],
        ActionView::Spawn { .. } | ActionView::ChangeDir { .. } => seq![action] + run(
            next,
            replies,
            reply_at(replies, chain.position as int),
        ),
        ActionView::Report { .. } | ActionView::Wait { .. } => seq![action] + run(
            next,
            replies,
            EventView::Proceed,
        ),
    }
}

/// The actions for a whole pipeline.
pub open spec fn line_run<H>(stages: Seq<StageView>, replies: Seq<EventView<H>>) -> Seq<
    ActionView<H>,
> {
    run(start(stages), replies, EventView::Proceed)
}

/// How many items of `s` satisfy `p`.
pub open spec fn tally<A>(s: Seq<A>, p: spec_fn(A) -> bool) -> nat
    decreases s.len(),
{
    if s.len() == 0 {
        0
    } else {
        tally(s.drop_first(), p) + if p(s[0]) {
            1nat
        } else {
            0nat
        }
    }
}

/// The position of the first `exit` at or after `p`, or the number of stages
/// where there is none.
pub open spec fn first_exit_from(stages: Seq<StageView>, p: int) -> int
    decreases stages.len() - p,
{
    if p < 0 || p >= stages.len() {
        stages.len() as int
    } else if kind_of(stages[p]) == Kind::Exit {
        p
    } else {
        first_exit_from(stages, p + 1)
    }
}

/// The stages that have their turn: those before the first `exit`.
pub open spec fn reached(stages: Seq<StageView>) -> Seq<StageView> {
    stages.take(first_exit_from(stages, 0))
}

/// Whether a stage is a program to start.
pub open spec fn is_program() -> spec_fn(StageView) -> bool {
    |stage: StageView| kind_of(stage) == Kind::External
}

/// Whether a stage is a `cd`.
pub open spec fn is_cd() -> spec_fn(StageView) -> bool {
    |stage: StageView| kind_of(stage) == Kind::ChangeDir
}

/// Whether an action starts a program.
pub open spec fn is_spawn<H>() -> spec_fn(ActionView<H>) -> bool {
    |action: ActionView<H>| action is Spawn
}

/// Whether an action changes the working directory.
pub open spec fn is_change_dir<H>() -> spec_fn(ActionView<H>) -> bool {
    |action: ActionView<H>| action is ChangeDir
}

/// Whether an action writes to the error stream.
pub open spec fn is_report<H>() -> spec_fn(ActionView<H>) -> bool {
    |action: ActionView<H>| action is Report
}

/// Whether an action blocks until a process has ended.
pub open spec fn is_wait<H>() -> spec_fn(ActionView<H>) -> bool {
    |action: ActionView<H>| action is Wait
}

/// Whether an event tells of a failure.
pub open spec fn is_failure<H>() -> spec_fn(EventView<H>) -> bool {
    |event: EventView<H>| event is Failed
}

/// The first `exit` at or after `p` lies between `p` and the end, and no
/// stage between `p` and it is an `exit`.
pub proof fn lemma_first_exit_from(stages: Seq<StageView>, p: int)
    requires
        0 <= p <= stages.len(),
    ensures
        p <= first_exit_from(stages, p) <= stages.len(),
        first_exit_from(stages, p) < stages.len() ==> kind_of(
            stages[first_exit_from(stages, p)],
        ) == Kind::Exit,
        forall|k: int| p <= k < first_exit_from(stages, p) ==> kind_of(#[trigger] stages[k])
            != Kind::Exit,
    decreases stages.len() - p,
{
    if p < stages.len() && kind_of(stages[p]) != Kind::Exit {
        lemma_first_exit_from(stages, p + 1);
    }
}

/// Counting with one more item in front.
pub proof fn lemma_tally_front<A>(first: A, rest: Seq<A>, p: spec_fn(A) -> bool)
    ensures
        tally(seq![first] + rest, p) == tally(rest, p) + if p(first) {
            1nat
        } else {
            0nat
        },
{
    assert((seq![first] + rest).drop_first() =~= rest);
}

/// Counting over a range of stages whose first item is taken off.
proof fn lemma_tally_range(stages: Seq<StageView>, p: int, e: int, which: spec_fn(StageView) -> bool)
    requires
        0 <= p < e <= stages.len(),
    ensures
        tally(stages.subrange(p, e), which) == tally(stages.subrange(p + 1, e), which) + if which(
            stages[p],
        ) {
            1nat
        } else {
            0nat
        },
{
    assert(stages.subrange(p, e).drop_first() =~= stages.subrange(p + 1, e));
}

/// From any place in a pipeline, one program is started for each stage up
/// to the next `exit` that is no builtin, whatever the answers are.
pub proof fn lemma_spawns_from<H>(chain: ChainView, replies: Seq<EventView<H>>, event: EventView<H>)
    requires
        chain.position <= chain.stages.len(),
    ensures
        tally(run(chain, replies, event), is_spawn()) == tally(
            chain.stages.subrange(
                chain.position as int,
                first_exit_from(chain.stages, chain.position as int),
            ),
            is_program(),
        ),
    decreases steps_left(chain, event),
{
    let p = chain.position as int;
    let (next, action) = step_model(chain, event);
    lemma_first_exit_from(chain.stages, p);
    match action {
        ActionView::Done | ActionView::Exit { .. } => {
            lemma_tally_front(action, Seq::empty(), is_spawn());
        },
        ActionView::Spawn { .. } | ActionView::ChangeDir { .. } => {
            let rest = run(next, replies, reply_at(replies, p));
            lemma_spawns_from(next, replies, reply_at(replies, p));
            lemma_tally_front(action, rest, is_spawn());
            lemma_tally_range(
                chain.stages,
                p,
                first_exit_from(chain.stages, p),
                is_program(),
            );
        },
        ActionView::Report { .. } | ActionView::Wait { .. } => {
            let rest = run(next, replies, EventView::Proceed);
            lemma_spawns_from(next, replies, EventView::Proceed);
            lemma_tally_front(action, rest, is_spawn());
        },
    }
}

/// Over a whole line, one program is started for each stage before the
/// first `exit` that is no builtin: a builtin starts none, and nothing is
/// started after an `exit`.
pub proof fn lemma_one_spawn_per_program<H>(stages: Seq<StageView>, replies: Seq<EventView<H>>)
    ensures
        tally(line_run(stages, replies), is_spawn()) == tally(reached(stages), is_program()),
{
    lemma_spawns_from(start(stages), replies, EventView::Proceed);
}

/// Where no stage is an `exit`, the programs started are as many as the
/// stages that are no builtin.
pub proof fn lemma_spawns_without_exit<H>(stages: Seq<StageView>, replies: Seq<EventView<H>>)
    requires
        forall|i: int| 0 <= i < stages.len() ==> kind_of(#[trigger] stages[i]) != Kind::Exit,
    ensures
        tally(line_run(stages, replies), is_spawn()) == tally(stages, is_program()),
{
    lemma_one_spawn_per_program(stages, replies);
    lemma_first_exit_from(stages, 0);
    assert(reached(stages) =~= stages);
}

/// From any place in a pipeline, the working directory is changed once for
/// each `cd` up to the next `exit`.
pub proof fn lemma_changes_from<H>(chain: ChainView, replies: Seq<EventView<H>>, event: EventView<H>)
    requires
        chain.position <= chain.stages.len(),
    ensures
        tally(run(chain, replies, event), is_change_dir()) == tally(
            chain.stages.subrange(
                chain.position as int,
                first_exit_from(chain.stages, chain.position as int),
            ),
            is_cd(),
        ),
    decreases steps_left(chain, event),
{
    let p = chain.position as int;
    let (next, action) = step_model(chain, event);
    lemma_first_exit_from(chain.stages, p);
    match action {
        ActionView::Done | ActionView::Exit { .. } => {
            lemma_tally_front(action, Seq::empty(), is_change_dir());
        },
        ActionView::Spawn { .. } | ActionView::ChangeDir { .. } => {
            let rest = run(next, replies, reply_at(replies, p));
            lemma_changes_from(next, replies, reply_at(replies, p));
            lemma_tally_front(action, rest, is_change_dir());
            lemma_tally_range(chain.stages, p, first_exit_from(chain.stages, p), is_cd());
        },
        ActionView::Report { .. } | ActionView::Wait { .. } => {
            let rest = run(next, replies, EventView::Proceed);
            lemma_changes_from(next, replies, EventView::Proceed);
            lemma_tally_front(action, rest, is_change_dir());
        },
    }
}

/// Over a whole line, the working directory is changed once for each `cd`
/// before the first `exit`, and for nothing else: a line without `cd` leaves
/// the directory as the lines before it left it.
pub proof fn lemma_one_change_per_cd<H>(stages: Seq<StageView>, replies: Seq<EventView<H>>)
    ensures
        tally(line_run(stages, replies), is_change_dir()) == tally(reached(stages), is_cd()),
{
    lemma_changes_from(start(stages), replies, EventView::Proceed);
}

/// Counting over a range of replies whose first item is taken off.
proof fn lemma_tally_replies<H>(replies: Seq<EventView<H>>, p: int, e: int)
    requires
        0 <= p < e <= replies.len(),
    ensures
        tally(replies.subrange(p, e), is_failure()) == tally(
            replies.subrange(p + 1, e),
            is_failure(),
        ) + if replies[p] is Failed {
            1nat
        } else {
            0nat
        },
{
    assert(replies.subrange(p, e).drop_first() =~= replies.subrange(p + 1, e));
}

/// From any place in a pipeline, there is one report for each failure: for
/// the one that was just told, and for each that a stage up to the next
/// `exit` is answered with.
pub proof fn lemma_reports_from<H>(chain: ChainView, replies: Seq<EventView<H>>, event: EventView<H>)
    requires
        chain.position <= chain.stages.len(),
        replies.len() == chain.stages.len(),
    ensures
        tally(run(chain, replies, event), is_report()) == tally(
            replies.subrange(
                chain.position as int,
                first_exit_from(chain.stages, chain.position as int),
            ),
            is_failure(),
        ) + if event is Failed {
            1nat
        } else {
            0nat
        },
    decreases steps_left(chain, event),
{
    let p = chain.position as int;
    let (next, action) = step_model(chain, event);
    lemma_first_exit_from(chain.stages, p);
    match action {
        ActionView::Done | ActionView::Exit { .. } => {
            lemma_tally_front(action, Seq::empty(), is_report());
        },
        ActionView::Spawn { .. } | ActionView::ChangeDir { .. } => {
            let rest = run(next, replies, reply_at(replies, p));
            lemma_reports_from(next, replies, reply_at(replies, p));
            lemma_tally_front(action, rest, is_report());
            lemma_tally_replies(replies, p, first_exit_from(chain.stages, p));
        },
        ActionView::Report { .. } | ActionView::Wait { .. } => {
            let rest = run(next, replies, EventView::Proceed);
            lemma_reports_from(next, replies, EventView::Proceed);
            lemma_tally_front(action, rest, is_report());
        },
    }
}

/// Over a whole line, each failure of a stage before the first `exit` is
/// reported once, and nothing else is reported.
pub proof fn lemma_one_report_per_failure<H>(stages: Seq<StageView>, replies: Seq<EventView<H>>)
    requires
        replies.len() == stages.len(),
    ensures
        tally(line_run(stages, replies), is_report()) == tally(
            replies.take(first_exit_from(stages, 0)),
            is_failure(),
        ),
{
    lemma_reports_from(start(stages), replies, EventView::Proceed);
}

/// What the interpreter asks for at place `i` of a line whose stages are all
/// programs that all start: the programs in order, each reading what the one
/// before it writes, then the wait for the last, then the end.
pub open spec fn program_run_at<H>(
    stages: Seq<StageView>,
    replies: Seq<EventView<H>>,
    i: int,
) -> ActionView<H> {
    if i < stages.len() {
        ActionView::Spawn {
            program: stages[i].program,
            args: stages[i].args,
            stdin: if i == 0 {
                Input::Inherit
            } else {
                Input::Pipe(replies[i - 1]->Spawned_0)
            },
            stdout: if i + 1 < stages.len() {
                Output::Piped
            } else {
                Output::Inherit
            },
        }
    } else if i == stages.len() {
        ActionView::Wait { handle: replies[i - 1]->Spawned_0 }
    } else {
        ActionView::Done
    }
}

proof fn lemma_programs_from<H>(stages: Seq<StageView>, replies: Seq<EventView<H>>, p: int)
    requires
        replies.len() == stages.len(),
        forall|i: int| 0 <= i < stages.len() ==> kind_of(#[trigger] stages[i]) == Kind::External,
        forall|i: int| 0 <= i < replies.len() ==> #[trigger] replies[i] is Spawned,
        0 <= p <= stages.len(),
        stages.len() >= 1,
    ensures
        run(
            ChainView { stages, position: p as nat },
            replies,
            if p == 0 {
                EventView::Proceed
            } else {
                replies[p - 1]
            },
        ) == Seq::new(
            (stages.len() + 2 - p) as nat,
            |k: int| program_run_at(stages, replies, p + k),
        ),
    decreases stages.len() - p,
{
    let chain = ChainView { stages, position: p as nat };
    if p < stages.len() {
        lemma_programs_from(stages, replies, p + 1);
    } else {
        assert(run(chain, replies, EventView::<H>::Proceed) =~= seq![ActionView::<H>::Done]);
    }
}

/// A line of programs that all start: each program but the last writes into
/// a pipe that the next one reads, the first reads the session's input, only
/// the last writes to the session's output, and it is the last that is
/// awaited.
pub proof fn lemma_programs_are_chained<H>(stages: Seq<StageView>, replies: Seq<EventView<H>>)
    requires
        stages.len() >= 1,
        replies.len() == stages.len(),
        forall|i: int| 0 <= i < stages.len() ==> kind_of(#[trigger] stages[i]) == Kind::External,
        forall|i: int| 0 <= i < replies.len() ==> #[trigger] replies[i] is Spawned,
    ensures
        line_run(stages, replies).len() == stages.len() + 2,
        forall|i: int|
            0 <= i < stages.len() + 2 ==> #[trigger] line_run(stages, replies)[i]
                == program_run_at(stages, replies, i),
{
    lemma_programs_from(stages, replies, 0);
}

/// A line of one program that starts asks for the same three things
/// whenever it is run: to start the program on the session's own streams, to
/// wait for it, and to end the line.
pub proof fn lemma_single_program<H>(stage: StageView, handle: H)
    requires
        kind_of(stage) == Kind::External,
    ensures
        line_run(seq![stage], seq![EventView::Spawned(handle)]) == seq![
            ActionView::Spawn {
                program: stage.program,
                args: stage.args,
                stdin: Input::Inherit,
                stdout: Output::Inherit,
            },
            ActionView::Wait { handle },
            ActionView::Done,
        ],
{
    lemma_programs_are_chained(seq![stage], seq![EventView::Spawned(handle)]);
}

/// A line that begins with `exit` asks for nothing but to leave, whatever
/// follows the `exit`.
pub proof fn lemma_exit_first<H>(stages: Seq<StageView>, replies: Seq<EventView<H>>)
    requires
        stages.len() >= 1,
        kind_of(stages[0]) == Kind::Exit,
    ensures
        line_run(stages, replies) == seq![ActionView::<H>::Exit { released: None }],
{
}

/// Every run ends with its only `Exit` or `Done`: with `Exit` where an
/// `exit` is reached, with `Done` where the stages run out.
pub proof fn lemma_run_ends<H>(chain: ChainView, replies: Seq<EventView<H>>, event: EventView<H>)
    requires
        chain.position <= chain.stages.len(),
    ensures
        run(chain, replies, event).len() >= 1,
        run(chain, replies, event).last() is Exit <==> first_exit_from(
            chain.stages,
            chain.position as int,
        ) < chain.stages.len(),
        run(chain, replies, event).last() is Done <==> first_exit_from(
            chain.stages,
            chain.position as int,
        ) == chain.stages.len(),
        forall|k: int|
            0 <= k < run(chain, replies, event).len() - 1 ==> {
                let action = #[trigger] run(chain, replies, event)[k];
                !(action is Exit) && !(action is Done)
            },
    decreases steps_left(chain, event),
{
    let p = chain.position as int;
    let (next, action) = step_model(chain, event);
    lemma_first_exit_from(chain.stages, p);
    match action {
        ActionView::Done | ActionView::Exit { .. } => {},
        ActionView::Spawn { .. } | ActionView::ChangeDir { .. } => {
            lemma_run_ends(next, replies, reply_at(replies, p));
        },
        ActionView::Report { .. } | ActionView::Wait { .. } => {
            lemma_run_ends(next, replies, EventView::Proceed);
        },
    }
}

/// The handle that comes in with an event is given away with the action
/// that answers it, and an action gives away no other handle.
pub proof fn lemma_handle_moves_on<H>(chain: ChainView, event: EventView<H>)
    ensures
        handle_out(step_model(chain, event).1) == handle_in(event),
{
}

/// A failure is reported once, word for word, and the pipeline then goes on
/// where it was: the next stage has its turn with no process before it, so a
/// program reads the session's own input.
pub proof fn lemma_failure_resets_chain<H>(
    chain: ChainView,
    replies: Seq<EventView<H>>,
    message: Seq<char>,
)
    ensures
        step_model::<H>(chain, EventView::Failed(message)) == (
            chain,
            ActionView::<H>::Report { message },
        ),
        run(chain, replies, EventView::Failed(message)) == seq![
            ActionView::<H>::Report { message },
        ] + run(chain, replies, EventView::Proceed),
        chain.position < chain.stages.len() ==> step_model::<H>(chain, EventView::Proceed).1
            == stage_action::<H>(chain, None),
        chain.position < chain.stages.len() && kind_of(chain.stages[chain.position as int])
            == Kind::External ==> stage_action::<H>(chain, None) == (ActionView::<H>::Spawn {
            program: chain.stages[chain.position as int].program,
            args: chain.stages[chain.position as int].args,
            stdin: Input::Inherit,
            stdout: if chain.position + 1 < chain.stages.len() {
                Output::Piped
            } else {
                Output::Inherit
            },
        }),
{
}

/// The event that is there when the stages have run out: the answer to the
/// last stage, or `event` itself where no stage is left.
pub open spec fn event_at_end<H>(
    chain: ChainView,
    replies: Seq<EventView<H>>,
    event: EventView<H>,
) -> EventView<H> {
    if chain.position < chain.stages.len() {
        reply_at(replies, chain.stages.len() - 1)
    } else {
        event
    }
}

/// The interpreter blocks at most once in a run, as the last thing before
/// the end: it waits where the stages run out with a process just started,
/// and nowhere else.
pub proof fn lemma_wait_from<H>(chain: ChainView, replies: Seq<EventView<H>>, event: EventView<H>)
    requires
        chain.position <= chain.stages.len(),
    ensures
        tally(run(chain, replies, event), is_wait()) == if first_exit_from(
            chain.stages,
            chain.position as int,
        ) == chain.stages.len() && event_at_end(chain, replies, event) is Spawned {
            1nat
        } else {
            0nat
        },
        forall|k: int|
            0 <= k < run(chain, replies, event).len() && #[trigger] run(chain, replies, event)[k]
                is Wait ==> k + 2 == run(chain, replies, event).len() && run(
                chain,
                replies,
                event,
            ).last() is Done,
    decreases steps_left(chain, event),
{
    let p = chain.position as int;
    let (next, action) = step_model(chain, event);
    lemma_first_exit_from(chain.stages, p);
    match action {
        ActionView::Done | ActionView::Exit { .. } => {
            lemma_tally_front(action, Seq::empty(), is_wait());
        },
        ActionView::Spawn { .. } | ActionView::ChangeDir { .. } => {
            let rest = run(next, replies, reply_at(replies, p));
            lemma_wait_from(next, replies, reply_at(replies, p));
            lemma_tally_front(action, rest, is_wait());
        },
        ActionView::Report { .. } => {
            let rest = run(next, replies, EventView::Proceed);
            lemma_wait_from(next, replies, EventView::Proceed);
            lemma_tally_front(action, rest, is_wait());
        },
        ActionView::Wait { .. } => {
            let rest = run(next, replies, EventView::<H>::Proceed);
            lemma_tally_front(action, rest, is_wait());
            lemma_tally_front(ActionView::<H>::Done, Seq::empty(), is_wait());
        },
    }
}

/// Over a whole line, the interpreter blocks at most once, as the last
/// thing before the end: where no `exit` is reached and the last stage is
/// answered with a started process.
pub proof fn lemma_one_wait_at_most<H>(stages: Seq<StageView>, replies: Seq<EventView<H>>)
    ensures
        tally(line_run(stages, replies), is_wait()) <= 1,
        tally(line_run(stages, replies), is_wait()) == 1 <==> stages.len() > 0 && first_exit_from(
            stages,
            0,
        ) == stages.len() && reply_at(replies, stages.len() - 1) is Spawned,
        forall|k: int|
            0 <= k < line_run(stages, replies).len() && #[trigger] line_run(stages, replies)[k]
                is Wait ==> k + 2 == line_run(stages, replies).len() && line_run(
                stages,
                replies,
            ).last() is Done,
{
    lemma_wait_from(start(stages), replies, EventView::Proceed);
}

/// A run is short: at most two actions for each stage that is left, one
/// more where the last event is still to be dealt with, and the end.
pub proof fn lemma_run_length<H>(chain: ChainView, replies: Seq<EventView<H>>, event: EventView<H>)
    ensures
        1 <= run(chain, replies, event).len() <= steps_left(chain, event) + 1,
    decreases steps_left(chain, event),
{
    let (next, action) = step_model(chain, event);
    match action {
        ActionView::Done | ActionView::Exit { .. } => {},
        ActionView::Spawn { .. } | ActionView::ChangeDir { .. } => {
            lemma_run_length(next, replies, reply_at(replies, chain.position as int));
        },
        ActionView::Report { .. } | ActionView::Wait { .. } => {
            lemma_run_length(next, replies, EventView::Proceed);
        },
    }
}

/// A program that is not the last stage writes into a pipe, and the handle
/// that its start is reported with goes to the stage after it: into the
/// standard input of a program, or out of the way of a builtin.
pub proof fn lemma_pipe_reaches_next_stage<H>(chain: ChainView, event: EventView<H>, handle: H)
    requires
        chain.position + 1 < chain.stages.len(),
        kind_of(chain.stages[chain.position as int]) == Kind::External,
        !(event is Failed),
    ensures
        step_model(chain, event).1 is Spawn,
        step_model(chain, event).1->stdout == Output::Piped,
        ({
            let next = step_model(chain, event).0;
            let action = step_model(next, EventView::Spawned(handle)).1;
            match kind_of(chain.stages[chain.position as int + 1]) {
                Kind::External => action is Spawn && action->stdin == Input::Pipe(handle),
                Kind::ChangeDir => action is ChangeDir && action->ChangeDir_released == Some(
                    handle,
                ),
                Kind::Exit => action == (ActionView::Exit { released: Some(handle) }),
            }
        }),
{
}

/// A program that is the last stage writes to the session's output. Where
/// it starts it is awaited, and then the line is done; where it does not,
/// the line is done after the report, and nothing is awaited.
pub proof fn lemma_last_stage_is_awaited<H>(
    chain: ChainView,
    event: EventView<H>,
    handle: H,
    message: Seq<char>,
)
    requires
        chain.position + 1 == chain.stages.len(),
        kind_of(chain.stages[chain.position as int]) == Kind::External,
        !(event is Failed),
    ensures
        step_model(chain, event).1 is Spawn,
        step_model(chain, event).1->stdout == Output::Inherit,
        ({
            let next = step_model(chain, event).0;
            &&& step_model(next, EventView::Spawned(handle)) == (
                next,
                ActionView::Wait { handle },
            )
            &&& step_model::<H>(next, EventView::Proceed) == (next, ActionView::<H>::Done)
            &&& step_model::<H>(next, EventView::Failed(message)) == (
                next,
                ActionView::<H>::Report { message },
            )
        }),
{
}

} // verus!
