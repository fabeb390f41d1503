use pipeline_shell::chain::{wiring, Action, Chain, Event, Input, Output};
use pipeline_shell::stage::parse_line;

type Handle = u32;

fn texts(items: &[&str]) -> Vec<String> {
    items.iter().map(|a| a.to_string()).collect()
}

fn spawn(program: &str, args: &[&str], stdin: Input<Handle>, stdout: Output) -> Action<Handle> {
    Action::Spawn { program: program.to_string(), args: texts(args), stdin, stdout }
}

fn report(message: &str) -> Action<Handle> {
    Action::Report { message: message.to_string() }
}

fn failed(message: &str) -> Event<Handle> {
    Event::Failed(message.to_string())
}

/// Runs a line against answers that are written down beforehand: the
/// action of each stage gets the next answer, a report and a wait are
/// answered by going on.
fn drive(line: &str, replies: Vec<Event<Handle>>) -> Vec<Action<Handle>> {
    let mut chain = Chain::new(parse_line(line));
    let mut replies = replies.into_iter();
    let mut actions = Vec::new();
    let mut event = Event::Proceed;
    loop {
        let action = chain.step(event);
        event = match action {
            Action::Spawn { .. } | Action::ChangeDir { .. } => {
                replies.next().unwrap_or(Event::Proceed)
            }
            Action::Report { .. } | Action::Wait { .. } => Event::Proceed,
            Action::Exit { .. } | Action::Done => {
                actions.push(action);
                return actions;
            }
        };
        actions.push(action);
        assert!(actions.len() < 1000);
    }
}

fn handle_in(event: &Event<Handle>) -> Option<Handle> {
    match event {
        Event::Spawned(handle) => Some(*handle),
        _ => None,
    }
}

fn handle_out(action: &Action<Handle>) -> Option<Handle> {
    match action {
        Action::Spawn { stdin: Input::Pipe(handle), .. } => Some(*handle),
        Action::ChangeDir { released, .. } => *released,
        Action::Wait { handle } => Some(*handle),
        Action::Exit { released } => *released,
        _ => None,
    }
}

fn spawns(actions: &[Action<Handle>]) -> usize {
    actions.iter().filter(|a| matches!(a, Action::Spawn { .. })).count()
}

#[test]
fn streams_of_a_stage() {
    assert_eq!(wiring::<Handle>(None, false), (Input::Inherit, Output::Inherit));
    assert_eq!(wiring::<Handle>(None, true), (Input::Inherit, Output::Piped));
    assert_eq!(wiring(Some(3), false), (Input::Pipe(3), Output::Inherit));
    assert_eq!(wiring(Some(4), true), (Input::Pipe(4), Output::Piped));
}

#[test]
fn echo_into_wc() {
    let actions = drive("echo hello | wc -w", vec![Event::Spawned(1), Event::Spawned(2)]);
    assert_eq!(
        actions,
        vec![
            spawn("echo", &["hello"], Input::Inherit, Output::Piped),
            spawn("wc", &["-w"], Input::Pipe(1), Output::Inherit),
            Action::Wait { handle: 2 },
            Action::Done,
        ]
    );
}

#[test]
fn cd_then_pwd_on_the_next_line() {
    assert_eq!(
        drive("cd /tmp", vec![Event::Proceed]),
        vec![Action::ChangeDir { path: "/tmp".to_string(), released: None }, Action::Done]
    );
    assert_eq!(
        drive("pwd", vec![Event::Spawned(1)]),
        vec![spawn("pwd", &[], Input::Inherit, Output::Inherit), Action::Wait { handle: 1 }, Action::Done]
    );
}

#[test]
fn missing_program_then_fallback() {
    let actions = drive(
        "nonexistent_prog | echo fallback",
        vec![failed("No such file or directory (os error 2)"), Event::Spawned(1)],
    );
    assert_eq!(
        actions,
        vec![
            spawn("nonexistent_prog", &[], Input::Inherit, Output::Piped),
            report("No such file or directory (os error 2)"),
            spawn("echo", &["fallback"], Input::Inherit, Output::Inherit),
            Action::Wait { handle: 1 },
            Action::Done,
        ]
    );
}

#[test]
fn empty_line_fails_at_its_start_and_the_loop_goes_on() {
    let actions = drive("", vec![failed("No such file or directory (os error 2)")]);
    assert_eq!(
        actions,
        vec![
            spawn("", &[], Input::Inherit, Output::Inherit),
            report("No such file or directory (os error 2)"),
            Action::Done,
        ]
    );
}

#[test]
fn exit_asks_for_nothing_else() {
    assert_eq!(drive("exit", vec![]), vec![Action::Exit { released: None }]);
}

#[test]
fn exit_cuts_the_line_short() {
    assert_eq!(drive("exit | ls | wc", vec![]), vec![Action::Exit { released: None }]);
    assert_eq!(
        drive("ls | exit | wc", vec![Event::Spawned(1)]),
        vec![spawn("ls", &[], Input::Inherit, Output::Piped), Action::Exit { released: Some(1) }]
    );
    assert_eq!(
        drive("nope | exit | wc", vec![failed("not found")]),
        vec![
            spawn("nope", &[], Input::Inherit, Output::Piped),
            report("not found"),
            Action::Exit { released: None },
        ]
    );
}

#[test]
fn cd_without_argument_asks_for_the_root() {
    assert_eq!(
        drive("cd", vec![Event::Proceed]),
        vec![Action::ChangeDir { path: "/".to_string(), released: None }, Action::Done]
    );
}

#[test]
fn failed_cd_is_reported_once() {
    let actions = drive("cd /no/such/dir", vec![failed("No such file or directory (os error 2)")]);
    assert_eq!(
        actions,
        vec![
            Action::ChangeDir { path: "/no/such/dir".to_string(), released: None },
            report("No such file or directory (os error 2)"),
            Action::Done,
        ]
    );
}

#[test]
fn cd_feeds_nothing_and_reads_nothing() {
    assert_eq!(
        drive("ls | cd /tmp | wc", vec![Event::Spawned(1), Event::Proceed, Event::Spawned(2)]),
        vec![
            spawn("ls", &[], Input::Inherit, Output::Piped),
            Action::ChangeDir { path: "/tmp".to_string(), released: Some(1) },
            spawn("wc", &[], Input::Inherit, Output::Inherit),
            Action::Wait { handle: 2 },
            Action::Done,
        ]
    );
    assert_eq!(
        drive("ls | cd /nowhere | wc", vec![Event::Spawned(1), failed("nowhere"), Event::Spawned(2)]),
        vec![
            spawn("ls", &[], Input::Inherit, Output::Piped),
            Action::ChangeDir { path: "/nowhere".to_string(), released: Some(1) },
            report("nowhere"),
            spawn("wc", &[], Input::Inherit, Output::Inherit),
            Action::Wait { handle: 2 },
            Action::Done,
        ]
    );
}

#[test]
fn nothing_is_awaited_after_a_last_stage_that_did_not_start() {
    assert_eq!(
        drive("ls | nope", vec![Event::Spawned(1), failed("not found")]),
        vec![
            spawn("ls", &[], Input::Inherit, Output::Piped),
            spawn("nope", &[], Input::Pipe(1), Output::Inherit),
            report("not found"),
            Action::Done,
        ]
    );
    assert_eq!(
        drive("ls | cd", vec![Event::Spawned(1), Event::Proceed]),
        vec![
            spawn("ls", &[], Input::Inherit, Output::Piped),
            Action::ChangeDir { path: "/".to_string(), released: Some(1) },
            Action::Done,
        ]
    );
}

#[test]
fn failure_in_the_middle_lets_the_rest_run() {
    let actions = drive(
        "a | b | c | d",
        vec![Event::Spawned(1), failed("b: not found"), Event::Spawned(3), Event::Spawned(4)],
    );
    assert_eq!(
        actions,
        vec![
            spawn("a", &[], Input::Inherit, Output::Piped),
            spawn("b", &[], Input::Pipe(1), Output::Piped),
            report("b: not found"),
            spawn("c", &[], Input::Inherit, Output::Piped),
            spawn("d", &[], Input::Pipe(3), Output::Inherit),
            Action::Wait { handle: 4 },
            Action::Done,
        ]
    );
}

#[test]
fn only_the_last_program_writes_to_the_session() {
    let line = "a | b x | c | d y z | e";
    let replies: Vec<Event<Handle>> = (1..=5).map(Event::Spawned).collect();
    let actions = drive(line, replies);
    assert_eq!(actions.len(), 7);
    for (i, action) in actions.iter().take(5).enumerate() {
        match action {
            Action::Spawn { stdin, stdout, .. } => {
                let expected_in = if i == 0 { Input::Inherit } else { Input::Pipe(i as Handle) };
                let expected_out = if i == 4 { Output::Inherit } else { Output::Piped };
                assert_eq!(*stdin, expected_in);
                assert_eq!(*stdout, expected_out);
            }
            other => panic!("{:?}", other),
        }
    }
    assert_eq!(actions[5], Action::Wait { handle: 5 });
    assert_eq!(actions[6], Action::Done);
}

#[test]
fn one_spawn_for_each_program_that_is_reached() {
    assert_eq!(spawns(&drive("a | b | c", vec![])), 3);
    assert_eq!(spawns(&drive("a | cd | c", vec![])), 2);
    assert_eq!(spawns(&drive("cd | cd x", vec![])), 0);
    assert_eq!(spawns(&drive("a | b | exit | c | d", vec![])), 2);
    assert_eq!(spawns(&drive("exit", vec![])), 0);
    assert_eq!(spawns(&drive("", vec![])), 1);
    assert_eq!(spawns(&drive("a | b", vec![failed("x"), failed("y")])), 2);
}

#[test]
fn the_handle_that_comes_in_goes_out_with_the_answer() {
    let lines = ["a", "a | b", "a | cd | b", "a | exit", "cd", "exit", ""];
    for line in lines {
        let stages = parse_line(line).len();
        for position in 0..=stages + 1 {
            for kind in 0..3 {
                let mut chain = Chain::new(parse_line(line));
                for _ in 0..position {
                    chain.step::<Handle>(Event::Proceed);
                }
                let event = match kind {
                    0 => Event::Proceed,
                    1 => Event::Spawned(42),
                    _ => failed("no"),
                };
                let came_in = handle_in(&event);
                let action = chain.step(event);
                assert_eq!(handle_out(&action), came_in, "{:?} at {}", line, position);
            }
        }
    }
}

#[test]
fn a_failure_is_reported_word_for_word() {
    let mut chain = Chain::new(parse_line("a | b"));
    assert_eq!(chain.step(failed("caf\u{e9}: \u{2603}")), report("caf\u{e9}: \u{2603}"));
    assert_eq!(chain.step(Event::Proceed), spawn("a", &[], Input::Inherit, Output::Piped));
}

#[test]
fn the_same_line_asks_for_the_same_each_time() {
    let first = drive("echo hi", vec![Event::Spawned(1)]);
    for _ in 0..5 {
        assert_eq!(drive("echo hi", vec![Event::Spawned(1)]), first);
    }
    assert_eq!(
        first,
        vec![spawn("echo", &["hi"], Input::Inherit, Output::Inherit), Action::Wait { handle: 1 }, Action::Done]
    );
}

#[test]
fn only_cd_asks_for_a_change_of_directory() {
    for line in ["ls", "ls | wc", "", "exit", "echo cd", "ls | exit | cd /tmp"] {
        let actions = drive(line, vec![]);
        assert!(!actions.iter().any(|a| matches!(a, Action::ChangeDir { .. })), "{:?}", line);
    }
    let actions = drive("cd a | cd b | ls", vec![]);
    assert_eq!(actions.iter().filter(|a| matches!(a, Action::ChangeDir { .. })).count(), 2);
}

#[test]
fn done_stays_done() {
    let mut chain = Chain::new(parse_line("ls"));
    assert_eq!(chain.step::<Handle>(Event::Proceed), spawn("ls", &[], Input::Inherit, Output::Inherit));
    assert_eq!(chain.step(Event::Spawned(9)), Action::Wait { handle: 9 });
    assert_eq!(chain.step::<Handle>(Event::Proceed), Action::Done);
    assert_eq!(chain.step::<Handle>(Event::Proceed), Action::Done);
    let mut chain = Chain::new(parse_line("exit | ls"));
    assert_eq!(chain.step::<Handle>(Event::Proceed), Action::Exit { released: None });
    assert_eq!(chain.step::<Handle>(Event::Proceed), Action::Done);
}

#[test]
fn the_only_wait_comes_just_before_the_end() {
    let lines = ["a", "a | b", "a | cd", "cd | a", "a | exit", "exit", "", "a | b | c", "cd"];
    for line in lines {
        let stages = parse_line(line).len();
        for pattern in 0..(1u32 << stages) {
            let replies: Vec<Event<Handle>> = (0..stages)
                .map(|i| if pattern >> i & 1 == 1 { Event::Spawned(i as Handle + 1) } else { failed("no") })
                .collect();
            let actions = drive(line, replies);
            let waits: Vec<usize> = actions
                .iter()
                .enumerate()
                .filter(|(_, a)| matches!(a, Action::Wait { .. }))
                .map(|(k, _)| k)
                .collect();
            assert!(waits.len() <= 1, "{:?}", line);
            for k in waits {
                assert_eq!(k + 2, actions.len());
                assert_eq!(actions[k + 1], Action::Done);
            }
            assert!(actions.len() <= 2 * stages + 1, "{:?}", line);
            let last = actions.len() - 1;
            for (k, action) in actions.iter().enumerate() {
                let ends = matches!(action, Action::Done | Action::Exit { .. });
                assert_eq!(ends, k == last, "{:?}", line);
            }
        }
    }
}

#[test]
fn one_report_for_each_failure() {
    let actions = drive("a | cd /x | b | c", vec![failed("1"), failed("2"), Event::Spawned(3), failed("4")]);
    let reports: Vec<&Action<Handle>> =
        actions.iter().filter(|a| matches!(a, Action::Report { .. })).collect();
    assert_eq!(reports, vec![&report("1"), &report("2"), &report("4")]);
    let actions = drive("a | exit | b", vec![failed("1"), failed("2"), failed("3")]);
    assert_eq!(
        actions,
        vec![spawn("a", &[], Input::Inherit, Output::Piped), report("1"), Action::Exit { released: None }]
    );
}
