use pipeline_shell::prompt::{bold, green, plain, shown};
use pipeline_shell::session::{on_read, Directive, Outcome};
use pipeline_shell::stage::Stage;

#[test]
fn a_line_is_remembered_and_run() {
    let directive = on_read(Outcome::Line("  echo hello | wc -w ".to_string()));
    assert_eq!(
        directive,
        Directive::Run {
            entry: "  echo hello | wc -w ".to_string(),
            stages: vec![
                Stage { program: "echo".to_string(), args: vec!["hello".to_string()] },
                Stage { program: "wc".to_string(), args: vec!["-w".to_string()] },
            ],
        }
    );
}

#[test]
fn an_empty_line_is_run_too() {
    assert_eq!(
        on_read(Outcome::Line(String::new())),
        Directive::Run {
            entry: String::new(),
            stages: vec![Stage { program: String::new(), args: Vec::new() }],
        }
    );
}

#[test]
fn interrupt_and_end_of_input_end_the_loop_quietly() {
    assert_eq!(on_read(Outcome::Interrupted), Directive::Quit { notice: None });
    assert_eq!(on_read(Outcome::EndOfInput), Directive::Quit { notice: None });
}

#[test]
fn an_error_ends_the_loop_with_a_notice() {
    assert_eq!(
        on_read(Outcome::Error("Io(Custom { kind: Other })".to_string())),
        Directive::Quit { notice: Some("Error: Io(Custom { kind: Other })".to_string()) }
    );
    assert_eq!(
        on_read(Outcome::Error(String::new())),
        Directive::Quit { notice: Some("Error: ".to_string()) }
    );
}

#[test]
fn the_prompt() {
    assert_eq!(plain(), "> ");
    assert_eq!(green("> "), "\x1b[1;32m> \x1b[0m");
    assert_eq!(green(""), "\x1b[1;32m\x1b[0m");
    assert_eq!(bold("ls -l"), "\x1b[1mls -l\x1b[m");
}

#[test]
fn the_colored_prompt_is_for_the_default_prompt_only() {
    assert_eq!(shown("green", "> ", true), "green");
    assert_eq!(shown("green", "? ", false), "? ");
}
