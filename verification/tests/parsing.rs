use pipeline_shell::stage::{copy_texts, parse_line, Stage};
use pipeline_shell::text::{chars_of, is_whitespace, split_pipes, split_whitespace, trim};

fn stage(program: &str, args: &[&str]) -> Stage {
    Stage { program: program.to_string(), args: args.iter().map(|a| a.to_string()).collect() }
}

/// The same reading of a line, written with the standard library alone.
fn by_the_book(line: &str) -> Vec<Stage> {
    line.trim()
        .split(" | ")
        .map(|segment| {
            let mut parts = segment.trim().split_whitespace();
            let program = parts.next().unwrap_or("").to_string();
            Stage { program, args: parts.map(|a| a.to_string()).collect() }
        })
        .collect()
}

const LINES: &[&str] = &[
    "",
    " ",
    "\t\n",
    "ls",
    "  ls  ",
    "ls -l -a",
    "ls\t-l\u{a0}-a",
    "echo hello | wc -w",
    "echo hello |wc -w",
    "echo hello| wc -w",
    "echo hello|wc -w",
    "a | b | c",
    "a |  | b",
    "a | | b",
    " | ",
    " | | ",
    "| |",
    "a |",
    "| a",
    "ls | ",
    " | ls",
    "a  |  b",
    "a | b |",
    "cd",
    "cd /tmp",
    "cd /tmp /var",
    "exit",
    "exit | ls",
    "nonexistent_prog | echo fallback",
    "caf\u{e9} \u{3000}au\u{2003}lait | na\u{ef}ve",
    "\u{2028}x\u{2029}",
    "a\u{200b}b",
    "a\u{85}b | c\u{1680}d",
    "x | y | | | z | ",
];

#[test]
fn two_stages_are_read_in_order() {
    let stages = parse_line("echo hello | wc -w");
    assert_eq!(stages, vec![stage("echo", &["hello"]), stage("wc", &["-w"])]);
}

#[test]
fn blank_line_gives_one_stage_without_a_name() {
    assert_eq!(parse_line(""), vec![stage("", &[])]);
    assert_eq!(parse_line("   \t "), vec![stage("", &[])]);
    assert_eq!(parse_line("\u{3000}\u{a0}"), vec![stage("", &[])]);
}

#[test]
fn blank_segment_gives_a_stage_without_a_name() {
    assert_eq!(parse_line("a |  | b"), vec![stage("a", &[]), stage("", &[]), stage("b", &[])]);
}

#[test]
fn every_line_has_a_stage() {
    for line in LINES {
        assert!(parse_line(line).len() >= 1, "{:?}", line);
    }
}

#[test]
fn the_separator_needs_its_two_blanks() {
    assert_eq!(parse_line("a|b"), vec![stage("a|b", &[])]);
    assert_eq!(parse_line("a |b"), vec![stage("a", &["|b"])]);
    assert_eq!(parse_line("a| b"), vec![stage("a|", &["b"])]);
    assert_eq!(parse_line("a\t|\tb"), vec![stage("a", &["|", "b"])]);
}

#[test]
fn the_line_is_trimmed_before_it_is_cut() {
    assert_eq!(parse_line("ls | "), vec![stage("ls", &["|"])]);
    assert_eq!(parse_line(" | ls"), vec![stage("|", &["ls"])]);
    assert_eq!(parse_line(" | "), vec![stage("|", &[])]);
    assert_eq!(parse_line("x | "), by_the_book("x | "));
}

#[test]
fn separators_are_found_from_the_left() {
    assert_eq!(parse_line("a | | b"), vec![stage("a", &[]), stage("|", &["b"])]);
    assert_eq!(split_pipes("a | | b"), vec!["a".to_string(), "| b".to_string()]);
    assert_eq!(split_pipes(" | | "), vec!["".to_string(), "| ".to_string()]);
}

#[test]
fn tokens_are_kept_as_typed() {
    assert_eq!(
        parse_line("echo $HOME \"a b\" *.rs 'c'"),
        vec![stage("echo", &["$HOME", "\"a", "b\"", "*.rs", "'c'"])]
    );
}

#[test]
fn lines_are_read_as_the_standard_library_cuts_them() {
    for line in LINES {
        assert_eq!(parse_line(line), by_the_book(line), "{:?}", line);
    }
}

#[test]
fn whitespace_is_what_the_standard_library_calls_whitespace() {
    for n in 0u32..=0x10FFFF {
        if let Some(c) = char::from_u32(n) {
            assert_eq!(is_whitespace(c), c.is_whitespace(), "U+{:04X}", n);
        }
    }
}

#[test]
fn whitespace_by_name() {
    for c in [' ', '\t', '\n', '\r', '\u{b}', '\u{c}', '\u{85}', '\u{a0}', '\u{1680}', '\u{2000}',
        '\u{200a}', '\u{2028}', '\u{2029}', '\u{202f}', '\u{205f}', '\u{3000}']
    {
        assert!(is_whitespace(c), "U+{:04X}", c as u32);
    }
    for c in ['a', '|', '/', '\0', '\u{8}', '\u{e}', '\u{1f}', '\u{180e}', '\u{200b}', '\u{2060}',
        '\u{feff}', '\u{e9}']
    {
        assert!(!is_whitespace(c), "U+{:04X}", c as u32);
    }
}

#[test]
fn trimming_is_what_the_standard_library_does() {
    for line in LINES {
        assert_eq!(trim(line), line.trim(), "{:?}", line);
    }
    assert_eq!(trim("  a b  "), "a b");
    assert_eq!(trim("\u{3000}\u{e9}\u{a0}"), "\u{e9}");
    assert_eq!(trim(""), "");
    assert_eq!(trim(" \t "), "");
    assert_eq!(trim("x"), "x");
}

#[test]
fn words_are_what_the_standard_library_gives() {
    for line in LINES {
        let expected: Vec<String> = line.split_whitespace().map(|w| w.to_string()).collect();
        assert_eq!(split_whitespace(line), expected, "{:?}", line);
    }
    assert_eq!(split_whitespace("  a  bc\td "), vec!["a".to_string(), "bc".to_string(), "d".to_string()]);
    assert!(split_whitespace("").is_empty());
    assert!(split_whitespace(" \n ").is_empty());
}

#[test]
fn words_are_never_empty_and_hold_no_whitespace() {
    for line in LINES {
        for word in split_whitespace(line) {
            assert!(!word.is_empty());
            assert!(!word.chars().any(is_whitespace));
        }
    }
}

#[test]
fn segments_are_what_the_standard_library_gives() {
    for line in LINES {
        let expected: Vec<String> = line.split(" | ").map(|w| w.to_string()).collect();
        assert_eq!(split_pipes(line), expected, "{:?}", line);
    }
    assert_eq!(split_pipes(""), vec!["".to_string()]);
    assert_eq!(split_pipes("a | b"), vec!["a".to_string(), "b".to_string()]);
    assert_eq!(split_pipes(" | "), vec!["".to_string(), "".to_string()]);
}

#[test]
fn segments_joined_again_give_the_line() {
    for line in LINES {
        assert_eq!(split_pipes(line).join(" | "), *line);
    }
}

#[test]
fn characters_come_one_by_one() {
    assert_eq!(chars_of("a\u{e9}\u{3000}|"), vec!['a', '\u{e9}', '\u{3000}', '|']);
    assert!(chars_of("").is_empty());
}

#[test]
fn a_stage_is_read_from_its_segment() {
    assert_eq!(Stage::parse("  wc  -w  -l "), stage("wc", &["-w", "-l"]));
    assert_eq!(Stage::parse(""), stage("", &[]));
    assert_eq!(Stage::parse(" \t"), stage("", &[]));
    assert_eq!(Stage::parse("ls"), stage("ls", &[]));
}

#[test]
fn a_copy_equals_what_it_was_made_from() {
    let first = stage("grep", &["-r", "na\u{ef}ve", "."]);
    assert_eq!(first.clone(), first);
    assert_eq!(copy_texts(&first.args), first.args);
    assert!(copy_texts(&Vec::new()).is_empty());
}
