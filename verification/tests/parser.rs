use rshell::cmd::{parse_line, ParseError, ShellCommand};
use rshell::prompt::build_prompt;
use rshell::text::{same_text, starts_with, to_chars, whitespace};

fn command(name: &str, arguments: &[&str]) -> ShellCommand {
    ShellCommand {
        name: name.to_string(),
        arguments: arguments.iter().map(|a| a.to_string()).collect(),
    }
}

#[test]
fn new_splits_name_and_arguments() {
    let parsed = ShellCommand::new("ls -la /tmp".to_string());
    assert_eq!(parsed, Ok(command("ls", &["-la", "/tmp"])));
}

#[test]
fn new_takes_a_lone_name() {
    let parsed = ShellCommand::new("pwd".to_string());
    assert_eq!(parsed, Ok(command("pwd", &[])));
}

#[test]
fn new_ignores_surrounding_and_repeated_white_space() {
    let parsed = ShellCommand::new("  \t echo   hello \t world \n".to_string());
    assert_eq!(parsed, Ok(command("echo", &["hello", "world"])));
}

#[test]
fn new_takes_arguments_verbatim() {
    let parsed = ShellCommand::new("echo \"a b\" $HOME *.rs".to_string());
    assert_eq!(parsed, Ok(command("echo", &["\"a", "b\"", "$HOME", "*.rs"])));
}

#[test]
fn new_splits_at_white_space_beyond_ascii() {
    let parsed = ShellCommand::new("echo\u{3000}a\u{a0}b\u{2003}c\u{85}d".to_string());
    assert_eq!(parsed, Ok(command("echo", &["a", "b", "c", "d"])));
}

#[test]
fn new_keeps_characters_that_only_look_like_spaces() {
    let parsed = ShellCommand::new("a\u{200b}b \u{feff}c".to_string());
    assert_eq!(parsed, Ok(command("a\u{200b}b", &["\u{feff}c"])));
}

#[test]
fn new_keeps_characters_of_several_bytes() {
    let parsed = ShellCommand::new("écho héllo wörld".to_string());
    assert_eq!(parsed, Ok(command("écho", &["héllo", "wörld"])));
}

#[test]
fn new_refuses_an_empty_segment() {
    let parsed = ShellCommand::new(String::new());
    assert_eq!(parsed, Err(ParseError::EmptyCommand { segment: 0 }));
}

#[test]
fn new_refuses_a_blank_segment() {
    let parsed = ShellCommand::new(" \t \u{3000} ".to_string());
    assert_eq!(parsed, Err(ParseError::EmptyCommand { segment: 0 }));
}

#[test]
fn default_command_is_empty() {
    let command = ShellCommand::default();
    assert_eq!(command.name, "");
    assert!(command.arguments.is_empty());
}

#[test]
fn parse_line_of_one_command() {
    assert_eq!(parse_line("ls -l"), Ok(vec![command("ls", &["-l"])]));
}

#[test]
fn parse_line_of_three_stages() {
    let parsed = parse_line("printf a | cat | cat");
    assert_eq!(
        parsed,
        Ok(vec![command("printf", &["a"]), command("cat", &[]), command("cat", &[])])
    );
}

#[test]
fn parse_line_needs_no_space_around_the_pipe() {
    let parsed = parse_line("ls|wc -l");
    assert_eq!(parsed, Ok(vec![command("ls", &[]), command("wc", &["-l"])]));
}

#[test]
fn parse_line_has_one_command_for_each_segment() {
    let parsed = parse_line("a | b c | d | e f g").unwrap();
    assert_eq!(parsed.len(), 4);
    assert_eq!(parsed[3], command("e", &["f", "g"]));
}

#[test]
fn parse_line_refuses_an_empty_line() {
    assert_eq!(parse_line(""), Err(ParseError::EmptyCommand { segment: 0 }));
}

#[test]
fn parse_line_refuses_a_blank_line() {
    assert_eq!(parse_line("   \t"), Err(ParseError::EmptyCommand { segment: 0 }));
}

#[test]
fn parse_line_refuses_a_trailing_pipe() {
    assert_eq!(parse_line("ls |"), Err(ParseError::EmptyCommand { segment: 1 }));
}

#[test]
fn parse_line_refuses_a_leading_pipe() {
    assert_eq!(parse_line("| ls"), Err(ParseError::EmptyCommand { segment: 0 }));
}

#[test]
fn parse_line_names_the_first_empty_segment() {
    assert_eq!(parse_line("ls | wc || cat | "), Err(ParseError::EmptyCommand { segment: 2 }));
}

#[test]
fn parse_line_refuses_a_lone_pipe() {
    assert_eq!(parse_line("|"), Err(ParseError::EmptyCommand { segment: 0 }));
}

#[test]
fn parse_error_has_a_message() {
    let error = ParseError::EmptyCommand { segment: 3 };
    assert_eq!(error.message(), "empty command in pipeline");
}

#[test]
fn whitespace_knows_the_separators() {
    for c in [' ', '\t', '\n', '\u{b}', '\u{c}', '\r', '\u{85}', '\u{a0}', '\u{1680}'] {
        assert!(whitespace(c));
    }
    for c in ['\u{2000}', '\u{200a}', '\u{2028}', '\u{2029}', '\u{202f}', '\u{205f}', '\u{3000}'] {
        assert!(whitespace(c));
    }
    for c in ['a', '|', '/', '\u{8}', '\u{e}', '\u{1f}', '\u{200b}', '\u{180e}', '\u{feff}'] {
        assert!(!whitespace(c));
    }
}

#[test]
fn whitespace_agrees_with_the_standard_library() {
    let mut n: u32 = 0;
    while n <= 0x11000 {
        if let Some(c) = char::from_u32(n) {
            assert_eq!(whitespace(c), c.is_whitespace());
        }
        n += 1;
    }
}

#[test]
fn to_chars_lists_the_characters() {
    assert_eq!(to_chars("héllo"), vec!['h', 'é', 'l', 'l', 'o']);
    assert_eq!(to_chars(""), Vec::<char>::new());
}

#[test]
fn starts_with_compares_the_beginning() {
    let text = to_chars("exit");
    assert!(starts_with(&text, &to_chars("")));
    assert!(starts_with(&text, &to_chars("ex")));
    assert!(starts_with(&text, &to_chars("exit")));
    assert!(!starts_with(&text, &to_chars("exits")));
    assert!(!starts_with(&text, &to_chars("xi")));
}

#[test]
fn same_text_compares_all_of_it() {
    assert!(same_text("cd", "cd"));
    assert!(same_text("", ""));
    assert!(!same_text("cd", "cd "));
    assert!(!same_text("cd", "ce"));
    assert!(!same_text("cd", "c"));
}

#[test]
fn build_prompt_appends_the_decoration() {
    assert_eq!(build_prompt("/home/user", " >> "), "/home/user >> ");
    assert_eq!(build_prompt("/", ""), "/");
}
