use shell::{parse_command_line, parse_input, tokenize_input, ParseError};

fn strings(v: &[&str]) -> Vec<String> {
    v.iter().map(|s| s.to_string()).collect()
}

#[test]
fn tokenize_quotes_and_escapes() {
    let tokens = tokenize_input("echo 'a b' \"c\\\"d\" e\\ f");
    assert_eq!(tokens, strings(&["echo", "a b", "c\"d", "e f"]));
}

#[test]
fn tokenize_joins_adjacent_fragments() {
    assert_eq!(tokenize_input("a\"b c\"d"), strings(&["ab cd"]));
}

#[test]
fn tokenize_collapses_whitespace() {
    assert_eq!(tokenize_input("  ls \t  -l   "), strings(&["ls", "-l"]));
}

#[test]
fn tokenize_backslash_inside_single_quotes_is_literal() {
    assert_eq!(tokenize_input("'a\\b'"), strings(&["a\\b"]));
}

#[test]
fn tokenize_backslash_in_double_quotes() {
    assert_eq!(tokenize_input("\"a\\nb\""), strings(&["a\\nb"]));
    assert_eq!(tokenize_input("\"a\\\\b\""), strings(&["a\\b"]));
}

#[test]
fn tokenize_keeps_open_quote_token() {
    assert_eq!(tokenize_input("echo \"abc"), strings(&["echo", "abc"]));
}

#[test]
fn tokenize_quoted_empty_and_pipe() {
    assert_eq!(tokenize_input("a '' b"), strings(&["a", "b"]));
    assert_eq!(tokenize_input("a|b"), strings(&["a|b"]));
}

#[test]
fn parse_redirections() {
    let stages = parse_input("cmd a b > out.txt 2>> err.txt").unwrap();
    assert_eq!(stages.len(), 1);
    let s = &stages[0];
    assert_eq!(s.command, "cmd");
    assert_eq!(s.args, strings(&["a", "b"]));
    assert_eq!(s.stdout_redirect.as_deref(), Some("out.txt"));
    assert!(!s.stdout_redirect_append);
    assert_eq!(s.stderr_redirect.as_deref(), Some("err.txt"));
    assert!(s.stderr_redirect_append);
}

#[test]
fn parse_all_redirect_operators() {
    let s = &parse_input("c 1> a 2> b").unwrap()[0];
    assert_eq!(s.stdout_redirect.as_deref(), Some("a"));
    assert!(!s.stdout_redirect_append);
    assert_eq!(s.stderr_redirect.as_deref(), Some("b"));
    assert!(!s.stderr_redirect_append);
    let s = &parse_input("c 1>> a >> b").unwrap()[0];
    assert_eq!(s.stdout_redirect.as_deref(), Some("b"));
    assert!(s.stdout_redirect_append);
    assert!(s.args.is_empty());
}

#[test]
fn parse_three_stages_in_order() {
    let stages = parse_input("a | b | c").unwrap();
    let names: Vec<&str> = stages.iter().map(|s| s.command.as_str()).collect();
    assert_eq!(names, vec!["a", "b", "c"]);
    assert!(stages.iter().all(|s| s.args.is_empty()));
}

#[test]
fn parse_missing_redirect_target() {
    assert!(matches!(parse_input("echo hi >"), Err(ParseError::MissingRedirectTarget)));
    assert!(matches!(parse_input("echo hi 2>> | cat"), Err(ParseError::MissingRedirectTarget)));
    assert!(matches!(parse_command_line("ls 2>"), Err(ParseError::MissingRedirectTarget)));
}

#[test]
fn parse_empty_stage() {
    assert!(matches!(parse_input("a | | b"), Err(ParseError::EmptyStage)));
    assert!(matches!(parse_input("a |"), Err(ParseError::EmptyStage)));
    assert_eq!(
        ParseError::EmptyStage.message(),
        "Syntax error: empty command in pipeline"
    );
}

#[test]
fn parse_blank_lines_give_no_pipeline() {
    assert_eq!(parse_input("").unwrap().len(), 0);
    assert_eq!(parse_input("   \t  ").unwrap().len(), 0);
    assert_eq!(parse_command_line("  ").unwrap().len(), 0);
}

#[test]
fn parse_command_line_cuts_at_pipes() {
    let stages = parse_command_line("a | b | c").unwrap();
    let names: Vec<&str> = stages.iter().map(|s| s.command.as_str()).collect();
    assert_eq!(names, vec!["a", "b", "c"]);
    assert!(stages.iter().all(|s| s.args.is_empty() && s.stdout_redirect.is_none()));
    let stages = parse_command_line("a > x | b y").unwrap();
    assert_eq!(stages.len(), 2);
    assert!(stages[0].args.is_empty());
    assert_eq!(stages[0].stdout_redirect.as_deref(), Some("x"));
    assert!(!stages[0].stdout_redirect_append);
    assert_eq!(stages[1].command, "b");
    assert_eq!(stages[1].args, strings(&["y"]));
    assert!(matches!(parse_command_line("a > | b"), Err(ParseError::MissingRedirectTarget)));
}
