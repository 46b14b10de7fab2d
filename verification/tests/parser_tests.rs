use rusty_shell::command::Command;
use rusty_shell::command::RedirectCode;
use rusty_shell::command::Redirection;
use rusty_shell::parser::ExecMode;
use rusty_shell::parser::Parser;
use rusty_shell::tokenizer::Tokenizer;

fn cmd(program: &str, args: &[&str], redirection: Option<Redirection>) -> Command {
    Command {
        program: program.to_string(),
        args: args.iter().map(|a| a.to_string()).collect(),
        redirection,
    }
}

#[test]
fn parse_two_stage_pipeline() {
    let line = Parser::parse(Tokenizer::tokenize("echo a | echo b"));
    assert_eq!(
        line.pipeline.commands,
        vec![cmd("echo", &["a"], None), cmd("echo", &["b"], None)]
    );
    assert_eq!(line.mode, ExecMode::Foreground);
}

#[test]
fn parse_truncating_redirection() {
    let line = Parser::parse(Tokenizer::tokenize("ls > out.txt"));
    assert_eq!(
        line.pipeline.commands,
        vec![cmd(
            "ls",
            &[],
            Some(Redirection::OutputTruncate(
                RedirectCode::One,
                "out.txt".to_string()
            ))
        )]
    );
}

#[test]
fn parse_last_redirection_wins() {
    // each command carries at most one redirection: the second `>>` target
    // overwrites the first, and the lone `2` is an ordinary argument
    let line = Parser::parse(Tokenizer::tokenize("cat >> out.txt 2>> err.txt"));
    assert_eq!(
        line.pipeline.commands,
        vec![cmd(
            "cat",
            &["2"],
            Some(Redirection::OutputAppend(
                RedirectCode::One,
                "err.txt".to_string()
            ))
        )]
    );
}

#[test]
fn parse_blank_line_is_empty_pipeline() {
    let line = Parser::parse(Tokenizer::tokenize(""));
    assert_eq!(line.pipeline.commands, vec![]);
    assert_eq!(line.mode, ExecMode::Foreground);
}

#[test]
fn parse_ampersand_sets_background() {
    let line = Parser::parse(Tokenizer::tokenize("sleep 10 &"));
    assert_eq!(line.pipeline.commands, vec![cmd("sleep", &["10"], None)]);
    assert_eq!(line.mode, ExecMode::Background);
}

#[test]
fn parse_pipe_without_program_is_dropped() {
    let line = Parser::parse(Tokenizer::tokenize("| echo hi"));
    assert_eq!(line.pipeline.commands, vec![cmd("echo", &["hi"], None)]);
}

#[test]
fn parse_redirection_without_target_is_ignored() {
    let line = Parser::parse(Tokenizer::tokenize("ls >"));
    assert_eq!(line.pipeline.commands, vec![cmd("ls", &[], None)]);
}

#[test]
fn parse_dangling_redirection_keeps_following_pipe() {
    // the redirection token alone is ignored; the pipe still finalizes `a`
    let line = Parser::parse(Tokenizer::tokenize("a > | b"));
    assert_eq!(
        line.pipeline.commands,
        vec![cmd("a", &[], None), cmd("b", &[], None)]
    );
}

#[test]
fn parse_dangling_redirection_keeps_following_ampersand() {
    let line = Parser::parse(Tokenizer::tokenize("x > &"));
    assert_eq!(line.pipeline.commands, vec![cmd("x", &[], None)]);
    assert_eq!(line.mode, ExecMode::Background);
}

#[test]
fn parse_input_redirection() {
    let line = Parser::parse(Tokenizer::tokenize("sort < data.txt"));
    assert_eq!(
        line.pipeline.commands,
        vec![cmd(
            "sort",
            &[],
            Some(Redirection::Input("data.txt".to_string()))
        )]
    );
}

#[test]
fn parse_redirection_before_program() {
    let line = Parser::parse(Tokenizer::tokenize("> f echo hi"));
    assert_eq!(
        line.pipeline.commands,
        vec![cmd(
            "echo",
            &["hi"],
            Some(Redirection::OutputTruncate(
                RedirectCode::One,
                "f".to_string()
            ))
        )]
    );
}

#[test]
fn parse_redirection_resets_at_pipe() {
    let line = Parser::parse(Tokenizer::tokenize("a > f | b"));
    assert_eq!(
        line.pipeline.commands,
        vec![
            cmd(
                "a",
                &[],
                Some(Redirection::OutputTruncate(
                    RedirectCode::One,
                    "f".to_string()
                ))
            ),
            cmd("b", &[], None),
        ]
    );
}

#[test]
fn parse_three_stage_pipeline_keeps_order() {
    let line = Parser::parse(Tokenizer::tokenize("a 1 | b 2 | c 3"));
    assert_eq!(
        line.pipeline.commands,
        vec![
            cmd("a", &["1"], None),
            cmd("b", &["2"], None),
            cmd("c", &["3"], None),
        ]
    );
}
