use rusty_shell::command::CommandOutput;
use rusty_shell::command::RedirectCode;
use rusty_shell::command::Redirection;
use rusty_shell::executor::Executor;
use rusty_shell::executor::WriteAction;

fn output(success: Option<&str>, error: Option<&str>) -> CommandOutput {
    CommandOutput {
        success: success.map(|s| s.to_string()),
        error: error.map(|s| s.to_string()),
    }
}

#[test]
fn route_truncate_stdout_writes_only_the_file() {
    let acts = Executor::process_output(
        output(Some("hi\n"), None),
        Some(Redirection::OutputTruncate(RedirectCode::One, "f".to_string())),
    );
    assert_eq!(
        acts,
        vec![
            WriteAction::TruncateFile("f".to_string()),
            WriteAction::AppendFile("f".to_string(), "hi\n".to_string()),
        ]
    );
}

#[test]
fn route_without_redirection_writes_only_stdout() {
    let acts = Executor::process_output(output(Some("hi\n"), None), None);
    assert_eq!(acts, vec![WriteAction::Stdout("hi\n".to_string())]);
}

#[test]
fn route_without_redirection_writes_both_streams() {
    let acts = Executor::process_output(output(Some("ok\n"), Some("bad\n")), None);
    assert_eq!(
        acts,
        vec![
            WriteAction::Stdout("ok\n".to_string()),
            WriteAction::Stderr("bad\n".to_string()),
        ]
    );
}

#[test]
fn route_truncate_stderr_sends_success_to_console() {
    let acts = Executor::process_output(
        output(Some("ok\n"), Some("bad\n")),
        Some(Redirection::OutputTruncate(RedirectCode::Two, "e".to_string())),
    );
    assert_eq!(
        acts,
        vec![
            WriteAction::TruncateFile("e".to_string()),
            WriteAction::AppendFile("e".to_string(), "bad\n".to_string()),
            WriteAction::Stdout("ok\n".to_string()),
        ]
    );
}

#[test]
fn route_truncate_empties_file_even_without_payload() {
    // the create/truncate step is unconditional
    let acts = Executor::process_output(
        output(None, None),
        Some(Redirection::OutputTruncate(RedirectCode::One, "f".to_string())),
    );
    assert_eq!(acts, vec![WriteAction::TruncateFile("f".to_string())]);
}

#[test]
fn route_input_redirection_passes_through() {
    // input redirection has no executor-side implementation: both payloads
    // go to the interpreter's own streams and no file is touched
    let acts = Executor::process_output(
        output(Some("ok\n"), Some("bad\n")),
        Some(Redirection::Input("data.txt".to_string())),
    );
    assert_eq!(
        acts,
        vec![
            WriteAction::Stdout("ok\n".to_string()),
            WriteAction::Stderr("bad\n".to_string()),
        ]
    );
}

#[test]
fn route_append_stdout() {
    let acts = Executor::process_output(
        output(Some("more\n"), Some("bad\n")),
        Some(Redirection::OutputAppend(RedirectCode::One, "log".to_string())),
    );
    assert_eq!(
        acts,
        vec![
            WriteAction::EnsureFile("log".to_string()),
            WriteAction::AppendFile("log".to_string(), "more\n".to_string()),
            WriteAction::Stderr("bad\n".to_string()),
        ]
    );
}

#[test]
fn route_append_stderr_without_error_still_creates_file() {
    let acts = Executor::process_output(
        output(Some("ok\n"), None),
        Some(Redirection::OutputAppend(RedirectCode::Two, "log".to_string())),
    );
    assert_eq!(
        acts,
        vec![
            WriteAction::EnsureFile("log".to_string()),
            WriteAction::Stdout("ok\n".to_string()),
        ]
    );
}
