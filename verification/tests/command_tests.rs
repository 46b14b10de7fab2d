use rusty_shell::command::capture_output;
use rusty_shell::command::cd_target;
use rusty_shell::command::finish_cd;
use rusty_shell::command::get_type;
use rusty_shell::command::is_builtin;
use rusty_shell::command::is_executable;
use rusty_shell::command::parse_i32;
use rusty_shell::command::plan_external;
use rusty_shell::command::run_echo;
use rusty_shell::command::run_exit;
use rusty_shell::command::run_pwd;
use rusty_shell::command::search_candidates;
use rusty_shell::command::search_in_path;
use rusty_shell::command::Command;
use rusty_shell::command::CommandOutput;
use rusty_shell::command::Dispatch;
use rusty_shell::command::ExternalPlan;
use rusty_shell::command::OutputType;
use rusty_shell::command::SearchPurpose;
use rusty_shell::command::ShellState;

fn state() -> ShellState {
    ShellState {
        cwd: Some("/work".to_string()),
        home: Some("/home/me".to_string()),
        path: "/usr/bin:/bin".to_string(),
    }
}

fn command(program: &str, args: &[&str]) -> Command {
    Command {
        program: program.to_string(),
        args: args.iter().map(|a| a.to_string()).collect(),
        redirection: None,
    }
}

#[test]
fn type_of_builtin() {
    let d = command("type", &["cd"]).execute(&state());
    assert_eq!(
        d,
        Dispatch::Done(OutputType::Success(Some("cd is a shell builtin\n".to_string())))
    );
}

#[test]
fn type_of_unknown_name() {
    let d = command("type", &["nonexistent_xyz"]).execute(&state());
    match d {
        Dispatch::Search { name, candidates, purpose } => {
            assert_eq!(name, "nonexistent_xyz");
            assert_eq!(candidates, vec!["/usr/bin/nonexistent_xyz", "/bin/nonexistent_xyz"]);
            assert_eq!(purpose, SearchPurpose::TypeQuery);
            let found = search_in_path(&candidates, &vec![false, false]);
            assert_eq!(found, None);
            let answer = get_type(&name, &found);
            assert_eq!(
                answer,
                OutputType::Error(Some("nonexistent_xyz: not found\n".to_string()))
            );
        }
        other => panic!("expected a search, got {:?}", other),
    }
}

#[test]
fn type_found_on_path() {
    let answer = get_type(&"ls".to_string(), &Some("/bin/ls".to_string()));
    assert_eq!(answer, OutputType::Success(Some("ls is /bin/ls\n".to_string())));
}

#[test]
fn type_without_argument_is_diagnosed() {
    let d = command("type", &[]).execute(&state());
    assert_eq!(
        d,
        Dispatch::Done(OutputType::Error(Some("type: missing argument\n".to_string())))
    );
}

#[test]
fn echo_joins_arguments() {
    let r = run_echo(&vec!["hello".to_string(), "world".to_string()]);
    assert_eq!(r, OutputType::Success(Some("hello world\n".to_string())));
}

#[test]
fn echo_without_arguments_is_a_newline() {
    assert_eq!(run_echo(&vec![]), OutputType::Success(Some("\n".to_string())));
}

#[test]
fn echo_through_dispatch() {
    let d = command("echo", &["a", "b"]).execute(&state());
    assert_eq!(d, Dispatch::Done(OutputType::Success(Some("a b\n".to_string()))));
}

#[test]
fn pwd_reports_context_directory() {
    let r = run_pwd(&state());
    assert_eq!(r, OutputType::Success(Some("/work\n".to_string())));
}

#[test]
fn pwd_reports_query_failure() {
    let mut st = state();
    st.cwd = None;
    let r = run_pwd(&st);
    assert_eq!(
        r,
        OutputType::Error(Some("Error getting current directory\n".to_string()))
    );
    let d = command("pwd", &[]).execute(&st);
    assert_eq!(
        d,
        Dispatch::Done(OutputType::Error(Some(
            "Error getting current directory\n".to_string()
        )))
    );
}

#[test]
fn exit_codes() {
    assert_eq!(run_exit(&vec![]), 1);
    assert_eq!(run_exit(&vec!["5".to_string()]), 5);
    assert_eq!(run_exit(&vec!["-3".to_string()]), -3);
    assert_eq!(run_exit(&vec!["+7".to_string()]), 7);
    assert_eq!(run_exit(&vec!["notanumber".to_string()]), 1);
    assert_eq!(run_exit(&vec!["".to_string()]), 1);
    assert_eq!(run_exit(&vec!["2147483647".to_string()]), 2147483647);
    assert_eq!(run_exit(&vec!["-2147483648".to_string()]), -2147483648);
    assert_eq!(run_exit(&vec!["2147483648".to_string()]), 1);
    assert_eq!(run_exit(&vec!["99999999999999999999".to_string()]), 1);
}

#[test]
fn exit_through_dispatch() {
    let d = command("exit", &["42"]).execute(&state());
    assert_eq!(d, Dispatch::Terminate(42));
}

#[test]
fn parse_i32_accepts_plain_decimals() {
    assert_eq!(parse_i32("0"), Some(0));
    assert_eq!(parse_i32("007"), Some(7));
    assert_eq!(parse_i32("-0000000000000000001"), Some(-1));
}

#[test]
fn parse_i32_rejects_junk() {
    assert_eq!(parse_i32(""), None);
    assert_eq!(parse_i32("+"), None);
    assert_eq!(parse_i32("-"), None);
    assert_eq!(parse_i32("12a"), None);
    assert_eq!(parse_i32(" 12"), None);
    assert_eq!(parse_i32("1 2"), None);
}

#[test]
fn cd_target_resolution() {
    let home = Some("/home/me".to_string());
    assert_eq!(cd_target(&vec![], &home), "/home/me");
    assert_eq!(cd_target(&vec!["~".to_string()], &home), "/home/me");
    assert_eq!(cd_target(&vec![], &None), "/");
    assert_eq!(cd_target(&vec!["/etc".to_string()], &home), "/etc");
}

#[test]
fn cd_failure_keeps_directory_and_names_target() {
    let mut st = state();
    let before = st.clone();
    let r = finish_cd(&mut st, &"/no/such/dir".to_string(), None);
    assert_eq!(st, before);
    assert_eq!(
        r,
        OutputType::Error(Some("cd: /no/such/dir: No such file or directory\n".to_string()))
    );
}

#[test]
fn cd_success_updates_directory_and_emits_nothing() {
    let mut st = state();
    let r = finish_cd(&mut st, &"/etc".to_string(), Some("/etc".to_string()));
    assert_eq!(st.cwd, Some("/etc".to_string()));
    assert_eq!(st.home, state().home);
    assert_eq!(r, OutputType::Success(None));
    let out = r.into_output();
    assert_eq!(out, CommandOutput { success: None, error: None });
}

#[test]
fn cd_through_dispatch() {
    let d = command("cd", &["~"]).execute(&state());
    assert_eq!(d, Dispatch::Chdir("/home/me".to_string()));
}

#[test]
fn search_candidates_follow_path_order() {
    assert_eq!(
        search_candidates("ls", "/usr/bin:/bin"),
        vec!["/usr/bin/ls", "/bin/ls"]
    );
    assert_eq!(search_candidates("ls", ""), vec!["/ls"]);
    assert_eq!(search_candidates("x", "a::b"), vec!["a/x", "/x", "b/x"]);
}

#[test]
fn search_first_match_wins() {
    let cands = vec!["/a/x".to_string(), "/b/x".to_string(), "/c/x".to_string()];
    assert_eq!(
        search_in_path(&cands, &vec![false, true, true]),
        Some("/b/x".to_string())
    );
    assert_eq!(search_in_path(&cands, &vec![false, false, false]), None);
    assert_eq!(search_in_path(&vec![], &vec![]), None);
}

#[test]
fn unknown_program_becomes_run_search() {
    let d = command("frobnicate", &["-v"]).execute(&state());
    match d {
        Dispatch::Search { name, candidates, purpose } => {
            assert_eq!(name, "frobnicate");
            assert_eq!(candidates, vec!["/usr/bin/frobnicate", "/bin/frobnicate"]);
            assert_eq!(purpose, SearchPurpose::Run);
        }
        other => panic!("expected a search, got {:?}", other),
    }
}

#[test]
fn external_not_found_message() {
    let plan = plan_external(&"frobnicate".to_string(), &vec![], None);
    assert_eq!(
        plan,
        ExternalPlan::NotFound(OutputType::Error(Some(
            "frobnicate: command not found\n".to_string()
        )))
    );
}

#[test]
fn external_spawn_keeps_invoked_name() {
    let plan = plan_external(
        &"ls".to_string(),
        &vec!["-l".to_string()],
        Some("/bin/ls".to_string()),
    );
    match plan {
        ExternalPlan::Spawn(req) => {
            assert_eq!(req.path, "/bin/ls");
            assert_eq!(req.argv0, "ls");
            assert_eq!(req.args, vec!["-l"]);
        }
        other => panic!("expected a spawn, got {:?}", other),
    }
}

#[test]
fn captured_streams_keep_content_and_drop_empties() {
    assert_eq!(
        capture_output("out\n".to_string(), "".to_string()),
        CommandOutput { success: Some("out\n".to_string()), error: None }
    );
    assert_eq!(
        capture_output("".to_string(), "bad\n".to_string()),
        CommandOutput { success: None, error: Some("bad\n".to_string()) }
    );
    assert_eq!(
        capture_output("a".to_string(), "b".to_string()),
        CommandOutput { success: Some("a".to_string()), error: Some("b".to_string()) }
    );
}

#[test]
fn execute_bit_test() {
    assert!(is_executable(0o755));
    assert!(is_executable(0o100));
    assert!(is_executable(0o010));
    assert!(is_executable(0o001));
    assert!(!is_executable(0o644));
    assert!(!is_executable(0o000));
    assert!(!is_executable(0o666));
}

#[test]
fn builtin_set_is_exact() {
    assert!(is_builtin("exit"));
    assert!(is_builtin("echo"));
    assert!(is_builtin("type"));
    assert!(is_builtin("pwd"));
    assert!(is_builtin("cd"));
    assert!(!is_builtin("ls"));
    assert!(!is_builtin("ECHO"));
    assert!(!is_builtin(""));
}
