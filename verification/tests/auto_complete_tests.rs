use rusty_shell::auto_complete::AutoCompleter;

#[test]
fn completes_known_commands_by_prefix() {
    let ac = AutoCompleter::new();
    assert_eq!(ac.matching_commands("e"), vec!["echo", "exit"]);
    assert_eq!(ac.matching_commands("ec"), vec!["echo"]);
    assert_eq!(ac.matching_commands("ex"), vec!["exit"]);
}

#[test]
fn empty_prefix_matches_everything() {
    let ac = AutoCompleter::new();
    assert_eq!(ac.matching_commands(""), vec!["echo", "exit"]);
}

#[test]
fn unknown_prefix_matches_nothing() {
    let ac = AutoCompleter::new();
    assert_eq!(ac.matching_commands("x"), Vec::<String>::new());
    assert_eq!(ac.matching_commands("echoo"), Vec::<String>::new());
}
