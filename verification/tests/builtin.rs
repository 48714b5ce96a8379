use shell_core::builtin::ShellCommand;

#[test]
fn every_builtin_is_found_under_its_name() {
    assert_eq!(ShellCommand::from_str("echo"), Some(ShellCommand::Echo));
    assert_eq!(ShellCommand::from_str("type"), Some(ShellCommand::Type));
    assert_eq!(ShellCommand::from_str("exit"), Some(ShellCommand::Exit));
    assert_eq!(ShellCommand::from_str("pwd"), Some(ShellCommand::Pwd));
    assert_eq!(ShellCommand::from_str("cd"), Some(ShellCommand::Cd));
}

#[test]
fn names_are_matched_exactly() {
    assert_eq!(ShellCommand::from_str("echos"), None);
    assert_eq!(ShellCommand::from_str("ech"), None);
    assert_eq!(ShellCommand::from_str(""), None);
    assert_eq!(ShellCommand::from_str("ls"), None);
    assert_eq!(ShellCommand::from_str("echo hello"), None);
    assert_eq!(ShellCommand::from_str("c d"), None);
}

#[test]
fn another_case_is_no_builtin() {
    assert_eq!(ShellCommand::from_str("ECHO"), None);
    assert_eq!(ShellCommand::from_str("Echo"), None);
    assert_eq!(ShellCommand::from_str("Type"), None);
    assert_eq!(ShellCommand::from_str("eXiT"), None);
    assert_eq!(ShellCommand::from_str("PWD"), None);
    assert_eq!(ShellCommand::from_str("Cd"), None);
}

#[test]
fn white_space_around_a_name_is_no_builtin() {
    assert_eq!(ShellCommand::from_str(" echo"), None);
    assert_eq!(ShellCommand::from_str(" cd "), None);
    assert_eq!(ShellCommand::from_str("pwd\n"), None);
    assert_eq!(ShellCommand::from_str("\texit"), None);
    assert_eq!(ShellCommand::from_str("   "), None);
}

#[test]
fn as_str_gives_the_name_back() {
    let all = [
        ShellCommand::Echo,
        ShellCommand::Type,
        ShellCommand::Exit,
        ShellCommand::Pwd,
        ShellCommand::Cd,
    ];
    for command in all {
        assert_eq!(ShellCommand::from_str(command.as_str()), Some(command));
    }
    assert_eq!(ShellCommand::Echo.as_str(), "echo");
    assert_eq!(ShellCommand::Type.as_str(), "type");
    assert_eq!(ShellCommand::Exit.as_str(), "exit");
    assert_eq!(ShellCommand::Pwd.as_str(), "pwd");
    assert_eq!(ShellCommand::Cd.as_str(), "cd");
}
