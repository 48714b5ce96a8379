use shell_core::dispatch::{
    dispatch, dispatch_line, resolve_path, resume, Action, Destination, Goal, Pending, Reply, Step,
};
use shell_core::tokenizer::parse_arguments;

fn strings(items: &[&str]) -> Vec<String> {
    items.iter().map(|s| s.to_string()).collect()
}

fn path() -> Vec<String> {
    strings(&["/usr/local/bin", "/usr/bin", "/bin"])
}

fn done(action: Action) -> Step {
    Step { pending: Pending::Idle, action }
}

fn print(text: &str) -> Step {
    done(Action::Print { text: text.to_string() })
}

#[test]
fn echo_prints_its_arguments_joined_by_single_spaces() {
    assert_eq!(dispatch_line("echo one two three", &path()), print("one two three\n"));
    assert_eq!(dispatch_line("echo   one    two\tthree  \n", &path()), print("one two three\n"));
    assert_eq!(dispatch_line("echo 'one'  \"two\" three", &path()), print("one two three\n"));
    assert_eq!(
        dispatch(strings(&["echo", "one", "two", "three"]), "ignored", &Vec::new()),
        print("one two three\n")
    );
}

#[test]
fn echo_keeps_quoted_blanks() {
    assert_eq!(dispatch_line("echo 'a   b' c", &path()), print("a   b c\n"));
}

#[test]
fn echo_without_arguments_prints_an_empty_line() {
    assert_eq!(dispatch_line("echo", &path()), print("\n"));
}

#[test]
fn empty_line_prompts_again() {
    assert_eq!(dispatch_line("", &path()), done(Action::Prompt));
    assert_eq!(dispatch(Vec::new(), "", &path()), done(Action::Prompt));
}

#[test]
fn line_of_white_space_prompts_again() {
    assert_eq!(dispatch_line("   \t \n", &path()), done(Action::Prompt));
    assert_eq!(dispatch_line("\n", &path()), done(Action::Prompt));
    assert_eq!(dispatch_line(" \u{a0}\r\n", &path()), done(Action::Prompt));
}

#[test]
fn line_of_empty_quotes_prompts_again() {
    assert_eq!(dispatch_line("''", &path()), done(Action::Prompt));
}

#[test]
fn exit_0_ends_the_loop() {
    assert_eq!(dispatch_line("exit 0", &path()), done(Action::Quit));
    assert_eq!(dispatch_line("  exit 0\n", &path()), done(Action::Quit));
    assert_eq!(dispatch_line("\texit 0 \r\n", &Vec::new()), done(Action::Quit));
}

#[test]
fn no_other_line_ends_the_loop() {
    for line in ["exit", "exit 1", "exit  0", "exit 0 0", "exit 00", "EXIT 0", "'exit' 0", "exit 0;"] {
        let step = dispatch_line(line, &path());
        assert_ne!(step.action, Action::Quit, "{}", line);
    }
}

#[test]
fn exit_builtin_ends_the_loop_only_for_the_exact_line() {
    assert_eq!(dispatch(strings(&["exit", "0"]), "exit 0", &path()), done(Action::Quit));
    assert_eq!(dispatch(strings(&["exit", "0"]), "exit  0", &path()), done(Action::Prompt));
    assert_eq!(dispatch(strings(&["exit"]), "exit", &path()), done(Action::Prompt));
    assert_eq!(dispatch(strings(&["echo"]), "exit 0", &path()), print("\n"));
}

#[test]
fn exit_with_anything_else_does_nothing() {
    assert_eq!(dispatch_line("exit", &path()), done(Action::Prompt));
    assert_eq!(dispatch_line("exit 1", &path()), done(Action::Prompt));
    assert_eq!(dispatch_line("exit  0", &path()), done(Action::Prompt));
}

#[test]
fn type_reports_a_builtin_without_looking_at_the_search_path() {
    for name in ["echo", "type", "exit", "pwd", "cd"] {
        let line = format!("type {}", name);
        let expected = print(&format!("{} is a shell builtin\n", name));
        assert_eq!(dispatch_line(&line, &path()), expected);
        assert_eq!(dispatch_line(&line, &Vec::new()), expected);
        assert_eq!(dispatch_line(&line, &strings(&["/dir/with/a/program/of/that/name"])), expected);
    }
}

#[test]
fn type_takes_only_the_exact_names_for_builtins() {
    let dirs = strings(&["/bin"]);
    let step = dispatch_line("type ECHO", &dirs);
    assert_eq!(step.action, Action::Probe { path: "/bin/ECHO".to_string() });
    let step = resume(step.pending, Reply::Probed(Some(0o100755)), &dirs);
    assert_eq!(step, print("ECHO is /bin/ECHO\n"));

    let step = dispatch_line("type ' pwd '", &dirs);
    assert_eq!(step.action, Action::Probe { path: "/bin/ pwd ".to_string() });
    let step = resume(step.pending, Reply::Probed(None), &dirs);
    assert_eq!(step, print(" pwd : not found\n"));

    assert_eq!(dispatch_line("type Cd", &Vec::new()), print("Cd: not found\n"));
}

#[test]
fn type_without_a_name_does_nothing() {
    assert_eq!(dispatch_line("type", &path()), done(Action::Prompt));
}

#[test]
fn type_looks_for_other_names_on_the_search_path() {
    let step = dispatch_line("type ls -l", &path());
    assert_eq!(
        step,
        Step {
            pending: Pending::Search {
                name: "ls".to_string(),
                goal: Goal::Describe,
                index: 0,
                path: "/usr/local/bin/ls".to_string(),
            },
            action: Action::Probe { path: "/usr/local/bin/ls".to_string() },
        }
    );
    let step = resume(step.pending, Reply::Probed(None), &path());
    assert_eq!(step.action, Action::Probe { path: "/usr/bin/ls".to_string() });
    let step = resume(step.pending, Reply::Probed(Some(0o100644)), &path());
    assert_eq!(step.action, Action::Probe { path: "/bin/ls".to_string() });
    let step = resume(step.pending, Reply::Probed(Some(0o100755)), &path());
    assert_eq!(step, print("ls is /bin/ls\n"));
}

#[test]
fn type_stops_at_the_first_match() {
    let step = dispatch_line("type ls", &path());
    let step = resume(step.pending, Reply::Probed(Some(0o755)), &path());
    assert_eq!(step, print("ls is /usr/local/bin/ls\n"));
}

#[test]
fn type_reports_what_is_not_found() {
    let step = dispatch_line("type nosuch", &strings(&["/bin"]));
    let step = resume(step.pending, Reply::Probed(None), &strings(&["/bin"]));
    assert_eq!(step, print("nosuch: not found\n"));
    assert_eq!(dispatch_line("type nosuch", &Vec::new()), print("nosuch: not found\n"));
}

#[test]
fn builtin_is_run_even_if_a_program_has_its_name() {
    for line in ["echo hi", "pwd", "cd /tmp", "exit 3", "type echo"] {
        let step = dispatch_line(line, &path());
        assert!(!matches!(step.action, Action::Probe { .. } | Action::Launch { .. }), "{}", line);
        assert!(!matches!(step.pending, Pending::Search { .. } | Pending::Launch), "{}", line);
    }
}

#[test]
fn pwd_prints_the_working_directory() {
    let step = dispatch_line("pwd", &path());
    assert_eq!(
        step,
        Step { pending: Pending::WorkingDirectory, action: Action::QueryWorkingDirectory }
    );
    let step = resume(step.pending, Reply::WorkingDirectory("/home/user".to_string()), &path());
    assert_eq!(step, print("/home/user\n"));
}

#[test]
fn cd_then_pwd_reports_the_new_directory() {
    let step = dispatch_line("cd /tmp", &path());
    assert_eq!(
        step.action,
        Action::ChangeDirectory { path: "/tmp".to_string(), warning: None }
    );
    assert_eq!(step.pending, Pending::Change { path: "/tmp".to_string() });
    let step = resume(step.pending, Reply::Changed(true), &path());
    assert_eq!(step, done(Action::Prompt));
    let step = dispatch_line("pwd", &path());
    let step = resume(step.pending, Reply::WorkingDirectory("/tmp".to_string()), &path());
    assert_eq!(step, print("/tmp\n"));
}

#[test]
fn cd_to_an_invalid_path_is_reported() {
    let step = dispatch_line("cd /no/such/dir", &path());
    let step = resume(step.pending, Reply::Changed(false), &path());
    assert_eq!(step, print("cd: /no/such/dir: No such file or directory\n"));
}

#[test]
fn cd_takes_relative_paths_as_they_are() {
    let step = dispatch_line("cd ../dir", &path());
    assert_eq!(
        step.action,
        Action::ChangeDirectory { path: "../dir".to_string(), warning: None }
    );
}

#[test]
fn cd_joins_its_arguments() {
    let step = dispatch_line("cd my   dir", &path());
    assert_eq!(
        step.action,
        Action::ChangeDirectory { path: "my dir".to_string(), warning: None }
    );
}

#[test]
fn cd_tilde_goes_home() {
    let step = dispatch_line("cd ~", &path());
    assert_eq!(step, Step { pending: Pending::Home, action: Action::QueryHome });
    let step = resume(step.pending, Reply::Home(Some("/home/user".to_string())), &path());
    assert_eq!(
        step,
        Step {
            pending: Pending::Change { path: "/home/user".to_string() },
            action: Action::ChangeDirectory { path: "/home/user".to_string(), warning: None },
        }
    );
}

#[test]
fn cd_without_argument_goes_home() {
    let step = dispatch_line("cd", &path());
    assert_eq!(step, Step { pending: Pending::Home, action: Action::QueryHome });
}

#[test]
fn cd_without_home_stays_and_warns() {
    let step = dispatch_line("cd ~", &path());
    let step = resume(step.pending, Reply::Home(None), &path());
    assert_eq!(
        step,
        Step {
            pending: Pending::Change { path: ".".to_string() },
            action: Action::ChangeDirectory {
                path: ".".to_string(),
                warning: Some("cd: HOME not set\n".to_string()),
            },
        }
    );
}

#[test]
fn resolve_path_covers_every_case() {
    let home = Some("/home/user".to_string());
    let at_home = Destination { path: "/home/user".to_string(), home_missing: false };
    let lost = Destination { path: ".".to_string(), home_missing: true };
    assert_eq!(resolve_path(None, home.clone()), at_home);
    assert_eq!(resolve_path(Some("~".to_string()), home.clone()), at_home);
    assert_eq!(resolve_path(None, None), lost);
    assert_eq!(resolve_path(Some("~".to_string()), None), lost);
    assert_eq!(
        resolve_path(Some("/tmp".to_string()), home.clone()),
        Destination { path: "/tmp".to_string(), home_missing: false }
    );
    assert_eq!(
        resolve_path(Some("~/x".to_string()), None),
        Destination { path: "~/x".to_string(), home_missing: false }
    );
    assert_eq!(
        resolve_path(Some(String::new()), home),
        Destination { path: String::new(), home_missing: false }
    );
}

#[test]
fn external_command_is_launched_from_the_first_directory_that_has_it() {
    let line = "  ls -l 'my dir'\n";
    let step = dispatch_line(line, &path());
    assert_eq!(
        step,
        Step {
            pending: Pending::Search {
                name: "ls".to_string(),
                goal: Goal::Run { args: strings(&["-l", "my dir"]), line: "ls -l 'my dir'".to_string() },
                index: 0,
                path: "/usr/local/bin/ls".to_string(),
            },
            action: Action::Probe { path: "/usr/local/bin/ls".to_string() },
        }
    );
    let step = resume(step.pending, Reply::Probed(None), &path());
    assert_eq!(step.action, Action::Probe { path: "/usr/bin/ls".to_string() });
    let step = resume(step.pending, Reply::Probed(Some(0o100755)), &path());
    assert_eq!(
        step,
        Step {
            pending: Pending::Launch,
            action: Action::Launch { program: "/usr/bin/ls".to_string(), args: strings(&["-l", "my dir"]) },
        }
    );
    assert_eq!(resume(step.pending, Reply::Launched(true), &path()), done(Action::Prompt));
}

#[test]
fn failed_launch_is_reported() {
    assert_eq!(
        resume(Pending::Launch, Reply::Launched(false), &path()),
        done(Action::Report { text: "Failed to execute command\n".to_string() })
    );
}

#[test]
fn unknown_command_is_reported_with_the_whole_line() {
    let dirs = strings(&["/a", "/b"]);
    let step = dispatch_line("  nosuch  --flag 'x y'  \n", &dirs);
    assert_eq!(step.action, Action::Probe { path: "/a/nosuch".to_string() });
    let step = resume(step.pending, Reply::Probed(None), &dirs);
    assert_eq!(step.action, Action::Probe { path: "/b/nosuch".to_string() });
    let step = resume(step.pending, Reply::Probed(Some(0o644)), &dirs);
    assert_eq!(step, print("nosuch  --flag 'x y': command not found\n"));
}

#[test]
fn unknown_command_with_an_empty_search_path() {
    assert_eq!(dispatch_line("nosuch", &Vec::new()), print("nosuch: command not found\n"));
}

#[test]
fn builtin_names_are_case_sensitive_when_invoked() {
    let step = dispatch_line("ECHO hi", &Vec::new());
    assert_eq!(step, print("ECHO hi: command not found\n"));
}

#[test]
fn dispatch_takes_the_message_line_as_given() {
    let tokens = parse_arguments("nosuch a");
    assert_eq!(dispatch(tokens, "the line", &Vec::new()), print("the line: command not found\n"));
}

#[test]
fn unexpected_reply_ends_the_line() {
    assert_eq!(resume(Pending::Idle, Reply::Changed(false), &path()), done(Action::Prompt));
    assert_eq!(resume(Pending::Home, Reply::Probed(Some(0o755)), &path()), done(Action::Prompt));
    assert_eq!(
        resume(Pending::Change { path: "/x".to_string() }, Reply::Launched(false), &path()),
        done(Action::Prompt)
    );
    assert_eq!(resume(Pending::Launch, Reply::Changed(false), &path()), done(Action::Prompt));
}

#[test]
fn search_past_the_end_of_the_search_path_finds_nothing() {
    let pending = Pending::Search {
        name: "x".to_string(),
        goal: Goal::Describe,
        index: usize::MAX,
        path: "/a/x".to_string(),
    };
    assert_eq!(resume(pending, Reply::Probed(None), &path()), print("x: not found\n"));
}

#[test]
fn command_given_by_its_absolute_path_is_found() {
    let step = dispatch_line("/bin/ls -l", &path());
    assert_eq!(step.action, Action::Probe { path: "/bin/ls".to_string() });
    let step = resume(step.pending, Reply::Probed(Some(0o100755)), &path());
    assert_eq!(
        step.action,
        Action::Launch { program: "/bin/ls".to_string(), args: strings(&["-l"]) }
    );
}

#[test]
fn empty_entry_of_the_search_path_is_the_working_directory() {
    let dirs = strings(&["", "/bin"]);
    let step = dispatch_line("tool", &dirs);
    assert_eq!(step.action, Action::Probe { path: "tool".to_string() });
    let step = resume(step.pending, Reply::Probed(None), &dirs);
    assert_eq!(step.action, Action::Probe { path: "/bin/tool".to_string() });
}
