use minishell::command::{Command, CommandName};
use minishell::config::{join_path, split_at_colons, Config};
use minishell::dispatch::{cd_outcome, respond, type_report, Action};
use minishell::text::{join_words, parse_status, replace_tilde, same_text, split_words, trim};

fn plain() {
    colored::control::set_override(false);
}

fn strings(v: &[&str]) -> Vec<String> {
    v.iter().map(|s| s.to_string()).collect()
}

fn config(dirs: &[&str], home: &str) -> Config {
    Config::new(strings(dirs), home.to_string())
}

fn printed(a: Action) -> String {
    match a {
        Action::Print { text } => text,
        _ => panic!("expected output on standard output"),
    }
}

fn reported(a: Action) -> String {
    match a {
        Action::Report { text } => text,
        _ => panic!("expected a report on standard error"),
    }
}

#[test]
fn builtins_win_over_files_on_the_path() {
    let cfg = config(&["/bin"], "/");
    for (word, expected) in [
        ("exit", CommandName::Exit),
        ("echo", CommandName::Echo),
        ("type", CommandName::Type),
        ("pwd", CommandName::Pwd),
        ("cd", CommandName::Cd),
    ] {
        let found = CommandName::from_str(word, &cfg).unwrap();
        assert!(found == expected);
        let probed = CommandName::resolve_with(word, &cfg, &vec![true]).unwrap();
        assert!(probed == expected);
    }
}

#[test]
fn reserved_words_are_case_sensitive() {
    let cfg = config(&["/nonexistent_dir_xyz"], "/");
    assert!(CommandName::from_str("Echo", &cfg).is_none());
    assert!(CommandName::from_str("EXIT", &cfg).is_none());
}

#[test]
fn first_directory_holding_the_name_wins() {
    let cfg = config(&["/a", "/b/", "/c"], "/");
    match CommandName::resolve_with("tool", &cfg, &vec![false, true, true]) {
        Some(CommandName::Other { name, path }) => {
            assert_eq!(name, "tool");
            assert_eq!(path, "/b/tool");
        }
        _ => panic!("expected a program"),
    }
    assert!(CommandName::resolve_with("tool", &cfg, &vec![false, false, false]).is_none());
}

#[test]
fn program_found_on_the_disk() {
    let cfg = config(&["/nonexistent_dir_xyz", "/bin", "/usr/bin"], "/");
    match CommandName::from_str("sh", &cfg) {
        Some(CommandName::Other { name, path }) => {
            assert_eq!(name, "sh");
            assert_eq!(path, "/bin/sh");
        }
        _ => panic!("expected /bin/sh"),
    }
    assert!(CommandName::from_str("nonexistent_cmd_xyz", &cfg).is_none());
}

#[test]
fn resolution_repeats_and_leaves_config_alone() {
    let cfg = config(&["/nonexistent_dir_xyz", "/bin"], "/home/u");
    let a = CommandName::from_str("sh", &cfg).unwrap();
    let b = CommandName::from_str("sh", &cfg).unwrap();
    assert_eq!(a.to_string(), b.to_string());
    match (&a, &b) {
        (CommandName::Other { path: p, .. }, CommandName::Other { path: q, .. }) => assert_eq!(p, q),
        _ => panic!("expected programs"),
    }
    let cmd = Command::from_str("type sh", &cfg).unwrap();
    let _ = cmd.dispatch(&cfg);
    assert_eq!(cfg.path, strings(&["/nonexistent_dir_xyz", "/bin"]));
    assert_eq!(cfg.home, "/home/u");
}

#[test]
fn equality_goes_by_variant() {
    let a = CommandName::Other { name: "a".to_string(), path: "/x/a".to_string() };
    let b = CommandName::Other { name: "b".to_string(), path: "/y/b".to_string() };
    assert!(a == b);
    assert!(a != CommandName::Echo);
    assert!(CommandName::Cd == CommandName::Cd);
    assert!(CommandName::Cd != CommandName::Pwd);
}

#[test]
fn names_of_commands() {
    assert_eq!(CommandName::Exit.to_string(), "exit");
    assert_eq!(CommandName::Pwd.to_string(), "pwd");
    let other = CommandName::Other { name: "ls".to_string(), path: "/bin/ls".to_string() };
    assert_eq!(other.to_string(), "ls");
}

#[test]
fn parse_line_into_command_and_arguments() {
    let cfg = config(&[], "/");
    let cmd = Command::from_str("  echo \t a   b\tc  ", &cfg).unwrap();
    assert!(cmd.command == CommandName::Echo);
    assert_eq!(cmd.args, strings(&["a", "b", "c"]));
    assert!(cmd.is_builtin());
    assert!(Command::from_str("", &cfg).is_none());
    assert!(Command::from_str("   \t ", &cfg).is_none());
    assert!(Command::from_str("nonexistent_cmd_xyz a", &cfg).is_none());
}

#[test]
fn external_command_is_not_builtin() {
    let cmd = Command::new(
        CommandName::Other { name: "ls".to_string(), path: "/bin/ls".to_string() },
        strings(&["-l"]),
    );
    assert!(!cmd.is_builtin());
    match cmd.dispatch(&config(&[], "/")) {
        Action::Run { path, args } => {
            assert_eq!(path, "/bin/ls");
            assert_eq!(args, strings(&["-l"]));
        }
        _ => panic!("expected a program run"),
    }
}

#[test]
fn echo_joins_arguments() {
    let cfg = config(&[], "/");
    let cmd = Command::new(CommandName::Echo, strings(&["a", "b", "c"]));
    assert_eq!(printed(cmd.dispatch(&cfg)), "a b c\n");
    let cmd = Command::new(CommandName::Echo, vec![]);
    assert_eq!(printed(cmd.dispatch(&cfg)), "\n");
}

#[test]
fn exit_statuses() {
    plain();
    let cfg = config(&[], "/");
    let status = |args: &[&str]| match Command::new(CommandName::Exit, strings(args)).dispatch(&cfg) {
        Action::Exit { status } => Some(status),
        _ => None,
    };
    assert_eq!(status(&[]), Some(0));
    assert_eq!(status(&["42"]), Some(42));
    assert_eq!(status(&["-3"]), Some(-3));
    assert_eq!(status(&["abc"]), None);
    let r = Command::new(CommandName::Exit, strings(&["abc"])).dispatch(&cfg);
    assert_eq!(reported(r), "abc: invalid status code\n");
}

#[test]
fn type_reports_builtins_programs_and_unknown_words() {
    plain();
    let cfg = config(&["/nonexistent_dir_xyz", "/bin"], "/");
    let ask = |w: &str| printed(Command::new(CommandName::Type, strings(&[w])).dispatch(&cfg));
    assert_eq!(ask("echo"), "echo is a shell builtin\n");
    assert_eq!(ask("nonexistent_cmd_xyz"), "nonexistent_cmd_xyz: not found\n");
    assert_eq!(ask("sh"), "sh is /bin/sh\n");
    let r = Command::new(CommandName::Type, vec![]).dispatch(&cfg);
    assert_eq!(reported(r), "type: type requires a command\n");
}

#[test]
fn type_report_from_given_resolution() {
    plain();
    let found = Some(Command::new(
        CommandName::Other { name: "tool".to_string(), path: "/opt/tool".to_string() },
        vec![],
    ));
    assert_eq!(printed(type_report("tool", &found)), "tool is /opt/tool\n");
    assert_eq!(printed(type_report("zz", &None)), "zz: not found\n");
    let found = Some(Command::new(CommandName::Cd, vec![]));
    assert_eq!(printed(type_report("cd", &found)), "cd is a shell builtin\n");
}

#[test]
fn cd_to_missing_directory_is_reported() {
    plain();
    let cfg = config(&[], "/");
    let r = Command::new(CommandName::Cd, strings(&["/nonexistent_dir_xyz/sub"])).dispatch(&cfg);
    assert_eq!(reported(r), "/nonexistent_dir_xyz/sub: No such file or directory\n");
    assert_eq!(reported(cd_outcome("/q".to_string(), false)), "/q: No such file or directory\n");
    match cd_outcome("/q".to_string(), true) {
        Action::ChangeDir { target } => assert_eq!(target, "/q"),
        _ => panic!("expected a change of directory"),
    }
}

#[test]
fn cd_home_and_cd_alone_agree() {
    let cfg = config(&[], "/");
    let go = |args: &[&str]| match Command::new(CommandName::Cd, strings(args)).dispatch(&cfg) {
        Action::ChangeDir { target } => target,
        _ => panic!("expected a change of directory"),
    };
    assert_eq!(go(&["~"]), "/");
    assert_eq!(go(&[]), "/");
    assert_eq!(go(&["~/bin"]), "//bin");
}

#[test]
fn cd_alone_takes_home_as_it_is() {
    plain();
    for home in [" /nonexistent_home_xyz", "/nonexistent~home"] {
        let cfg = config(&[], home);
        let target = |args: &[&str]| reported(Command::new(CommandName::Cd, strings(args)).dispatch(&cfg));
        let expected = format!("{}: No such file or directory\n", home);
        assert_eq!(target(&[]), expected);
        assert_eq!(target(&["~"]), expected);
    }
}

#[test]
fn words_with_a_slash_name_no_program() {
    let cfg = config(&["/", "/bin"], "/");
    assert!(CommandName::resolve_with("/bin/sh", &cfg, &vec![true, true]).is_none());
    assert!(CommandName::resolve_with("bin/sh", &cfg, &vec![true, true]).is_none());
    assert!(CommandName::resolve_with("", &cfg, &vec![true, true]).is_none());
    assert!(CommandName::from_str("/bin/sh", &cfg).is_none());
    assert!(CommandName::from_str("bin/sh", &cfg).is_none());
    assert!(CommandName::from_str("", &cfg).is_none());
    assert!(Command::from_str("/bin/sh -c true", &cfg).is_none());
}

#[test]
fn lines_of_input() {
    plain();
    let cfg = config(&["/nonexistent_dir_xyz"], "/");
    assert!(matches!(respond("   ", &cfg), Action::Nothing));
    assert!(matches!(respond("", &cfg), Action::Nothing));
    assert_eq!(reported(respond("  nonexistent_cmd_xyz a b \n", &cfg)), "nonexistent_cmd_xyz: command not found\n");
    assert_eq!(printed(respond("echo  hi   there\n", &cfg)), "hi there\n");
    assert!(matches!(respond("pwd", &cfg), Action::ShowDir));
}

#[test]
fn config_from_path_list() {
    let cfg = Config::from_str("/usr/bin::/bin", "/home/u");
    assert_eq!(cfg.path, strings(&["/usr/bin", "", "/bin"]));
    assert_eq!(cfg.home, "/home/u");
    assert_eq!(split_at_colons(""), strings(&[""]));
    assert_eq!(split_at_colons(":"), strings(&["", ""]));
}

#[test]
fn path_joining() {
    assert_eq!(join_path("/usr/bin", "ls"), "/usr/bin/ls");
    assert_eq!(join_path("/usr/bin/", "ls"), "/usr/bin/ls");
    assert_eq!(join_path("", "ls"), "ls");
    assert_eq!(join_path("/usr/bin", "/bin/ls"), "/bin/ls");
}

#[test]
fn status_parsing() {
    assert_eq!(parse_status("0"), Some(0));
    assert_eq!(parse_status("+7"), Some(7));
    assert_eq!(parse_status("007"), Some(7));
    assert_eq!(parse_status("2147483647"), Some(i32::MAX));
    assert_eq!(parse_status("-2147483648"), Some(i32::MIN));
    assert_eq!(parse_status("2147483648"), None);
    assert_eq!(parse_status("-2147483649"), None);
    assert_eq!(parse_status("99999999999999999999"), None);
    assert_eq!(parse_status(""), None);
    assert_eq!(parse_status("-"), None);
    assert_eq!(parse_status("+"), None);
    assert_eq!(parse_status(" 1"), None);
    assert_eq!(parse_status("1a"), None);
}

#[test]
fn text_helpers() {
    assert_eq!(split_words(" a\u{3000}b\u{a0}c\n"), strings(&["a", "b", "c"]));
    assert!(split_words("").is_empty());
    assert_eq!(trim(" \t x y \n"), "x y");
    assert_eq!(trim("   "), "");
    assert_eq!(replace_tilde("~/a~b", "/h"), "/h/a/hb");
    assert_eq!(join_words(&strings(&["x"])), "x");
    assert_eq!(join_words(&vec![]), "");
    assert!(same_text("cd", "cd"));
    assert!(!same_text("cd", "cd "));
}
