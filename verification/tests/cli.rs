use zex::cli::{expand_tilde, resolve_arg_path, Cli, Command, ParseOutcome};

fn cli(path: Option<&str>, select: Option<&str>) -> Cli {
    Cli {
        path: path.map(str::to_string),
        select: select.map(str::to_string),
        disk_usage: false,
        config: None,
        command: None,
    }
}

fn args(a: &[&str]) -> Vec<String> {
    a.iter().map(|s| s.to_string()).collect()
}

const HOME: &str = "/home/u";
const CWD: &str = "/work";

fn home() -> Option<String> {
    Some(HOME.to_string())
}

fn cwd() -> Option<String> {
    Some(CWD.to_string())
}

#[test]
fn no_path_falls_back_to_default_start_dir() {
    let default_dir = "/some/default".to_string();

    let startup = cli(None, None).resolve(default_dir.clone(), home(), cwd(), None).unwrap();

    assert_eq!(startup.start_dir, default_dir);
    assert_eq!(startup.select, None);
    assert_eq!(startup.disk_usage_root, None);
}

#[test]
fn missing_path_is_an_error() {
    let err = cli(Some("/definitely/does/not/exist/zex"), None)
        .resolve("/".to_string(), home(), cwd(), None)
        .unwrap_err();

    assert!(err.contains("/definitely/does/not/exist/zex"));
    assert_eq!(err, "zex: path not found: /definitely/does/not/exist/zex");
}

#[test]
fn directory_path_becomes_start_dir_with_no_selection() {
    let dir = "/tmp".to_string();

    let startup = cli(Some(&dir), None).resolve("/".to_string(), home(), cwd(), Some(true)).unwrap();

    assert_eq!(startup.start_dir, dir);
    assert_eq!(startup.select, None);
    assert_eq!(startup.disk_usage_root, Some(dir));
}

#[test]
fn file_path_opens_parent_with_file_selected() {
    let file = "/tmp/zex_cli_test_file_path.txt".to_string();

    let startup = cli(Some(&file), None).resolve("/".to_string(), home(), cwd(), Some(false)).unwrap();

    assert_eq!(startup.start_dir, "/tmp");
    assert_eq!(startup.select, Some(file));
    assert_eq!(startup.disk_usage_root, None);
}

#[test]
fn select_flag_opens_parent_with_target_selected_even_for_a_directory() {
    let target = "/tmp/zex_cli_test_select_dir".to_string();

    let startup = cli(None, Some(&target)).resolve("/".to_string(), home(), cwd(), Some(true)).unwrap();

    assert_eq!(startup.start_dir, "/tmp");
    assert_eq!(startup.select, Some(target));
    assert_eq!(startup.disk_usage_root, None);
}

#[test]
fn select_flag_errors_when_target_missing() {
    let err = cli(None, Some("/definitely/does/not/exist/zex"))
        .resolve("/".to_string(), home(), cwd(), None)
        .unwrap_err();

    assert!(err.contains("/definitely/does/not/exist/zex"));
}

#[test]
fn relative_path_resolves_against_current_dir() {
    let dir_name = "zex_cli_test_relative_1";

    let probe = cli(Some(dir_name), None).probe(home(), cwd()).unwrap();
    assert_eq!(probe.path, "/work/zex_cli_test_relative_1");
    assert!(probe.follow_links);

    let startup = cli(Some(dir_name), None).resolve("/".to_string(), home(), cwd(), Some(true)).unwrap();

    assert_eq!(startup.start_dir, "/work/zex_cli_test_relative_1");
}

#[test]
fn bare_tilde_expands_to_home_dir() {
    let startup = cli(Some("~"), None).resolve("/".to_string(), home(), cwd(), Some(true)).unwrap();

    assert_eq!(startup.start_dir, HOME);
}

#[test]
fn tilde_slash_expands_inside_home() {
    assert_eq!(expand_tilde("~/docs", HOME), "/home/u/docs");
    assert_eq!(expand_tilde("~user", HOME), "~user");
    assert_eq!(resolve_arg_path("a/b", HOME, CWD), "/work/a/b");
    assert_eq!(resolve_arg_path("/abs", HOME, CWD), "/abs");
}

#[test]
fn unknown_home_and_cwd_fall_back_to_root() {
    let startup = cli(Some("~"), None).resolve("/".to_string(), None, None, Some(true)).unwrap();
    assert_eq!(startup.start_dir, "/");
    let probe = cli(Some("rel"), None).probe(None, None).unwrap();
    assert_eq!(probe.path, "/rel");
}

#[test]
fn select_probe_does_not_follow_links() {
    let probe = cli(None, Some("/x/y")).probe(home(), cwd()).unwrap();
    assert_eq!(probe.path, "/x/y");
    assert!(!probe.follow_links);
    assert!(cli(None, None).probe(home(), cwd()).is_none());
}

#[test]
fn parses_options_and_path() {
    match Cli::try_parse(args(&["--disk-usage", "--config", "/c.json", "/tmp"])).unwrap() {
        ParseOutcome::Run(c) => {
            assert!(c.disk_usage);
            assert_eq!(c.config.as_deref(), Some("/c.json"));
            assert_eq!(c.path.as_deref(), Some("/tmp"));
            assert!(c.select.is_none());
            assert!(c.command.is_none());
        }
        _ => panic!("expected a run"),
    }
}

#[test]
fn help_and_version_stop_reading() {
    assert!(matches!(Cli::try_parse(args(&["-h", "--bogus"])), Ok(ParseOutcome::Help)));
    assert!(matches!(Cli::try_parse(args(&["--version"])), Ok(ParseOutcome::Version)));
}

#[test]
fn argument_errors_are_reported() {
    assert_eq!(
        Cli::try_parse(args(&["--select"])).err().unwrap(),
        "--select requires a value"
    );
    assert_eq!(
        Cli::try_parse(args(&["--config"])).err().unwrap(),
        "--config requires a value"
    );
    assert_eq!(
        Cli::try_parse(args(&["--nope"])).err().unwrap(),
        "unknown option '--nope'"
    );
    assert_eq!(
        Cli::try_parse(args(&["a", "b"])).err().unwrap(),
        "unexpected argument 'b'"
    );
    assert_eq!(
        Cli::try_parse(args(&["a", "--select", "x"])).err().unwrap(),
        "the argument '--select <FILE>' cannot be used with a PATH argument"
    );
    assert_eq!(
        Cli::try_parse(args(&["--select", "x", "a"])).err().unwrap(),
        "the argument '--select <FILE>' cannot be used with a PATH argument"
    );
}

#[test]
fn config_subcommand_takes_an_optional_key() {
    match Cli::try_parse(args(&["config", "git.enabled"])).unwrap() {
        ParseOutcome::Run(c) => match c.command {
            Some(Command::Config { key }) => assert_eq!(key.as_deref(), Some("git.enabled")),
            None => panic!("expected the config command"),
        },
        _ => panic!("expected a run"),
    }
    match Cli::try_parse(args(&["config"])).unwrap() {
        ParseOutcome::Run(c) => assert!(matches!(c.command, Some(Command::Config { key: None }))),
        _ => panic!("expected a run"),
    }
    assert_eq!(
        Cli::try_parse(args(&["config", "a", "b"])).err().unwrap(),
        "unexpected argument 'b'"
    );
}
