use devl::cli::{init_report, parse, respond, Command, Reply, HELP, INIT_HELP};

fn args(words: &[&str]) -> Vec<Vec<u8>> {
    words.iter().map(|w| w.as_bytes().to_vec()).collect()
}

fn parse_error(words: &[&str]) -> (String, u8) {
    let error = parse(args(words)).expect_err("parse fails");
    (error.message().to_owned(), error.exit_code())
}

#[test]
fn parses_default_init_path() {
    assert_eq!(
        parse(args(&["devl", "init"])).expect("parse succeeds"),
        Command::Init(b".".to_vec())
    );
}

#[test]
fn parses_explicit_init_path() {
    assert_eq!(
        parse(args(&["devl", "init", "My App"])).expect("parse succeeds"),
        Command::Init(b"My App".to_vec())
    );
}

#[test]
fn rejects_extra_arguments() {
    let error = parse(args(&["devl", "init", "one", "two"])).expect_err("parse fails");
    assert_eq!(error.exit_code(), 2);
}

#[test]
fn no_command_means_help() {
    assert_eq!(parse(args(&["devl"])).unwrap(), Command::Help);
    assert_eq!(parse(Vec::new()).unwrap(), Command::Help);
}

#[test]
fn help_spellings() {
    for word in ["help", "-h", "--help"] {
        assert_eq!(parse(args(&["devl", word])).unwrap(), Command::Help);
    }
    assert_eq!(
        parse_error(&["devl", "help", "init"]),
        ("help does not accept arguments".to_owned(), 2)
    );
}

#[test]
fn version_spellings() {
    for word in ["-V", "--version"] {
        assert_eq!(parse(args(&["devl", word])).unwrap(), Command::Version);
    }
    assert_eq!(
        parse_error(&["devl", "--version", "x"]),
        ("--version does not accept arguments".to_owned(), 2)
    );
}

#[test]
fn unknown_command_is_named() {
    assert_eq!(
        parse_error(&["devl", "build"]),
        ("unknown command build; run `devl --help`".to_owned(), 2)
    );
    assert_eq!(
        parse_error(&["devl", "-v"]),
        ("unknown command -v; run `devl --help`".to_owned(), 2)
    );
}

#[test]
fn unknown_command_with_invalid_utf8_is_shown_lossily() {
    let error = parse(vec![b"devl".to_vec(), vec![b'x', 0xff, b'y']]).unwrap_err();
    assert_eq!(error.message(), "unknown command x\u{fffd}y; run `devl --help`");
    assert_eq!(error.exit_code(), 2);
}

#[test]
fn init_help_and_options() {
    assert_eq!(parse(args(&["devl", "init", "-h"])).unwrap(), Command::InitHelp);
    assert_eq!(parse(args(&["devl", "init", "--help"])).unwrap(), Command::InitHelp);
    assert_eq!(
        parse_error(&["devl", "init", "--help", "x"]),
        ("init --help does not accept arguments".to_owned(), 2)
    );
    assert_eq!(
        parse_error(&["devl", "init", "--force"]),
        ("unknown init option --force; run `devl init --help`".to_owned(), 2)
    );
    assert_eq!(
        parse_error(&["devl", "init", "-", "x"]),
        ("unknown init option -; run `devl init --help`".to_owned(), 2)
    );
    assert_eq!(
        parse_error(&["devl", "init", "one", "two"]),
        ("init accepts at most one path".to_owned(), 2)
    );
}

#[test]
fn init_keeps_raw_path_bytes() {
    let raw = vec![b'd', 0xfe, b'r'];
    assert_eq!(
        parse(vec![b"devl".to_vec(), b"init".to_vec(), raw.clone()]).unwrap(),
        Command::Init(raw)
    );
}

#[test]
fn responses() {
    assert_eq!(respond(Command::Help, "1.0.0"), Reply::Text(HELP.to_owned()));
    assert_eq!(respond(Command::InitHelp, "1.0.0"), Reply::Text(INIT_HELP.to_owned()));
    assert_eq!(
        respond(Command::Version, "0.3.1"),
        Reply::Text("devl 0.3.1".to_owned())
    );
    assert_eq!(
        respond(Command::Init(b"lab".to_vec()), "0.3.1"),
        Reply::Create(b"lab".to_vec())
    );
    assert!(HELP.starts_with("Clean, contained development labs\n\nUsage:\n  devl init [PATH]"));
}

#[test]
fn init_report_names_project_and_destination() {
    assert_eq!(
        init_report("my-app", "/tmp/My_App"),
        "Created development lab my-app at /tmp/My_App\n\nNext steps:\n  cd /tmp/My_App\n  review the generated executable configuration\n  git init\n  mise trust mise.toml\n  mise install --locked"
    );
}

#[test]
fn program_name_plays_no_part() {
    for program in ["devl", "/usr/bin/devl", ""] {
        assert_eq!(
            parse(args(&[program, "init", "lab"])).unwrap(),
            Command::Init(b"lab".to_vec())
        );
        assert_eq!(parse(args(&[program, "-V"])).unwrap(), Command::Version);
    }
}
