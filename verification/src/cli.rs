//! The command line: which command a list of arguments selects, and the text
//! that each command answers with.
//!
//! Arguments are taken as the raw bytes of the operating system's strings,
//! so that a path is passed on exactly as it was given.

use vstd::prelude::*;

use vstd::string::StringSliceAdditionalSpecFns;

use crate::error::{Error, USAGE_EXIT_CODE};
use crate::text::{lossy_text, utf8_lossy};

verus! {

/// The text of `devl help`.
pub const HELP: &'static str = "Clean, contained development labs\n\nUsage:\n  devl init [PATH]\n  devl help\n\nCommands:\n  init    Create a new development-lab project (default PATH: current directory)\n  help    Print this help\n\nOptions:\n  -h, --help       Print help\n  -V, --version    Print version";

/// The text of `devl init --help`.
pub const INIT_HELP: &'static str = "Create a new development-lab project\n\nUsage:\n  devl init [PATH]\n\nArguments:\n  [PATH]    New or empty destination directory (default: current directory)\n\nThe command never overwrites files, initializes Git, installs tools, or starts containers.";

/// Usage error messages.
pub const HELP_TAKES_NO_ARGUMENTS: &'static str = "help does not accept arguments";

pub const VERSION_TAKES_NO_ARGUMENTS: &'static str = "--version does not accept arguments";

pub const INIT_HELP_TAKES_NO_ARGUMENTS: &'static str = "init --help does not accept arguments";

pub const INIT_TAKES_ONE_PATH: &'static str = "init accepts at most one path";

pub const UNKNOWN_COMMAND: &'static str = "unknown command ";

pub const UNKNOWN_COMMAND_HINT: &'static str = "; run `devl --help`";

pub const UNKNOWN_INIT_OPTION: &'static str = "unknown init option ";

pub const UNKNOWN_INIT_OPTION_HINT: &'static str = "; run `devl init --help`";

/// The path `init` uses when none is given: the current directory.
pub const DEFAULT_PATH: &'static str = ".";

/// A command selected on the command line.
#[derive(Debug, PartialEq, Eq)]
pub enum Command {
    Help,
    Version,
    /// Create a project at the given path (its raw bytes).
    Init(Vec<u8>),
    InitHelp,
}

/// A command, with the path as a sequence of bytes.
pub enum CommandView {
    Help,
    Version,
    Init(Seq<u8>),
    InitHelp,
}

impl View for Command {
    type V = CommandView;

    open spec fn view(&self) -> CommandView {
        match self {
            Command::Help => CommandView::Help,
            Command::Version => CommandView::Version,
            Command::Init(path) => CommandView::Init(path@),
            Command::InitHelp => CommandView::InitHelp,
        }
    }
}

/// The argument is exactly the word (compared as UTF-8 bytes).
pub open spec fn is_arg(arg: Seq<u8>, word: &str) -> bool {
    arg == word.spec_bytes()
}

/// The argument is one of the spellings of the help option.
pub open spec fn is_help_option(arg: Seq<u8>) -> bool {
    is_arg(arg, "-h") || is_arg(arg, "--help")
}

/// The command that `args` (the program name first) selects, or the message
/// of the usage error.
pub open spec fn parse_outcome(args: Seq<Seq<u8>>) -> Result<CommandView, Seq<char>> {
    if args.len() < 2 {
        Ok(CommandView::Help)
    } else if is_arg(args[1], "help") || is_help_option(args[1]) {
        if args.len() > 2 {
            Err(HELP_TAKES_NO_ARGUMENTS@)
        } else {
            Ok(CommandView::Help)
        }
    } else if is_arg(args[1], "-V") || is_arg(args[1], "--version") {
        if args.len() > 2 {
            Err(VERSION_TAKES_NO_ARGUMENTS@)
        } else {
            Ok(CommandView::Version)
        }
    } else if !is_arg(args[1], "init") {
        Err(UNKNOWN_COMMAND@ + utf8_lossy(args[1]) + UNKNOWN_COMMAND_HINT@)
    } else if args.len() < 3 {
        Ok(CommandView::Init(DEFAULT_PATH.spec_bytes()))
    } else if is_help_option(args[2]) {
        if args.len() > 3 {
            Err(INIT_HELP_TAKES_NO_ARGUMENTS@)
        } else {
            Ok(CommandView::InitHelp)
        }
    } else if args[2].len() > 0 && args[2][0] == 45u8 {
        Err(UNKNOWN_INIT_OPTION@ + utf8_lossy(args[2]) + UNKNOWN_INIT_OPTION_HINT@)
    } else if args.len() > 3 {
        Err(INIT_TAKES_ONE_PATH@)
    } else {
        Ok(CommandView::Init(args[2]))
    }
}


/// The UTF-8 bytes of the command-line words.
proof fn lemma_word_bytes()
    ensures
        "help".spec_bytes() == seq![104u8, 101u8, 108u8, 112u8],
        "-h".spec_bytes() == seq![45u8, 104u8],
        "--help".spec_bytes() == seq![45u8, 45u8, 104u8, 101u8, 108u8, 112u8],
        "-V".spec_bytes() == seq![45u8, 86u8],
        "--version".spec_bytes() == seq![45u8, 45u8, 118u8, 101u8, 114u8, 115u8, 105u8, 111u8, 110u8],
        "init".spec_bytes() == seq![105u8, 110u8, 105u8, 116u8],
        ".".spec_bytes() == seq![46u8],
{
    broadcast use vstd::string::is_ascii_spec_bytes;

    reveal_strlit("help");
    reveal_strlit("-h");
    reveal_strlit("--help");
    reveal_strlit("-V");
    reveal_strlit("--version");
    reveal_strlit("init");
    reveal_strlit(".");
    assert(vstd::string::is_ascii("help"));
    assert(vstd::string::is_ascii("-h"));
    assert(vstd::string::is_ascii("--help"));
    assert(vstd::string::is_ascii("-V"));
    assert(vstd::string::is_ascii("--version"));
    assert(vstd::string::is_ascii("init"));
    assert(vstd::string::is_ascii("."));
    assert("help".spec_bytes() =~= seq![104u8, 101u8, 108u8, 112u8]);
    assert("-h".spec_bytes() =~= seq![45u8, 104u8]);
    assert("--help".spec_bytes() =~= seq![45u8, 45u8, 104u8, 101u8, 108u8, 112u8]);
    assert("-V".spec_bytes() =~= seq![45u8, 86u8]);
    assert("--version".spec_bytes() =~= seq![45u8, 45u8, 118u8, 101u8, 114u8, 115u8, 105u8, 111u8, 110u8]);
    assert("init".spec_bytes() =~= seq![105u8, 110u8, 105u8, 116u8]);
    assert(".".spec_bytes() =~= seq![46u8]);
}

/// One of the spellings that ask for help: `help`, `-h`, `--help`.
pub open spec fn is_help_command(arg: Seq<u8>) -> bool {
    is_arg(arg, "help") || is_help_option(arg)
}

/// One of the spellings that ask for the version: `-V`, `--version`.
pub open spec fn is_version_command(arg: Seq<u8>) -> bool {
    is_arg(arg, "-V") || is_arg(arg, "--version")
}

/// The command line's grammar, stated directly: which argument lists select
/// each command (every other list is a usage error), and the program name
/// plays no part.
pub proof fn command_line_grammar(args: Seq<Seq<u8>>)
    ensures
        (parse_outcome(args) == Ok::<CommandView, Seq<char>>(CommandView::Help)) <==> (args.len() < 2
            || (args.len() == 2 && is_help_command(args[1]))),
        (parse_outcome(args) == Ok::<CommandView, Seq<char>>(CommandView::Version)) <==> (args.len()
            == 2 && is_version_command(args[1])),
        (parse_outcome(args) == Ok::<CommandView, Seq<char>>(CommandView::InitHelp)) <==> (args.len()
            == 3 && is_arg(args[1], "init") && is_help_option(args[2])),
        forall|path: Seq<u8>|
            (#[trigger] parse_outcome(args) == Ok::<CommandView, Seq<char>>(CommandView::Init(path)))
                <==> (is_arg(args[1], "init") && ((args.len() == 2 && path == DEFAULT_PATH.spec_bytes())
                || (args.len() == 3 && path == args[2] && !is_help_option(args[2]) && (args[2].len()
                == 0 || args[2][0] != 45u8)))),
        parse_outcome(args) is Err <==> !(args.len() < 2 || (args.len() == 2 && (is_help_command(
            args[1],
        ) || is_version_command(args[1]) || is_arg(args[1], "init"))) || (args.len() == 3 && is_arg(
            args[1],
            "init",
        ) && (is_help_option(args[2]) || args[2].len() == 0 || args[2][0] != 45u8))),
        args.len() > 0 ==> forall|program: Seq<u8>|
            #[trigger] parse_outcome(args.update(0, program)) == parse_outcome(args),
{
    lemma_word_bytes();
    if args.len() > 1 {
        let a = args[1];
        if is_arg(a, "init") {
            assert(a[0] == 105u8);
        }
        if is_help_command(a) {
            assert(a.len() == 4 && a[0] == 104u8 || a.len() == 2 && a[1] == 104u8 || a.len() == 6);
        }
        if is_version_command(a) {
            assert(a.len() == 2 && a[1] == 86u8 || a.len() == 9);
        }
    }
    if args.len() > 0 {
        assert forall|program: Seq<u8>| #[trigger]
            parse_outcome(args.update(0, program)) == parse_outcome(args) by {
            let b = args.update(0, program);
            assert(b.len() == args.len());
            if args.len() > 1 {
                assert(b[1] == args[1]);
            }
            if args.len() > 2 {
                assert(b[2] == args[2]);
            }
        }
    }
}

/// The arguments as sequences of bytes.
pub open spec fn args_view(args: Seq<Vec<u8>>) -> Seq<Seq<u8>> {
    args.map_values(|a: Vec<u8>| a@)
}

/// Whether `arg` is exactly `word`.
fn is_word(arg: &Vec<u8>, word: &str) -> (r: bool)
    ensures
        r == is_arg(arg@, word),
{
    let w = word.as_bytes();
    if arg.len() != w.len() {
        return false;
    }
    let mut i: usize = 0;
    while i < w.len()
        invariant
            w@ == word.spec_bytes(),
            arg@.len() == w@.len(),
            0 <= i <= w@.len(),
            forall|j: int| 0 <= j < i ==> arg@[j] == w@[j],
        decreases w@.len() - i,
    {
        if arg[i] != w[i] {
            return false;
        }
        i = i + 1;
    }
    assert(arg@ =~= w@);
    true
}

fn unknown(prefix: &str, arg: &Vec<u8>, hint: &str) -> (e: Error)
    ensures
        e.text() == prefix@ + utf8_lossy(arg@) + hint@,
        e.code() == USAGE_EXIT_CODE,
{
    let mut message = prefix.to_owned();
    let shown = lossy_text(arg.as_slice());
    message.append(shown.as_str());
    message.append(hint);
    Error::usage(message)
}

/// Parses the command line (the program name first).
///
/// With no command, the command is `help`. `help`, `-h` and `--help` select
/// help; `-V` and `--version` the version; `init` takes at most one path
/// (the current directory when it is left out) or `-h`/`--help`. Anything
/// else is a usage error (exit code 2).
pub fn parse(args: Vec<Vec<u8>>) -> (res: Result<Command, Error>)
    ensures
        match res {
            Ok(c) => parse_outcome(args_view(args@)) == Ok::<CommandView, Seq<char>>(c@),
            Err(e) => parse_outcome(args_view(args@)) == Err::<CommandView, Seq<char>>(e.text())
                && e.code() == USAGE_EXIT_CODE,
        },
{
    let ghost a = args_view(args@);
    let n = args.len();
    assert(a.len() == n);
    if n < 2 {
        return Ok(Command::Help);
    }
    assert(a[1] == args@[1]@);
    if is_word(&args[1], "help") || is_word(&args[1], "-h") || is_word(&args[1], "--help") {
        if n > 2 {
            return Err(Error::usage(HELP_TAKES_NO_ARGUMENTS.to_owned()));
        }
        return Ok(Command::Help);
    }
    if is_word(&args[1], "-V") || is_word(&args[1], "--version") {
        if n > 2 {
            return Err(Error::usage(VERSION_TAKES_NO_ARGUMENTS.to_owned()));
        }
        return Ok(Command::Version);
    }
    if !is_word(&args[1], "init") {
        return Err(unknown(UNKNOWN_COMMAND, &args[1], UNKNOWN_COMMAND_HINT));
    }
    if n < 3 {
        return Ok(Command::Init(DEFAULT_PATH.as_bytes_vec()));
    }
    assert(a[2] == args@[2]@);
    if is_word(&args[2], "-h") || is_word(&args[2], "--help") {
        if n > 3 {
            return Err(Error::usage(INIT_HELP_TAKES_NO_ARGUMENTS.to_owned()));
        }
        return Ok(Command::InitHelp);
    }
    if args[2].len() > 0 && args[2][0] == 45u8 {
        return Err(unknown(UNKNOWN_INIT_OPTION, &args[2], UNKNOWN_INIT_OPTION_HINT));
    }
    if n > 3 {
        return Err(Error::usage(INIT_TAKES_ONE_PATH.to_owned()));
    }
    let mut args = args;
    let path = args.remove(2);
    Ok(Command::Init(path))
}

/// What a command answers with: text to print, or a project to create at a
/// path (whose report then comes from `init_report`).
#[derive(Debug, PartialEq, Eq)]
pub enum Reply {
    Text(String),
    Create(Vec<u8>),
}

/// The text of `devl --version` for the given package version.
pub open spec fn version_text(version: Seq<char>) -> Seq<char> {
    "devl "@ + version
}

/// Answers a command: the help texts, the version line, or the path of the
/// project to create.
pub fn respond(command: Command, version: &str) -> (r: Reply)
    ensures
        match command@ {
            CommandView::Help => r matches Reply::Text(t) && t@ == HELP@,
            CommandView::InitHelp => r matches Reply::Text(t) && t@ == INIT_HELP@,
            CommandView::Version => r matches Reply::Text(t) && t@ == version_text(version@),
            CommandView::Init(p) => r matches Reply::Create(q) && q@ == p,
        },
{
    match command {
        Command::Help => Reply::Text(HELP.to_owned()),
        Command::InitHelp => Reply::Text(INIT_HELP.to_owned()),
        Command::Version => {
            let mut text = "devl ".to_owned();
            text.append(version);
            Reply::Text(text)
        },
        Command::Init(path) => Reply::Create(path),
    }
}

/// The report printed after a project was created.
pub open spec fn init_report_text(project: Seq<char>, destination: Seq<char>) -> Seq<char> {
    "Created development lab "@ + project + " at "@ + destination + "\n\nNext steps:\n  cd "@
        + destination
        + "\n  review the generated executable configuration\n  git init\n  mise trust mise.toml\n  mise install --locked"@
}

/// The report for project `project` created at `destination` (the path as
/// displayed).
pub fn init_report(project: &str, destination: &str) -> (r: String)
    ensures
        r@ == init_report_text(project@, destination@),
{
    let mut r = "Created development lab ".to_owned();
    r.append(project);
    r.append(" at ");
    r.append(destination);
    r.append("\n\nNext steps:\n  cd ");
    r.append(destination);
    r.append(
        "\n  review the generated executable configuration\n  git init\n  mise trust mise.toml\n  mise install --locked",
    );
    r
}

} // verus!
