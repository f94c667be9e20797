//! The runner's command line: subcommands, flags, and the usage text.
use vstd::prelude::*;

use crate::text::starts_with;

verus! {

/// How operator events are written.
#[derive(Clone, Copy, Debug, PartialEq, Eq, Structural)]
pub enum LogFormat {
    Text,
    Json,
}

impl LogFormat {
    /// Whether events are written as JSON lines.
    pub fn writes_json(self) -> (r: bool)
        ensures
            r == (self == LogFormat::Json),
    {
        match self {
            LogFormat::Text => false,
            LogFormat::Json => true,
        }
    }
}

/// What the runner was asked to do.
pub enum Command {
    ValidateConfig { config: String, deep: bool },
    Run { config: String },
}

/// A command, as contracts speak of it.
pub enum CommandView {
    ValidateConfig { config: Seq<char>, deep: bool },
    Run { config: Seq<char> },
}

impl View for Command {
    type V = CommandView;

    open spec fn view(&self) -> CommandView {
        match self {
            Command::ValidateConfig { config, deep } => CommandView::ValidateConfig {
                config: config@,
                deep: *deep,
            },
            Command::Run { config } => CommandView::Run { config: config@ },
        }
    }
}

/// A parsed command line.
pub struct Cli {
    log_format: LogFormat,
    command: Command,
}

pub struct CliView {
    pub log_format: LogFormat,
    pub command: CommandView,
}

impl View for Cli {
    type V = CliView;

    closed spec fn view(&self) -> CliView {
        CliView { log_format: self.log_format, command: self.command@ }
    }
}

/// A command line that asks for help, or one that cannot be run.
#[derive(Debug)]
pub enum CliErrorKind {
    Help(String),
    InvalidUsage(String),
}

/// Why the command line gave no command: help was asked for, or the usage was wrong. Either
/// way it holds the text to show.
#[derive(Debug)]
pub struct CliError {
    kind: CliErrorKind,
}

/// A command-line error, as contracts speak of it.
pub enum CliErrorView {
    Help(Seq<char>),
    InvalidUsage(Seq<char>),
}

impl View for CliError {
    type V = CliErrorView;

    closed spec fn view(&self) -> CliErrorView {
        match &self.kind {
            CliErrorKind::Help(t) => CliErrorView::Help(t@),
            CliErrorKind::InvalidUsage(t) => CliErrorView::InvalidUsage(t@),
        }
    }
}

/// The usage text for a program name.
pub open spec fn usage_spec(program: Seq<char>) -> Seq<char> {
    "CockroachDB to PostgreSQL destination runner\n\nUsage:\n  "@ + program
        + " [--log-format text|json] validate-config --config <PATH> [--deep]\n  "@ + program
        + " [--log-format text|json] run --config <PATH>\n\nCommands:\n  validate-config   Validate a runner config file\n  run               Start the webhook and reconcile runtimes\n\nOptions:\n  --log-format <text|json>  Emit text or JSON logs (default: text)\n  --config <PATH>           Path to the runner config file\n  --deep                    Validate destination connectivity and schema\n  -h, --help                Show this help text"@
}

/// The usage text for a program name.
pub fn usage_text(program: &str) -> (r: String)
    ensures
        r@ == usage_spec(program@),
{
    let mut s = String::from_str("CockroachDB to PostgreSQL destination runner\n\nUsage:\n  ");
    s.append(program);
    s.append(" [--log-format text|json] validate-config --config <PATH> [--deep]\n  ");
    s.append(program);
    s.append(
        " [--log-format text|json] run --config <PATH>\n\nCommands:\n  validate-config   Validate a runner config file\n  run               Start the webhook and reconcile runtimes\n\nOptions:\n  --log-format <text|json>  Emit text or JSON logs (default: text)\n  --config <PATH>           Path to the runner config file\n  --deep                    Validate destination connectivity and schema\n  -h, --help                Show this help text",
    );
    s
}

/// The text of a usage error: the message, a blank line, then the usage.
pub open spec fn invalid_text(message: Seq<char>, usage: Seq<char>) -> Seq<char> {
    "error: "@ + message + "\n\n"@ + usage
}

/// The message for a flag given without its value.
pub open spec fn missing_value_message(flag: Seq<char>) -> Seq<char> {
    "missing value for `"@ + flag + "`"@
}

/// A log format named on the command line.
pub open spec fn log_format_spec(input: Seq<char>) -> Result<LogFormat, Seq<char>> {
    if input == "text"@ {
        Ok(LogFormat::Text)
    } else if input == "json"@ {
        Ok(LogFormat::Json)
    } else {
        Err("invalid log format `"@ + input + "`; expected one of: text, json"@)
    }
}

/// Reads a log format name.
pub fn parse_log_format(input: &str) -> (r: Result<LogFormat, String>)
    ensures
        match (log_format_spec(input@), r) {
            (Ok(a), Ok(b)) => a == b,
            (Err(a), Err(b)) => a == b@,
            _ => false,
        },
{
    if crate::text::str_eq(input, "text") {
        Ok(LogFormat::Text)
    } else if crate::text::str_eq(input, "json") {
        Ok(LogFormat::Json)
    } else {
        let mut s = String::from_str("invalid log format `");
        s.append(input);
        s.append("`; expected one of: text, json");
        Err(s)
    }
}

impl CliError {
    pub fn help(usage: String) -> (r: Self)
        ensures
            r@ == CliErrorView::Help(usage@),
    {
        CliError { kind: CliErrorKind::Help(usage) }
    }

    pub fn invalid(message: &str, usage: &str) -> (r: Self)
        ensures
            r@ == CliErrorView::InvalidUsage(invalid_text(message@, usage@)),
    {
        let mut s = String::from_str("error: ");
        s.append(message);
        s.append("\n\n");
        s.append(usage);
        CliError { kind: CliErrorKind::InvalidUsage(s) }
    }

    pub fn missing_value(flag: &str, usage: &str) -> (r: Self)
        ensures
            r@ == CliErrorView::InvalidUsage(invalid_text(missing_value_message(flag@), usage@)),
    {
        let mut m = String::from_str("missing value for `");
        m.append(flag);
        m.append("`");
        CliError::invalid(m.as_str(), usage)
    }

    /// Whether help was asked for.
    pub fn is_help(&self) -> (r: bool)
        ensures
            r == (self@ is Help),
    {
        match &self.kind {
            CliErrorKind::Help(_) => true,
            CliErrorKind::InvalidUsage(_) => false,
        }
    }

    /// The text to show (help, or the error and the usage).
    pub fn render(&self) -> (r: String)
        ensures
            r@ == match self@ {
                CliErrorView::Help(t) => t,
                CliErrorView::InvalidUsage(t) => t,
            },
    {
        match &self.kind {
            CliErrorKind::Help(t) => t.clone(),
            CliErrorKind::InvalidUsage(t) => t.clone(),
        }
    }
}

/// What has been read of the arguments so far.
pub struct ArgState {
    pub command: Option<Seq<char>>,
    pub config: Option<Seq<char>>,
    pub deep: bool,
    pub log_format: LogFormat,
}

/// Reads the arguments from position `i` on; the first bad argument ends the reading.
pub open spec fn read_args(args: Seq<Seq<char>>, i: int, st: ArgState, usage: Seq<char>) -> Result<
    ArgState,
    CliErrorView,
>
    decreases args.len() - i,
{
    if i < 0 || i >= args.len() {
        Ok(st)
    } else {
        let a = args[i];
        if a == "-h"@ || a == "--help"@ {
            Err(CliErrorView::Help(usage))
        } else if a == "--log-format"@ {
            if i + 1 >= args.len() {
                Err(CliErrorView::InvalidUsage(invalid_text(missing_value_message("--log-format"@), usage)))
            } else {
                match log_format_spec(args[i + 1]) {
                    Err(m) => Err(CliErrorView::InvalidUsage(invalid_text(m, usage))),
                    Ok(f) => read_args(args, i + 2, ArgState { log_format: f, ..st }, usage),
                }
            }
        } else if a == "--config"@ {
            if i + 1 >= args.len() {
                Err(CliErrorView::InvalidUsage(invalid_text(missing_value_message("--config"@), usage)))
            } else {
                read_args(args, i + 2, ArgState { config: Some(args[i + 1]), ..st }, usage)
            }
        } else if a == "--deep"@ {
            read_args(args, i + 1, ArgState { deep: true, ..st }, usage)
        } else if a == "validate-config"@ || a == "run"@ {
            match st.command {
                Some(e) => Err(
                    CliErrorView::InvalidUsage(
                        invalid_text(
                            "received multiple subcommands: `"@ + e + "` and `"@ + a + "`"@,
                            usage,
                        ),
                    ),
                ),
                None => read_args(args, i + 1, ArgState { command: Some(a), ..st }, usage),
            }
        } else if starts_with(a, "-"@) {
            Err(CliErrorView::InvalidUsage(invalid_text("unrecognized argument `"@ + a + "`"@, usage)))
        } else {
            Err(CliErrorView::InvalidUsage(invalid_text("unrecognized subcommand `"@ + a + "`"@, usage)))
        }
    }
}

/// The program name: the first argument, or `runner` when there is none.
pub open spec fn program_name(args: Seq<Seq<char>>) -> Seq<char> {
    if args.len() > 0 {
        args[0]
    } else {
        "runner"@
    }
}

/// What a command line means: the arguments after the program name are read, then a
/// subcommand and `--config` are required, and `--deep` only goes with `validate-config`.
pub open spec fn cli_outcome(args: Seq<Seq<char>>) -> Result<CliView, CliErrorView> {
    let usage = usage_spec(program_name(args));
    let init = ArgState { command: None, config: None, deep: false, log_format: LogFormat::Text };
    match read_args(args, 1, init, usage) {
        Err(e) => Err(e),
        Ok(st) => match st.command {
            None => Err(CliErrorView::InvalidUsage(invalid_text("missing subcommand"@, usage))),
            Some(c) => match st.config {
                None => Err(
                    CliErrorView::InvalidUsage(invalid_text(missing_value_message("--config"@), usage)),
                ),
                Some(path) => if c == "validate-config"@ {
                    Ok(
                        CliView {
                            log_format: st.log_format,
                            command: CommandView::ValidateConfig { config: path, deep: st.deep },
                        },
                    )
                } else if st.deep {
                    Err(
                        CliErrorView::InvalidUsage(
                            invalid_text("`--deep` is only valid for `validate-config`"@, usage),
                        ),
                    )
                } else {
                    Ok(
                        CliView {
                            log_format: st.log_format,
                            command: CommandView::Run { config: path },
                        },
                    )
                },
            },
        },
    }
}

/// The value of the last `--log-format` flag at or after position `i`. Arguments are read left
/// to right, and `--config` and `--log-format` each take the argument after them as their value.
pub open spec fn last_log_format_value(args: Seq<Seq<char>>, i: int) -> Option<Seq<char>>
    decreases args.len() - i,
{
    if i < 0 || i >= args.len() {
        None
    } else if (args[i] == "--log-format"@ || args[i] == "--config"@) && i + 1 < args.len() {
        match last_log_format_value(args, i + 2) {
            Some(x) => Some(x),
            None => if args[i] == "--log-format"@ {
                Some(args[i + 1])
            } else {
                None
            },
        }
    } else {
        last_log_format_value(args, i + 1)
    }
}

proof fn lemma_read_args_log_format(args: Seq<Seq<char>>, i: int, st: ArgState, usage: Seq<char>)
    requires
        0 <= i,
    ensures
        read_args(args, i, st, usage) matches Ok(fin) ==> match last_log_format_value(args, i) {
            None => fin.log_format == st.log_format,
            Some(x) => log_format_spec(x) == Ok::<LogFormat, Seq<char>>(fin.log_format),
        },
    decreases args.len() - i,
{
    if i < args.len() {
        let a = args[i];
        if a == "--log-format"@ && i + 1 < args.len() {
            if let Ok(f) = log_format_spec(args[i + 1]) {
                lemma_read_args_log_format(args, i + 2, ArgState { log_format: f, ..st }, usage);
            }
        } else if a == "--config"@ && i + 1 < args.len() {
            lemma_read_args_log_format(args, i + 2, ArgState { config: Some(args[i + 1]), ..st }, usage);
        } else if a == "--deep"@ {
            lemma_read_args_log_format(args, i + 1, ArgState { deep: true, ..st }, usage);
        } else if a == "validate-config"@ || a == "run"@ {
            lemma_read_args_log_format(args, i + 1, ArgState { command: Some(a), ..st }, usage);
        }
    }
}

/// A command line that parses has the log format that its last `--log-format` flag names,
/// and `text` when it gives no such flag.
pub proof fn lemma_last_log_format_wins(args: Seq<Seq<char>>)
    ensures
        cli_outcome(args) matches Ok(v) ==> match last_log_format_value(args, 1) {
            None => v.log_format == LogFormat::Text,
            Some(x) => log_format_spec(x) == Ok::<LogFormat, Seq<char>>(v.log_format),
        },
{
    let usage = usage_spec(program_name(args));
    let init = ArgState { command: None, config: None, deep: false, log_format: LogFormat::Text };
    lemma_read_args_log_format(args, 1, init, usage);
}

pub open spec fn arg_views(args: Seq<String>) -> Seq<Seq<char>> {
    args.map_values(|a: String| a@)
}

impl Cli {
    /// Reads a command line (the program name first).
    pub fn parse_from(args: Vec<String>) -> (r: Result<Cli, CliError>)
        ensures
            match (cli_outcome(arg_views(args@)), r) {
                (Ok(v), Ok(c)) => c@ == v,
                (Err(e), Err(x)) => x@ == e,
                _ => false,
            },
    {
        let ghost av = arg_views(args@);
        let program = if args.len() > 0 {
            args[0].clone()
        } else {
            String::from_str("runner")
        };
        let usage = usage_text(program.as_str());
        let ghost init = ArgState { command: None, config: None, deep: false, log_format: LogFormat::Text };
        let mut command_name: Option<String> = None;
        let mut config: Option<String> = None;
        let mut deep = false;
        let mut log_format = LogFormat::Text;
        let mut i: usize = 1;
        while i < args.len()
            invariant
                1 <= i,
                av == arg_views(args@),
                init == (ArgState { command: None, config: None, deep: false, log_format: LogFormat::Text }),
                usage@ == usage_spec(program_name(av)),
                read_args(av, 1, init, usage@) == read_args(
                    av,
                    i as int,
                    ArgState {
                        command: crate::config::opt_view(command_name),
                        config: crate::config::opt_view(config),
                        deep,
                        log_format,
                    },
                    usage@,
                ),
            decreases args.len() - i,
        {
            let a = args[i].as_str();
            assert(av[i as int] == a@);
            let ghost st = ArgState {
                command: crate::config::opt_view(command_name),
                config: crate::config::opt_view(config),
                deep,
                log_format,
            };
            if crate::text::str_eq(a, "-h") || crate::text::str_eq(a, "--help") {
                assert(read_args(av, i as int, st, usage@) == Err::<ArgState, CliErrorView>(CliErrorView::Help(usage@)));
                return Err(CliError::help(usage));
            } else if crate::text::str_eq(a, "--log-format") {
                if i + 1 >= args.len() {
                    assert(read_args(av, i as int, st, usage@) == Err::<ArgState, CliErrorView>(
                        CliErrorView::InvalidUsage(invalid_text(missing_value_message("--log-format"@), usage@))));
                    return Err(CliError::missing_value("--log-format", usage.as_str()));
                }
                assert(av[i + 1] == args@[i + 1]@);
                match parse_log_format(args[i + 1].as_str()) {
                    Ok(f) => {
                        log_format = f;
                    },
                    Err(m) => {
                        return Err(CliError::invalid(m.as_str(), usage.as_str()));
                    },
                }
                i += 2;
            } else if crate::text::str_eq(a, "--config") {
                if i + 1 >= args.len() {
                    return Err(CliError::missing_value("--config", usage.as_str()));
                }
                assert(av[i + 1] == args@[i + 1]@);
                config = Some(args[i + 1].clone());
                i += 2;
            } else if crate::text::str_eq(a, "--deep") {
                deep = true;
                i += 1;
            } else if crate::text::str_eq(a, "validate-config") || crate::text::str_eq(a, "run") {
                match &command_name {
                    Some(existing) => {
                        let mut m = String::from_str("received multiple subcommands: `");
                        m.append(existing.as_str());
                        m.append("` and `");
                        m.append(a);
                        m.append("`");
                        return Err(CliError::invalid(m.as_str(), usage.as_str()));
                    },
                    None => {
                        command_name = Some(args[i].clone());
                    },
                }
                i += 1;
            } else if crate::text::has_prefix(&crate::text::chars_of(a), &crate::text::chars_of("-")) {
                let mut m = String::from_str("unrecognized argument `");
                m.append(a);
                m.append("`");
                return Err(CliError::invalid(m.as_str(), usage.as_str()));
            } else {
                let mut m = String::from_str("unrecognized subcommand `");
                m.append(a);
                m.append("`");
                return Err(CliError::invalid(m.as_str(), usage.as_str()));
            }
        }
        let command_name = match command_name {
            Some(c) => c,
            None => {
                return Err(CliError::invalid("missing subcommand", usage.as_str()));
            },
        };
        let config = match config {
            Some(c) => c,
            None => {
                return Err(CliError::missing_value("--config", usage.as_str()));
            },
        };
        let command = if crate::text::str_eq(command_name.as_str(), "validate-config") {
            Command::ValidateConfig { config, deep }
        } else {
            if deep {
                return Err(
                    CliError::invalid("`--deep` is only valid for `validate-config`", usage.as_str()),
                );
            }
            Command::Run { config }
        };
        Ok(Cli { log_format, command })
    }

    pub fn log_format(&self) -> (r: LogFormat)
        ensures
            r == self@.log_format,
    {
        self.log_format
    }

    pub fn command(&self) -> (r: &Command)
        ensures
            r@ == self@.command,
    {
        &self.command
    }
}

} // verus!
