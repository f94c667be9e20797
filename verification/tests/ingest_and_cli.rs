use runner::cli::{parse_log_format, usage_text, Cli, Command, LogFormat};
use runner::ingest::{render_mapping_ingest_url, MappingIngestPath};

fn args(list: &[&str]) -> Vec<String> {
    list.iter().map(|s| s.to_string()).collect()
}

#[test]
fn ingest_path_renders_mapping_id() {
    assert_eq!(MappingIngestPath::new("app-a").render(), "/ingest/app-a");
}

#[test]
fn ingest_url_joins_base_and_path() {
    assert_eq!(
        render_mapping_ingest_url("https://runner.example:8443", "app-a"),
        "https://runner.example:8443/ingest/app-a"
    );
}

#[test]
fn ingest_url_drops_trailing_slashes_of_base() {
    let with = render_mapping_ingest_url("https://runner.example:8443///", "app-a");
    let without = render_mapping_ingest_url("https://runner.example:8443", "app-a");
    assert_eq!(with, without);
    assert_eq!(MappingIngestPath::new("b").to_url("http://h/"), "http://h/ingest/b");
}

#[test]
fn log_format_parses_text_and_json() {
    assert!(matches!(parse_log_format("text"), Ok(LogFormat::Text)));
    assert!(matches!(parse_log_format("json"), Ok(LogFormat::Json)));
    assert!(LogFormat::Json.writes_json());
    assert!(!LogFormat::Text.writes_json());
}

#[test]
fn log_format_rejects_other_values() {
    match parse_log_format("yaml") {
        Err(message) => assert_eq!(message, "invalid log format `yaml`; expected one of: text, json"),
        Ok(_) => panic!("yaml is not a log format"),
    }
}

#[test]
fn cli_parses_validate_config_with_deep() {
    let Ok(cli) = Cli::parse_from(args(&["runner", "--log-format", "json", "validate-config", "--config", "runner.yml", "--deep"])) else {
        panic!("arguments are valid");
    };
    assert_eq!(cli.log_format(), LogFormat::Json);
    match cli.command() {
        Command::ValidateConfig { config, deep } => {
            assert_eq!(config, "runner.yml");
            assert!(*deep);
        }
        _ => panic!("expected validate-config"),
    }
}

#[test]
fn cli_parses_run_with_text_logs_by_default() {
    let Ok(cli) = Cli::parse_from(args(&["runner", "run", "--config", "/etc/runner.yml"])) else {
        panic!("arguments are valid");
    };
    assert_eq!(cli.log_format(), LogFormat::Text);
    assert!(matches!(cli.command(), Command::Run { config } if config == "/etc/runner.yml"));
}

#[test]
fn cli_help_is_reported_as_help() {
    let Err(error) = Cli::parse_from(args(&["runner", "--help"])) else {
        panic!("help is not a command");
    };
    assert!(error.is_help());
    assert_eq!(error.render(), usage_text("runner"));
}

#[test]
fn cli_rejects_deep_with_run() {
    let Err(error) = Cli::parse_from(args(&["runner", "run", "--config", "c.yml", "--deep"])) else {
        panic!("--deep is only for validate-config");
    };
    assert!(!error.is_help());
    assert_eq!(
        error.render(),
        format!("error: `--deep` is only valid for `validate-config`\n\n{}", usage_text("runner"))
    );
}

#[test]
fn cli_requires_config_value() {
    let Err(error) = Cli::parse_from(args(&["runner", "validate-config", "--config"])) else {
        panic!("--config needs a value");
    };
    assert_eq!(
        error.render(),
        format!("error: missing value for `--config`\n\n{}", usage_text("runner"))
    );
}

#[test]
fn cli_requires_a_subcommand_and_config() {
    let Err(error) = Cli::parse_from(args(&["runner", "--config", "c.yml"])) else {
        panic!("a subcommand is required");
    };
    assert_eq!(error.render(), format!("error: missing subcommand\n\n{}", usage_text("runner")));
    let Err(error) = Cli::parse_from(args(&["runner", "run"])) else {
        panic!("--config is required");
    };
    assert_eq!(
        error.render(),
        format!("error: missing value for `--config`\n\n{}", usage_text("runner"))
    );
}

#[test]
fn cli_rejects_unknown_arguments_and_two_subcommands() {
    let Err(error) = Cli::parse_from(args(&["runner", "--verbose"])) else {
        panic!("unknown flag");
    };
    assert_eq!(
        error.render(),
        format!("error: unrecognized argument `--verbose`\n\n{}", usage_text("runner"))
    );
    let Err(error) = Cli::parse_from(args(&["runner", "serve"])) else {
        panic!("unknown subcommand");
    };
    assert_eq!(
        error.render(),
        format!("error: unrecognized subcommand `serve`\n\n{}", usage_text("runner"))
    );
    let Err(error) = Cli::parse_from(args(&["runner", "run", "validate-config"])) else {
        panic!("two subcommands");
    };
    assert_eq!(
        error.render(),
        format!(
            "error: received multiple subcommands: `run` and `validate-config`\n\n{}",
            usage_text("runner")
        )
    );
}

#[test]
fn cli_rejects_invalid_log_format_value() {
    let Err(error) = Cli::parse_from(args(&["runner", "--log-format", "xml", "run", "--config", "c"])) else {
        panic!("xml is not a log format");
    };
    assert_eq!(
        error.render(),
        format!(
            "error: invalid log format `xml`; expected one of: text, json\n\n{}",
            usage_text("runner")
        )
    );
}

#[test]
fn usage_names_the_program() {
    let usage = usage_text("my-runner");
    assert!(usage.starts_with("CockroachDB to PostgreSQL destination runner\n\nUsage:\n  my-runner [--log-format text|json] validate-config"));
    assert!(usage.ends_with("-h, --help                Show this help text"));
}
