use work_tuimer::cli::args::ArgError;
use work_tuimer::cli::export::ExportCommands;
use work_tuimer::cli::{Cli, Commands, SessionCommands};

fn argv(items: &[&str]) -> Vec<String> {
    items.iter().map(|s| s.to_string()).collect()
}

#[test]
fn test_cli_export_date_parse() {
    let cli = Cli::try_parse_from(&argv(&["work-tuimer", "export", "date", "2025-11-06"])).unwrap();

    let Commands::Export { command } = cli.command else {
        panic!("Expected export command");
    };

    let ExportCommands::Date(args) = command else {
        panic!("Expected export date command");
    };

    assert_eq!(args.date, "2025-11-06");
    assert!(!args.output.stdout);
    assert!(args.output.out_dir.is_none());
}

#[test]
fn test_cli_export_range_all_parse() {
    let cli = Cli::try_parse_from(&argv(&[
        "work-tuimer",
        "export",
        "range",
        "all",
        "--individual",
        "--out-dir",
        "/tmp/exports",
    ]))
    .unwrap();

    let Commands::Export { command } = cli.command else {
        panic!("Expected export command");
    };

    let ExportCommands::Range(args) = command else {
        panic!("Expected export range command");
    };

    assert_eq!(args.range, vec!["all"]);
    assert!(args.individual);
    assert_eq!(args.output.out_dir.as_deref(), Some("/tmp/exports"));
}

#[test]
fn test_cli_export_range_dates_parse() {
    let cli = Cli::try_parse_from(&argv(&[
        "work-tuimer",
        "export",
        "range",
        "2025-11-01",
        "2025-11-10",
        "--stdout",
    ]))
    .unwrap();

    let Commands::Export { command } = cli.command else {
        panic!("Expected export command");
    };

    let ExportCommands::Range(args) = command else {
        panic!("Expected export range command");
    };

    assert_eq!(args.range, vec!["2025-11-01", "2025-11-10"]);
    assert!(args.output.stdout);
    assert!(!args.individual);
}

#[test]
fn test_cli_doctor_command_parse() {
    let cli = Cli::try_parse_from(&argv(&["work-tuimer", "doctor"])).unwrap();
    assert!(matches!(cli.command, Commands::Doctor));
}

#[test]
fn test_cli_session_start_parses_project_and_customer() {
    let cli = Cli::try_parse_from(&argv(&[
        "work-tuimer",
        "session",
        "start",
        "My Task",
        "--project",
        "Internal Platform",
        "--customer",
        "ACME",
    ]))
    .unwrap();

    let Commands::Session { command } = cli.command else {
        panic!("Expected session command");
    };

    match command {
        SessionCommands::Start { task, project, customer, .. } => {
            assert_eq!(task, "My Task");
            assert_eq!(project.as_deref(), Some("Internal Platform"));
            assert_eq!(customer.as_deref(), Some("ACME"));
        }
        _ => panic!("Expected session start command"),
    }
}

#[test]
fn session_start_reads_short_description_and_equals_form() {
    let cli = Cli::try_parse_from(&argv(&[
        "work-tuimer",
        "session",
        "start",
        "Review",
        "-d",
        "PR 42",
        "--project=Core",
    ]))
    .unwrap();
    let Commands::Session { command: SessionCommands::Start { task, description, project, customer } } = cli.command else {
        panic!("Expected session start command");
    };
    assert_eq!(task, "Review");
    assert_eq!(description.as_deref(), Some("PR 42"));
    assert_eq!(project.as_deref(), Some("Core"));
    assert!(customer.is_none());
}

#[test]
fn session_subcommands_without_arguments_parse() {
    for (word, expected) in [("stop", 0), ("pause", 1), ("resume", 2), ("status", 3)] {
        let cli = Cli::try_parse_from(&argv(&["work-tuimer", "session", word])).unwrap();
        let Commands::Session { command } = cli.command else {
            panic!("Expected session command");
        };
        let got = match command {
            SessionCommands::Stop => 0,
            SessionCommands::Pause => 1,
            SessionCommands::Resume => 2,
            SessionCommands::Status => 3,
            SessionCommands::Start { .. } => 4,
        };
        assert_eq!(got, expected);
    }
}

#[test]
fn export_list_dates_parses() {
    let cli = Cli::try_parse_from(&argv(&["work-tuimer", "export", "list-dates"])).unwrap();
    assert!(matches!(cli.command, Commands::Export { command: ExportCommands::ListDates }));
}

#[test]
fn missing_subcommand_is_refused() {
    let err = Cli::try_parse_from(&argv(&["work-tuimer"])).unwrap_err();
    assert_eq!(err, ArgError::MissingSubcommand);
    let err = Cli::try_parse_from(&argv(&["work-tuimer", "session"])).unwrap_err();
    assert_eq!(err, ArgError::MissingSubcommand);
}

#[test]
fn unknown_subcommand_is_refused() {
    let err = Cli::try_parse_from(&argv(&["work-tuimer", "frobnicate"])).unwrap_err();
    assert_eq!(err, ArgError::UnknownSubcommand("frobnicate".to_string()));
    assert_eq!(err.message(), "error: unrecognized subcommand 'frobnicate'");
}

#[test]
fn unexpected_argument_is_refused() {
    let err = Cli::try_parse_from(&argv(&["work-tuimer", "doctor", "extra"])).unwrap_err();
    assert_eq!(err, ArgError::UnexpectedArgument("extra".to_string()));
    assert_eq!(err.message(), "error: unexpected argument 'extra' found");
    let err = Cli::try_parse_from(&argv(&["work-tuimer", "export", "date", "2025-11-06", "--bogus"])).unwrap_err();
    assert_eq!(err, ArgError::UnexpectedArgument("--bogus".to_string()));
}

#[test]
fn option_without_value_is_refused() {
    let err = Cli::try_parse_from(&argv(&["work-tuimer", "session", "start", "Task", "--project"])).unwrap_err();
    assert_eq!(err, ArgError::MissingValue("project".to_string()));
    assert_eq!(err.message(), "error: a value is required for '--project' but none was supplied");
}

#[test]
fn repeated_option_is_refused() {
    let err = Cli::try_parse_from(&argv(&["work-tuimer", "export", "range", "all", "--stdout", "--stdout"])).unwrap_err();
    assert_eq!(err, ArgError::RepeatedOption("stdout".to_string()));
    assert_eq!(err.message(), "error: the argument '--stdout' cannot be used multiple times");
}

#[test]
fn missing_positional_is_refused() {
    let err = Cli::try_parse_from(&argv(&["work-tuimer", "export", "date"])).unwrap_err();
    assert_eq!(err, ArgError::MissingRequired("<DATE>".to_string()));
    assert_eq!(err.message(), "error: the following required arguments were not provided: <DATE>");
}

#[test]
fn help_and_version_requests() {
    assert_eq!(Cli::try_parse_from(&argv(&["work-tuimer", "--help"])).unwrap_err(), ArgError::HelpRequested);
    assert_eq!(Cli::try_parse_from(&argv(&["work-tuimer", "help"])).unwrap_err(), ArgError::HelpRequested);
    assert_eq!(Cli::try_parse_from(&argv(&["work-tuimer", "-V"])).unwrap_err(), ArgError::VersionRequested);
    assert_eq!(Cli::try_parse_from(&argv(&["work-tuimer", "--version"])).unwrap_err(), ArgError::VersionRequested);
}
