use pino_argparse::{looks_like_flag, ArgParseError, Cli, Command, Flag, FlagParse};

type Handler = fn(FlagParse) -> Result<(), String>;

fn accept(_fp: FlagParse) -> Result<(), String> {
    Ok(())
}

fn strings(items: &[&str]) -> Vec<String> {
    items.iter().map(|s| s.to_string()).collect()
}

fn root_with(flags: Vec<Flag>) -> Cli<Handler> {
    Cli::new(Command { flags, ..Command::new(accept as Handler) })
}

fn parsed(cli: &Cli<Handler>, items: &[&str]) -> (Option<usize>, FlagParse) {
    match cli.parse(&strings(items)) {
        Ok(p) => p,
        Err(e) => panic!("unexpected error: {}", e.message()),
    }
}

#[test]
fn positionals_only_pass_through_verbatim() {
    let args = strings(&["alpha", "beta", "gamma"]);
    let fp = match FlagParse::from_tokens(&vec![], &args, 0) {
        Ok(fp) => fp,
        Err(e) => panic!("unexpected error: {}", e.message()),
    };
    assert_eq!(fp.args, args);
    assert!(!fp.get_flag("alpha"));
}

#[test]
fn positionals_after_subcommand() {
    let cli = Cli {
        subcommands: vec![Command { command_name: "build", ..Command::new(accept as Handler) }],
        ..root_with(vec![])
    };
    let (choice, fp) = parsed(&cli, &["prog", "build", "x", "y"]);
    assert_eq!(choice, Some(0));
    assert_eq!(fp.args, strings(&["x", "y"]));
}

#[test]
fn flag_without_value_is_present() {
    let cli = root_with(vec![Flag::new("n")]);
    let (choice, fp) = parsed(&cli, &["prog", "--n"]);
    assert_eq!(choice, None);
    assert!(fp.get_flag("n"));
    assert_eq!(fp.get_flag_text("n"), None);
    assert_eq!(fp.get_flag_value::<String>("n"), None);
    assert!(fp.args.is_empty());
}

#[test]
fn flag_with_value_is_read() {
    let cli = root_with(vec![Flag::new("out").parameter()]);
    let (_, fp) = parsed(&cli, &["prog", "--out", "file.txt"]);
    assert_eq!(fp.get_flag_value::<String>("out"), Some(String::from("file.txt")));
    assert_eq!(fp.get_flag_text("out"), Some(String::from("file.txt")));
}

#[test]
fn flag_with_missing_value_fails() {
    let cli = root_with(vec![Flag::new("out").parameter()]);
    match cli.parse(&strings(&["prog", "--out"])) {
        Err(ArgParseError::MissingFlagValue(t)) => assert_eq!(t, "--out"),
        _ => panic!("expected a missing flag value"),
    }
    match cli.run(&strings(&["prog", "--out"])) {
        Err(e) => assert_eq!(e.message(), "missing flag value: --out"),
        Ok(()) => panic!("expected a missing flag value"),
    }
}

fn build_handler(_fp: FlagParse) -> Result<(), String> {
    Err(String::from("build ran"))
}

fn test_handler(_fp: FlagParse) -> Result<(), String> {
    Err(String::from("test ran"))
}

fn root_handler(_fp: FlagParse) -> Result<(), String> {
    Err(String::from("root ran"))
}

fn two_commands() -> Cli<Handler> {
    Cli {
        subcommands: vec![
            Command { command_name: "build", ..Command::new(build_handler as Handler) },
            Command { command_name: "test", ..Command::new(test_handler as Handler) },
        ],
        ..Cli::new(Command::new(root_handler as Handler))
    }
}

fn user_message(r: Result<(), ArgParseError>) -> String {
    match r {
        Err(ArgParseError::UserError(m)) => m,
        _ => panic!("expected a handler failure"),
    }
}

#[test]
fn subcommand_is_resolved_by_name() {
    let cli = two_commands();
    assert_eq!(parsed(&cli, &["prog", "build"]).0, Some(0));
    assert_eq!(parsed(&cli, &["prog", "test"]).0, Some(1));
    assert_eq!(user_message(cli.run(&strings(&["prog", "build"]))), "build ran");
    assert_eq!(user_message(cli.run(&strings(&["prog", "test"]))), "test ran");
}

#[test]
fn unknown_command_falls_back_to_root() {
    let cli = two_commands();
    let (choice, fp) = parsed(&cli, &["prog", "unknown", "rest"]);
    assert_eq!(choice, None);
    assert_eq!(fp.args, strings(&["rest"]));
    assert_eq!(user_message(cli.run(&strings(&["prog", "unknown"]))), "root ran");
}

#[test]
fn flag_first_selects_root() {
    let cli = Cli {
        subcommands: vec![Command { command_name: "build", ..Command::new(accept as Handler) }],
        ..root_with(vec![Flag::new("v")])
    };
    let (choice, fp) = parsed(&cli, &["prog", "--v", "build"]);
    assert_eq!(choice, None);
    assert!(fp.get_flag("v"));
    assert_eq!(fp.args, strings(&["build"]));
}

#[test]
fn no_arguments_selects_root() {
    let cli = two_commands();
    let (choice, fp) = parsed(&cli, &["prog"]);
    assert_eq!(choice, None);
    assert!(fp.args.is_empty());
    let (choice, _) = parsed(&cli, &[]);
    assert_eq!(choice, None);
    assert_eq!(user_message(cli.run(&vec![])), "root ran");
}

#[test]
fn flags_end_at_first_positional() {
    let cli = root_with(vec![Flag::new("n"), Flag::new("late")]);
    let (_, fp) = parsed(&cli, &["prog", "--n", "pos1", "--late"]);
    assert!(fp.get_flag("n"));
    assert!(!fp.get_flag("late"));
    assert_eq!(fp.args, strings(&["pos1", "--late"]));
}

#[test]
fn serialized_flags_round_trip() {
    let cli = root_with(vec![
        Flag::new("verbose"),
        Flag::new("out").parameter(),
        Flag::new("level").parameter(),
    ]);
    let (_, fp) = parsed(&cli, &["prog", "--out", "-weird", "--verbose", "--level", "3", "a", "-b"]);
    assert!(fp.get_flag("verbose"));
    assert_eq!(fp.get_flag_text("out"), Some(String::from("-weird")));
    assert_eq!(fp.get_flag_value::<u32>("level"), Some(3));
    assert_eq!(fp.args, strings(&["a", "-b"]));
}

#[test]
fn unknown_long_flag_is_rejected() {
    let cli = root_with(vec![Flag::new("n")]);
    match cli.parse(&strings(&["prog", "--nope"])) {
        Err(ArgParseError::InvalidFlag(t)) => assert_eq!(t, "--nope"),
        _ => panic!("expected an invalid flag"),
    }
    match cli.run(&strings(&["prog", "--nope", "x"])) {
        Err(e) => assert_eq!(e.message(), "invalid flag: --nope"),
        Ok(()) => panic!("expected an invalid flag"),
    }
}

#[test]
fn unknown_short_flag_is_rejected() {
    let cli = root_with(vec![Flag::new("verbose").short('v')]);
    match cli.parse(&strings(&["prog", "-x"])) {
        Err(ArgParseError::InvalidFlag(t)) => assert_eq!(t, "-x"),
        _ => panic!("expected an invalid flag"),
    }
    match cli.parse(&strings(&["prog", "-"])) {
        Err(ArgParseError::InvalidFlag(t)) => assert_eq!(t, "-"),
        _ => panic!("expected an invalid flag"),
    }
}

#[test]
fn short_flag_reads_only_its_first_character() {
    let cli = root_with(vec![Flag::new("verbose").short('v'), Flag::new("x").short('x')]);
    let (_, fp) = parsed(&cli, &["prog", "-vx"]);
    assert!(fp.get_flag("verbose"));
    assert!(!fp.get_flag("x"));
}

#[test]
fn short_flag_takes_value() {
    let cli = root_with(vec![Flag::new("output").short('o').parameter()]);
    let (_, fp) = parsed(&cli, &["prog", "-o", "--raw"]);
    assert_eq!(fp.get_flag_text("output"), Some(String::from("--raw")));
}

#[test]
fn first_occurrence_wins() {
    let cli = root_with(vec![Flag::new("o").parameter()]);
    let (_, fp) = parsed(&cli, &["prog", "--o", "1", "--o", "2"]);
    assert_eq!(fp.get_flag_value::<i64>("o"), Some(1));
}

#[test]
fn malformed_value_reads_as_none() {
    let cli = root_with(vec![Flag::new("level").parameter()]);
    let (_, fp) = parsed(&cli, &["prog", "--level", "abc"]);
    assert_eq!(fp.get_flag_value::<u32>("level"), None);
    assert_eq!(fp.get_flag_text("level"), Some(String::from("abc")));
    assert_eq!(fp.get_flag_value::<u32>("missing"), None);
}

#[test]
fn duplicate_long_names_match_the_first() {
    let cli = root_with(vec![Flag::new("d"), Flag::new("d").parameter()]);
    let (_, fp) = parsed(&cli, &["prog", "--d", "pos"]);
    assert!(fp.get_flag("d"));
    assert_eq!(fp.get_flag_text("d"), None);
    assert_eq!(fp.args, strings(&["pos"]));
}

#[test]
fn handler_sees_the_parse() {
    let cli = Cli::new(Command {
        flags: vec![Flag::new("name").parameter()],
        ..Command::new(|fp: FlagParse| -> Result<(), String> {
            match fp.get_flag_text("name") {
                Some(n) if fp.args == vec![String::from("tail")] => Err(n),
                _ => Ok(()),
            }
        })
    });
    assert_eq!(user_message(cli.run(&strings(&["prog", "--name", "seen", "tail"]))), "seen");
    assert!(cli.run(&strings(&["prog"])).is_ok());
}

#[test]
fn flag_builders_set_fields() {
    let f = Flag::new("out");
    assert_eq!(f.long, "out");
    assert_eq!(f.short, None);
    assert!(f.desc.is_empty());
    assert!(!f.required);
    assert!(!f.parameter);
    let f = f.desc("where to write").required().parameter().short('o').long("output");
    assert_eq!(f.desc, "where to write");
    assert!(f.required);
    assert!(f.parameter);
    assert_eq!(f.short, Some('o'));
    assert_eq!(f.long, "output");
    let g = f.clone();
    assert_eq!(g.long, "output");
    assert_eq!(g.short, Some('o'));
}

#[test]
fn required_is_advisory() {
    let cli = root_with(vec![Flag::new("must").required()]);
    let (_, fp) = parsed(&cli, &["prog"]);
    assert!(!fp.get_flag("must"));
}

#[test]
fn constructors_start_empty() {
    let cli = root_with(vec![]);
    assert_eq!(cli.program_name, "");
    assert_eq!(cli.synopsis, "");
    assert!(cli.subcommands.is_empty());
    assert!(cli.global_flags.is_empty());
    assert_eq!(cli.root_command.command_name, "");
    assert_eq!(cli.root_command.desc, "");
    assert!(cli.root_command.flags.is_empty());
    cli.help_message();
}

#[test]
fn error_messages() {
    assert_eq!(ArgParseError::InvalidCommand.message(), "invalid command");
    assert_eq!(ArgParseError::InvalidFlag(String::from("-q")).message(), "invalid flag: -q");
    assert_eq!(ArgParseError::UserError(String::from("boom")).message(), "boom");
}

#[test]
fn flag_shape() {
    assert!(looks_like_flag("-v"));
    assert!(looks_like_flag("--verbose"));
    assert!(looks_like_flag("-"));
    assert!(!looks_like_flag("v"));
    assert!(!looks_like_flag(""));
}
