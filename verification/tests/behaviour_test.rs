use fli::command::{Callback, FliCallbackData, FliCommand};
use fli::error::FliError;
use fli::option_parser::{
    CommandChain, CommandOptionsParser, InputArgsParser, ParseState, Value, ValueTypes,
};
use fli::{find_similar, levenshtein_distance, Fli};

fn tokens(items: &[&str]) -> Vec<String> {
    items.iter().map(|s| s.to_string()).collect()
}

fn readings(items: &[&str]) -> Vec<Option<u64>> {
    items.iter().map(|s| s.parse::<f64>().ok().map(f64::to_bits)).collect()
}

fn root() -> FliCommand {
    let mut root = FliCommand::new("app", "Sample application");
    root.add_option("verbose", "Verbose output", "-v", "--verbose", ValueTypes::Flag);
    root.add_option(
        "output",
        "Output file",
        "-o",
        "--output",
        ValueTypes::RequiredSingle(Value::Str(String::new())),
    );
    root.add_option(
        "level",
        "Level",
        "-l",
        "--level",
        ValueTypes::OptionalSingle(Some(Value::Int(1))),
    );
    root.add_option(
        "files",
        "Input files",
        "-f",
        "--files",
        ValueTypes::RequiredMultiple(vec![], None),
    );
    root.add_option(
        "pair",
        "Exactly two numbers",
        "-p",
        "--pair",
        ValueTypes::RequiredMultiple(vec![Value::Int(0), Value::Int(0)], Some(2)),
    );
    root.add_option(
        "tags",
        "Up to two tags",
        "-t",
        "--tags",
        ValueTypes::OptionalMultiple(None, Some(2)),
    );
    root.add_option(
        "ratio",
        "A ratio",
        "-r",
        "--ratio",
        ValueTypes::RequiredSingle(Value::Float(0)),
    );
    root
}

fn parse_with(root: &mut FliCommand, items: &[&str]) -> Result<String, FliError> {
    let mut parser = InputArgsParser::new("app".to_string(), tokens(items));
    parser.set_float_readings(readings(items));
    parser.prepare(root)?;
    Ok(format!("{:?}", parser.get_parsed_commands_chain()))
}

fn parse(items: &[&str]) -> Result<String, FliError> {
    parse_with(&mut root(), items)
}

// ---------------------------------------------------------------- parsing

#[test]
fn flag_absent_has_no_entry() {
    assert_eq!(parse(&["-o", "x"]).unwrap(), "[Option(\"-o\", RequiredSingle(Str(\"x\")))]");
}

#[test]
fn flag_twice_has_two_entries() {
    assert_eq!(
        parse(&["-v", "--verbose"]).unwrap(),
        "[Option(\"-v\", Flag), Option(\"--verbose\", Flag)]"
    );
}

#[test]
fn required_single_followed_by_flag_is_missing() {
    match parse(&["-o", "-v"]) {
        Err(FliError::MissingValue { option }) => assert_eq!(option, "-o"),
        other => panic!("unexpected {:?}", other),
    }
}

#[test]
fn required_single_at_end_is_missing() {
    match parse(&["-v", "--output"]) {
        Err(FliError::MissingValue { option }) => assert_eq!(option, "--output"),
        other => panic!("unexpected {:?}", other),
    }
}

#[test]
fn required_single_before_break_is_dropped() {
    assert_eq!(parse(&["-o", "--", "x"]).unwrap(), "[Argument(\"x\")]");
}

#[test]
fn optional_single_takes_value() {
    let mut cmd = root();
    assert_eq!(
        parse_with(&mut cmd, &["-l", "7"]).unwrap(),
        "[Option(\"-l\", OptionalSingle(Some(Int(7))))]"
    );
    let stored = cmd.get_option_parser().get_option_expected_value_type("-l").unwrap();
    assert!(matches!(stored, ValueTypes::OptionalSingle(Some(Value::Int(7)))));
}

#[test]
fn optional_single_before_flag_is_absent() {
    let mut cmd = root();
    assert_eq!(
        parse_with(&mut cmd, &["-l", "-v"]).unwrap(),
        "[Option(\"-l\", OptionalSingle(None)), Option(\"-v\", Flag)]"
    );
    // Nothing was stored: the default is still there.
    let stored = cmd.get_option_parser().get_option_expected_value_type("-l").unwrap();
    assert!(matches!(stored, ValueTypes::OptionalSingle(Some(Value::Int(1)))));
}

#[test]
fn optional_single_at_end_is_absent() {
    assert_eq!(parse(&["-l"]).unwrap(), "[Option(\"-l\", OptionalSingle(None))]");
}

#[test]
fn optional_single_before_break_is_absent() {
    assert_eq!(
        parse(&["-l", "--", "x"]).unwrap(),
        "[Option(\"-l\", OptionalSingle(None)), Argument(\"x\")]"
    );
}

#[test]
fn optional_single_bad_value_is_parse_error() {
    match parse(&["-l", "seven"]) {
        Err(FliError::ValueParseError { value, expected_type, reason }) => {
            assert_eq!(value, "seven");
            assert_eq!(expected_type, "integer (i64)");
            assert_eq!(reason, "invalid digit found in string");
        }
        other => panic!("unexpected {:?}", other),
    }
}

#[test]
fn multiple_stops_at_flag_and_break() {
    assert_eq!(
        parse(&["-f", "a", "b", "-v"]).unwrap(),
        "[Option(\"-f\", RequiredMultiple([Str(\"a\"), Str(\"b\")], None)), Option(\"-v\", Flag)]"
    );
    assert_eq!(
        parse(&["-f", "a", "--", "-v"]).unwrap(),
        "[Option(\"-f\", RequiredMultiple([Str(\"a\")], None)), Argument(\"-v\")]"
    );
}

#[test]
fn required_multiple_without_value_is_missing() {
    match parse(&["-f", "-v"]) {
        Err(FliError::MissingValue { option }) => assert_eq!(option, "-f"),
        other => panic!("unexpected {:?}", other),
    }
    match parse(&["-f"]) {
        Err(FliError::MissingValue { option }) => assert_eq!(option, "-f"),
        other => panic!("unexpected {:?}", other),
    }
}

#[test]
fn exact_count_is_enforced() {
    assert_eq!(
        parse(&["-p", "1", "2"]).unwrap(),
        "[Option(\"-p\", RequiredMultiple([Int(1), Int(2)], Some(2)))]"
    );
    match parse(&["-p", "1"]) {
        Err(FliError::MissingValue { option }) => assert_eq!(option, "-p"),
        other => panic!("unexpected {:?}", other),
    }
}

#[test]
fn collection_stops_at_the_count() {
    let mut cmd = root();
    cmd.set_expected_positional_args(1);
    // The third token is not taken; it cannot follow an option as an argument.
    match parse_with(&mut cmd, &["-p", "1", "2", "3"]) {
        Err(FliError::InvalidStateTransition { from, to }) => {
            assert_eq!(from, "InOption");
            assert_eq!(to, "InArgument");
        }
        other => panic!("unexpected {:?}", other),
    }
}

#[test]
fn optional_multiple_may_be_empty() {
    assert_eq!(
        parse(&["-t", "-v"]).unwrap(),
        "[Option(\"-t\", OptionalMultiple(None, Some(2))), Option(\"-v\", Flag)]"
    );
    assert_eq!(parse(&["-t"]).unwrap(), "[Option(\"-t\", OptionalMultiple(None, Some(2)))]");
    assert_eq!(
        parse(&["-t", "a", "b"]).unwrap(),
        "[Option(\"-t\", OptionalMultiple(Some([Str(\"a\"), Str(\"b\")]), Some(2)))]"
    );
}

#[test]
fn stored_values_are_the_templates_of_the_next_collection() {
    let mut cmd = root();
    assert_eq!(
        parse_with(&mut cmd, &["-p", "1", "2"]).unwrap(),
        "[Option(\"-p\", RequiredMultiple([Int(1), Int(2)], Some(2)))]"
    );
    match parse_with(&mut cmd, &["-p", "x", "2"]) {
        Err(FliError::ValueParseError { value, .. }) => assert_eq!(value, "x"),
        other => panic!("unexpected {:?}", other),
    }
}

#[test]
fn float_option_takes_the_reading_of_its_token() {
    assert_eq!(
        parse(&["-r", "1.5"]).unwrap(),
        format!("[Option(\"-r\", RequiredSingle(Float({})))]", 1.5f64.to_bits())
    );
    match parse(&["-r", "high"]) {
        Err(FliError::ValueParseError { value, expected_type, reason }) => {
            assert_eq!(value, "high");
            assert_eq!(expected_type, "float (64-bit)");
            assert_eq!(reason, "invalid floating-point literal");
        }
        other => panic!("unexpected {:?}", other),
    }
}

#[test]
fn float_option_without_readings_refuses_every_token() {
    let mut cmd = root();
    let mut parser = InputArgsParser::new("app".to_string(), tokens(&["-r", "1.5"]));
    assert!(matches!(parser.prepare(&mut cmd), Err(FliError::ValueParseError { .. })));
}

#[test]
fn readings_follow_the_tokens_into_a_subcommand() {
    let mut cmd = root();
    cmd.subcommand("scale", "Scale").add_option(
        "factor",
        "Factor",
        "-x",
        "--factor",
        ValueTypes::RequiredSingle(Value::Float(0)),
    );
    assert_eq!(
        parse_with(&mut cmd, &["-v", "scale", "-x", "2.5"]).unwrap(),
        format!(
            "[Option(\"-v\", Flag), SubCommand(\"scale\"), Option(\"-x\", RequiredSingle(Float({})))]",
            2.5f64.to_bits()
        )
    );
}

#[test]
fn break_is_absorbing() {
    assert_eq!(
        parse(&["-v", "--", "-o", "--", "--help", "x"]).unwrap(),
        "[Option(\"-v\", Flag), Argument(\"-o\"), Argument(\"--\"), Argument(\"--help\"), Argument(\"x\")]"
    );
}

#[test]
fn break_at_the_start_is_unexpected() {
    match parse(&["--", "x"]) {
        Err(FliError::UnexpectedToken { token, position }) => {
            assert_eq!(token, "--");
            assert_eq!(position, 0);
        }
        other => panic!("unexpected {:?}", other),
    }
}

#[test]
fn break_behind_an_argument_is_unexpected() {
    let mut cmd = root();
    cmd.set_expected_positional_args(1);
    match parse_with(&mut cmd, &["x", "--"]) {
        Err(FliError::UnexpectedToken { token, position }) => {
            assert_eq!(token, "--");
            assert_eq!(position, 1);
        }
        other => panic!("unexpected {:?}", other),
    }
}

#[test]
fn arguments_then_options() {
    let mut cmd = root();
    cmd.set_expected_positional_args(2);
    assert_eq!(
        parse_with(&mut cmd, &["a", "b", "-v"]).unwrap(),
        "[Argument(\"a\"), Argument(\"b\"), Option(\"-v\", Flag)]"
    );
}

#[test]
fn argument_cannot_follow_an_option() {
    let mut cmd = root();
    cmd.set_expected_positional_args(1);
    match parse_with(&mut cmd, &["-v", "a"]) {
        Err(e @ FliError::InvalidStateTransition { .. }) => {
            assert_eq!(
                e.to_string(),
                "Invalid parse state transition from \"InOption\" to \"InArgument\""
            );
        }
        other => panic!("unexpected {:?}", other),
    }
}

#[test]
fn unknown_token_after_option_without_positionals() {
    // Something was read already and it was no subcommand: the token is an
    // argument, which cannot follow an option.
    assert!(matches!(parse(&["-v", "bogus"]), Err(FliError::InvalidStateTransition { .. })));
}

#[test]
fn unknown_command_lists_the_children_in_order() {
    let mut cmd = root();
    cmd.subcommand("stop", "Stop");
    cmd.subcommand("start", "Start");
    cmd.subcommand("stop", "Stop again");
    match parse_with(&mut cmd, &["stat"]) {
        Err(FliError::UnknownCommand(token, available)) => {
            assert_eq!(token, "stat");
            assert_eq!(available, vec!["stop".to_string(), "start".to_string()]);
        }
        other => panic!("unexpected {:?}", other),
    }
    assert_eq!(cmd.get_sub_command("stop").unwrap().get_description(), "Stop again");
}

#[test]
fn unknown_command_below_a_subcommand() {
    let mut cmd = root();
    cmd.subcommand("start", "Start");
    match parse_with(&mut cmd, &["start", "now"]) {
        Err(FliError::UnknownCommand(token, available)) => {
            assert_eq!(token, "now");
            assert!(available.is_empty());
        }
        other => panic!("unexpected {:?}", other),
    }
}

#[test]
fn command_mismatch_is_reported() {
    let mut cmd = root();
    let mut parser = InputArgsParser::new("other".to_string(), tokens(&["-v"]));
    match parser.prepare(&mut cmd) {
        Err(e @ FliError::CommandMismatch { .. }) => {
            assert_eq!(e.to_string(), "Command mismatch: expected 'app', got 'other'");
        }
        other => panic!("unexpected {:?}", other),
    }
    assert!(parser.get_parsed_commands_chain().is_empty());
}

#[test]
fn nested_subcommands_keep_the_chain() {
    let mut cmd = FliCommand::new("root", "Root");
    {
        let sub1 = cmd.subcommand("sub1", "First");
        let sub2 = sub1.subcommand("sub2", "Second");
        sub2.add_option(
            "flag",
            "A value",
            "-g",
            "--flag",
            ValueTypes::RequiredSingle(Value::Str(String::new())),
        );
    }
    let mut parser =
        InputArgsParser::new("root".to_string(), tokens(&["sub1", "sub2", "--flag", "value"]));
    parser.prepare(&mut cmd).unwrap();
    assert_eq!(
        format!("{:?}", parser.get_parsed_commands_chain()),
        "[SubCommand(\"sub1\"), SubCommand(\"sub2\"), Option(\"--flag\", RequiredSingle(Str(\"value\")))]"
    );
    // The parser ends at the deepest subcommand, with the tokens behind its name.
    assert_eq!(parser.get_command(), "sub2");
    assert_eq!(parser.args, tokens(&["--flag", "value"]));

    // The value was stored where it belongs.
    let sub2 = cmd.get_sub_command_mut("sub1").unwrap().get_sub_command_mut("sub2").unwrap();
    let stored = sub2.get_option_parser().get_option_expected_value_type("-g").unwrap();
    assert_eq!(stored.as_str(), Some("value"));

    // Parsing the remainder under sub1 alone gives the rest of the chain.
    let mut sub1 = FliCommand::new("sub1", "First");
    sub1.subcommand("sub2", "Second").add_option(
        "flag",
        "A value",
        "-g",
        "--flag",
        ValueTypes::RequiredSingle(Value::Str(String::new())),
    );
    let mut rest = InputArgsParser::new("sub1".to_string(), tokens(&["sub2", "--flag", "value"]));
    rest.prepare(&mut sub1).unwrap();
    assert_eq!(
        format!("{:?}", rest.get_parsed_commands_chain()),
        "[SubCommand(\"sub2\"), Option(\"--flag\", RequiredSingle(Str(\"value\")))]"
    );
}

#[test]
fn prepare_twice_changes_nothing() {
    let mut cmd = root();
    let mut parser = InputArgsParser::new("app".to_string(), tokens(&["-v", "-o", "x"]));
    parser.prepare(&mut cmd).unwrap();
    let first = format!("{:?}", parser);
    assert!(parser.is_prepared);
    parser.prepare(&mut cmd).unwrap();
    assert_eq!(format!("{:?}", parser), first);
    assert_eq!(parser.get_parsed_commands_chain().len(), 2);
}

#[test]
fn failed_prepare_leaves_the_parser_unprepared() {
    let mut cmd = root();
    let mut parser = InputArgsParser::new("app".to_string(), tokens(&["-o"]));
    assert!(parser.prepare(&mut cmd).is_err());
    assert!(!parser.is_prepared);
}

#[test]
fn preserved_option_enters_the_chain_as_written() {
    assert_eq!(parse(&["--help"]).unwrap(), "[IsPreservedOption(\"--help\")]");
    assert_eq!(parse(&["-v", "-h"]).unwrap(), "[Option(\"-v\", Flag), IsPreservedOption(\"-h\")]");
    // A bare word that leads to a preserved option is one, too.
    assert_eq!(parse(&["help"]).unwrap(), "[IsPreservedOption(\"help\")]");
}

#[test]
fn remaining_chain_and_from_chain() {
    let chain = vec![
        CommandChain::SubCommand("a".to_string()),
        CommandChain::Argument("b".to_string()),
        CommandChain::Argument("c".to_string()),
    ];
    let parser = InputArgsParser::from_chain("app".to_string(), chain);
    assert!(parser.is_prepared);
    assert_eq!(parser.get_command_chain().len(), 3);
    let rest = parser.with_remaining_chain(1);
    assert_eq!(format!("{:?}", rest.get_command_chain()), "[Argument(\"b\"), Argument(\"c\")]");
    assert_eq!(rest.get_command(), "app");
    assert!(rest.is_prepared);
    assert!(parser.with_remaining_chain(3).get_command_chain().is_empty());
    assert!(parser.with_remaining_chain(9).get_command_chain().is_empty());
}

// ------------------------------------------------------------ state machine

#[test]
fn transition_table() {
    let states = || {
        vec![
            ParseState::Start,
            ParseState::InCommand,
            ParseState::InOption,
            ParseState::AcceptingValue("-o".to_string(), ValueTypes::Flag),
            ParseState::Breaking,
            ParseState::InArgument,
            ParseState::End,
        ]
    };
    // Rows: from; columns: to, in the order of `states`.
    let table = [
        [false, true, true, false, false, true, false],
        [false, true, true, false, false, true, true],
        [false, false, true, true, true, false, true],
        [false, false, true, false, true, false, true],
        [false, false, false, false, false, true, true],
        [false, false, true, false, false, true, true],
        [false, false, false, false, false, false, true],
    ];
    for (i, from) in states().iter().enumerate() {
        for (j, to) in states().iter().enumerate() {
            assert_eq!(from.can_go_to_next(to), table[i][j], "{:?} -> {:?}", from, to);
        }
    }
}

#[test]
fn illegal_step_is_reported_and_not_taken() {
    let mut state = ParseState::InOption;
    match state.set_next_mode(ParseState::InCommand) {
        Err(FliError::InvalidStateTransition { from, to }) => {
            assert_eq!(from, "InOption");
            assert_eq!(to, "InCommand");
        }
        other => panic!("unexpected {:?}", other),
    }
    assert!(matches!(state, ParseState::InOption));
    assert!(state.set_next_mode(ParseState::Breaking).is_ok());
    assert!(matches!(state, ParseState::Breaking));
}

// ------------------------------------------------------------------ registry

#[test]
fn later_registration_hides_the_earlier_one() {
    let mut cmd = FliCommand::new("app", "App");
    cmd.add_option("first", "First", "-x", "--first", ValueTypes::Flag);
    cmd.add_option("second", "Second", "-x", "--second", ValueTypes::OptionalSingle(None));
    let parser = cmd.get_option_parser();
    assert_eq!(parser.get_option_by_short_flag("-x").unwrap().name, "second");
    assert_eq!(parser.get_option_by_long_flag("--first").unwrap().name, "first");
    assert_eq!(parser.get_option_position("-x"), Some(2));
    assert_eq!(parser.get_option_position("--first"), Some(1));
    assert_eq!(parser.get_option_position("--none"), None);
    assert_eq!(parser.get_options().len(), 3);
}

#[test]
fn short_flags_are_looked_up_first() {
    let mut parser = CommandOptionsParser::new();
    assert!(!parser.has_option("-a"));
    let mut cmd = FliCommand::new("app", "App");
    cmd.add_option("one", "One", "-a", "-b", ValueTypes::Flag);
    cmd.add_option("two", "Two", "-b", "-a", ValueTypes::Flag);
    assert_eq!(cmd.get_option_parser().get_option_position("-a"), Some(1));
    assert_eq!(cmd.get_option_parser().get_option_position("-b"), Some(2));
    assert!(matches!(
        parser.update_option_value("-a", ValueTypes::Flag),
        Err(FliError::OptionNotFound(flag)) if flag == "-a"
    ));
}

#[test]
fn marking_twice_marks_once() {
    let mut cmd = FliCommand::new("app", "App");
    cmd.add_option("verbose", "Verbose", "-v", "--verbose", ValueTypes::Flag);
    cmd.get_option_parser().mark_inheritable("-v").unwrap();
    cmd.get_option_parser().mark_inheritable("--verbose").unwrap();
    assert_eq!(cmd.get_option_parser().inheritable_flags, vec![1]);
    let builder = cmd.get_option_parser().inheritable_options_builder();
    assert_eq!(builder.option_parser.get_options().len(), 1);
    assert!(builder.option_parser.inheritable_flags.is_empty());
}

#[test]
fn marking_many_stops_at_the_first_unknown_flag() {
    let mut cmd = FliCommand::new("app", "App");
    cmd.add_option("verbose", "Verbose", "-v", "--verbose", ValueTypes::Flag);
    cmd.add_option("quiet", "Quiet", "-q", "--quiet", ValueTypes::Flag);
    let result = cmd.get_option_parser().mark_inheritable_many(&["-q", "-x", "-v"]);
    assert!(matches!(result, Err(FliError::OptionNotFound(flag)) if flag == "-x"));
    assert_eq!(cmd.get_option_parser().inheritable_flags, vec![2]);
}

#[test]
fn inheritance_follows_the_time_of_marking() {
    let mut parent = FliCommand::new("app", "App");
    parent.add_option("verbose", "Verbose", "-v", "--verbose", ValueTypes::Flag);
    parent.add_option("quiet", "Quiet", "-q", "--quiet", ValueTypes::Flag);
    parent.subcommand("early", "Made before marking");
    parent.get_option_parser().mark_inheritable("-v").unwrap();
    parent.subcommand("one", "Made after marking");
    parent.subcommand("two", "Made after marking");

    for name in ["one", "two"] {
        let child = parent.get_sub_command_mut(name).unwrap();
        assert!(child.get_option_parser().has_option("-v"));
        assert!(child.get_option_parser().has_option("--verbose"));
        assert!(!child.get_option_parser().has_option("-q"));
        assert!(child.get_option_parser().has_option("--help"));
    }
    let early = parent.get_sub_command_mut("early").unwrap();
    assert!(!early.get_option_parser().has_option("-v"));
}

#[test]
fn children_own_their_options() {
    let mut parent = FliCommand::new("app", "App");
    parent.add_option(
        "level",
        "Level",
        "-l",
        "--level",
        ValueTypes::OptionalSingle(Some(Value::Int(1))),
    );
    parent.get_option_parser().mark_inheritable("-l").unwrap();
    parent.subcommand("one", "One").add_option("extra", "Extra", "-e", "--extra", ValueTypes::Flag);
    parent.subcommand("two", "Two");

    let one = parent.get_sub_command_mut("one").unwrap();
    one.get_option_parser()
        .update_option_value("-l", ValueTypes::OptionalSingle(Some(Value::Int(9))))
        .unwrap();
    assert!(one.get_option_parser().has_option("-e"));

    let two = parent.get_sub_command_mut("two").unwrap();
    assert!(!two.get_option_parser().has_option("-e"));
    assert!(matches!(
        two.get_option_parser().get_option_expected_value_type("-l"),
        Some(ValueTypes::OptionalSingle(Some(Value::Int(1))))
    ));
    assert!(matches!(
        parent.get_option_parser().get_option_expected_value_type("-l"),
        Some(ValueTypes::OptionalSingle(Some(Value::Int(1))))
    ));
    assert!(!parent.get_option_parser().has_option("-e"));
}

// ---------------------------------------------------------------- commands

#[test]
fn preserved_option_is_found_with_or_without_dashes() {
    let cmd = FliCommand::new("app", "App");
    for name in ["help", "-h", "--help", "h", "---help", "-help", "--h"] {
        let found = cmd.get_preserved_option(name);
        assert!(found.is_some(), "{}", name);
        assert_eq!(found.unwrap().callback, Callback::Help);
        assert!(cmd.has_preserved_option(name));
    }
    for name in ["", "-", "--", "helper", "-v"] {
        assert!(!cmd.has_preserved_option(name), "{}", name);
    }
}

#[test]
fn preserved_option_with_an_empty_flag() {
    let mut cmd = FliCommand::new("app", "App");
    cmd.add_option_with_callback(
        "version",
        "Version",
        "",
        "--version",
        ValueTypes::Flag,
        Callback::Custom(3),
    );
    assert_eq!(cmd.get_preserved_option("version").unwrap().callback, Callback::Custom(3));
    assert!(!cmd.has_preserved_option(""));
    assert!(cmd.get_option_parser().has_option("--version"));
    assert_eq!(cmd.preserved_options.len(), 2);
}

#[test]
fn run_hands_out_the_main_handler() {
    let mut cmd = root();
    cmd.set_expected_positional_args(2);
    cmd.set_callback(Callback::Custom(1));
    let parser = InputArgsParser::new("app".to_string(), tokens(&["in", "out", "-v", "-o", "x"]));
    let dispatch = cmd.run(parser).unwrap();
    assert_eq!(dispatch.callback, Some(Callback::Custom(1)));
    assert_eq!(dispatch.data.get_arguments(), &tokens(&["in", "out"]));
    assert_eq!(dispatch.data.get_argument_at(1), Some(&"out".to_string()));
    assert_eq!(dispatch.data.get_argument_at(2), None);
    assert_eq!(dispatch.data.get_command().get_name(), "app");
    assert_eq!(dispatch.data.get_option_value("output").unwrap().as_str(), Some("x"));
    assert_eq!(dispatch.data.get_option_value("o").unwrap().as_str(), Some("x"));
    assert_eq!(dispatch.data.get_option_value("--output").unwrap().as_str(), Some("x"));
    assert!(dispatch.data.get_option_value("-output").is_none());
    assert!(dispatch.data.get_option_value("missing").is_none());
    assert_eq!(dispatch.data.get_arg_parser().get_command_chain().len(), 4);
}

#[test]
fn preserved_handler_wins() {
    let mut cmd = root();
    cmd.set_callback(Callback::Custom(1));
    let parser = InputArgsParser::new("app".to_string(), tokens(&["-v", "--help"]));
    let dispatch = cmd.run(parser).unwrap();
    assert_eq!(dispatch.callback, Some(Callback::Help));
}

#[test]
fn no_handler_is_no_error() {
    let mut cmd = root();
    let parser = InputArgsParser::new("app".to_string(), tokens(&["-v"]));
    let dispatch = cmd.run(parser).unwrap();
    assert_eq!(dispatch.callback, None);
}

#[test]
fn run_follows_subcommands() {
    let mut cmd = root();
    cmd.set_callback(Callback::Custom(1));
    {
        let start = cmd.subcommand("start", "Start");
        start.set_callback(Callback::Custom(2));
        start.set_expected_positional_args(1);
        start.add_option(
            "port",
            "Port",
            "-p",
            "--port",
            ValueTypes::RequiredSingle(Value::Int(0)),
        );
    }
    let parser =
        InputArgsParser::new("app".to_string(), tokens(&["-v", "start", "now", "-p", "3000"]));
    let dispatch = cmd.run(parser).unwrap();
    assert_eq!(dispatch.callback, Some(Callback::Custom(2)));
    assert_eq!(dispatch.data.get_command().get_name(), "start");
    assert_eq!(dispatch.data.get_arguments(), &tokens(&["now"]));
    assert!(matches!(
        dispatch.data.get_option_value("port"),
        Some(ValueTypes::RequiredSingle(Value::Int(3000)))
    ));
    assert_eq!(
        format!("{:?}", dispatch.data.get_arg_parser().get_command_chain()),
        "[Argument(\"now\"), Option(\"-p\", RequiredSingle(Int(3000)))]"
    );
}

#[test]
fn run_without_tokens_is_a_wrong_usage() {
    let mut cmd = root();
    let parser = InputArgsParser::new("app".to_string(), vec![]);
    match cmd.run(parser) {
        Err(e @ FliError::InvalidUsage(_)) => assert_eq!(
            e.to_string(),
            "Invalid usage: No command or arguments provided. Run with --help to see correct usage"
        ),
        other => panic!("unexpected {:?}", other.map(|d| d.callback)),
    }
}

#[test]
fn run_reports_parse_errors() {
    let mut cmd = root();
    let parser = InputArgsParser::new("app".to_string(), tokens(&["-o"]));
    assert!(matches!(cmd.run(parser), Err(FliError::MissingValue { .. })));
}

#[test]
fn dispatch_of_a_chain_with_an_unknown_subcommand() {
    let cmd = root();
    let parser = InputArgsParser::from_chain(
        "app".to_string(),
        vec![CommandChain::SubCommand("gone".to_string())],
    );
    assert!(matches!(
        cmd.dispatch(parser),
        Err(FliError::UnknownCommand(name, available)) if name == "gone" && available.is_empty()
    ));
}

#[test]
fn callback_data_keeps_what_it_was_given() {
    let mut cmd = root();
    let registry = cmd.get_option_parser().clone();
    let parser = InputArgsParser::new("app".to_string(), tokens(&["a"]));
    let data = FliCallbackData::new(cmd.clone(), registry, tokens(&["a", "b"]), parser);
    assert_eq!(data.get_arguments().len(), 2);
    assert_eq!(data.get_command().get_description(), "Sample application");
    assert_eq!(data.get_arg_parser().args, tokens(&["a"]));
    assert!(data.get_option_value("v").is_some());
}

#[test]
fn application_runs_its_root_command() {
    let mut app = Fli::new("tool", "1.2.3", "A tool");
    app.add_option("verbose", "Verbose", "-v", "--verbose", ValueTypes::Flag);
    app.set_callback(Callback::Custom(7));
    app.add_debug_option();
    app.command("build", "Build").unwrap().set_callback(Callback::Custom(8));

    let dispatch = app.run(tokens(&["-v"]), vec![]).unwrap();
    assert_eq!(dispatch.callback, Some(Callback::Custom(7)));

    // A preserved option is met before it is looked up as an ordinary
    // option, so it never takes a value.
    let dispatch = app.run(tokens(&["-v", "--debug"]), vec![]).unwrap();
    assert_eq!(dispatch.callback, Some(Callback::Debug));
    assert!(matches!(
        app.run(tokens(&["-D", "true"]), vec![]),
        Err(FliError::InvalidStateTransition { .. })
    ));

    // The debug option is inheritable; a bare subcommand leaves an empty chain.
    assert!(app.root_command.get_sub_command_mut("build").unwrap().get_option_parser().has_option("-D"));
    assert!(matches!(app.run(tokens(&["build"]), vec![]), Err(FliError::InvalidUsage(_))));
    let dispatch = app.run(tokens(&["build", "--debug"]), vec![]).unwrap();
    assert_eq!(dispatch.callback, Some(Callback::Custom(8)));
}

// -------------------------------------------------------------------- values

#[test]
fn integers_are_read_in_base_ten() {
    for (token, expected) in [("0", 0i64), ("+7", 7), ("-9223372036854775808", i64::MIN)] {
        let mut value = Value::Int(5);
        assert_eq!(value.replace_with_expected_value(token, None).unwrap(), Value::Int(expected));
        assert_eq!(value, Value::Int(expected));
    }
    for (token, reason) in [
        ("", "cannot parse integer from empty string"),
        (" 1", "invalid digit found in string"),
        ("0x10", "invalid digit found in string"),
        ("9223372036854775808", "number too large to fit in target type"),
    ] {
        let mut value = Value::Int(5);
        match value.replace_with_expected_value(token, None) {
            Err(FliError::ValueParseError { value: v, expected_type, reason: r }) => {
                assert_eq!(v, token);
                assert_eq!(expected_type, "integer (i64)");
                assert_eq!(r, reason);
            }
            other => panic!("unexpected {:?}", other),
        }
        assert_eq!(value, Value::Int(5));
    }
}

#[test]
fn truth_values_ignore_ascii_case_only() {
    let mut value = Value::Bool(false);
    assert!(value.replace_with_expected_value("yEs", None).is_ok());
    assert_eq!(value, Value::Bool(true));
    for token in ["", "tru", "truth", "on", "ｙ", "Ÿes", " yes"] {
        assert!(value.replace_with_expected_value(token, None).is_err(), "{:?}", token);
        assert_eq!(value, Value::Bool(true));
    }
}

#[test]
fn text_is_kept_verbatim() {
    let mut value = Value::Str(String::new());
    let out = value.replace_with_expected_value("  -- ünï ", None).unwrap();
    assert_eq!(out, Value::Str("  -- ünï ".to_string()));
}

#[test]
fn floats_are_equal_by_their_bits() {
    assert_eq!(Value::Float(1.0f64.to_bits()), Value::Float(1.0f64.to_bits()));
    assert_ne!(Value::Float(0.0f64.to_bits()), Value::Float((-0.0f64).to_bits()));
    assert_ne!(Value::Float(1), Value::Int(1));
}

// --------------------------------------------------------------------- errors

#[test]
fn messages() {
    let s = |x: &str| x.to_string();
    let cases: Vec<(FliError, &str)> = vec![
        (
            FliError::UnknownCommand(s("x"), vec![]),
            "Unknown command: 'x'. Run with --help to see available commands",
        ),
        (
            FliError::value_count_mismatch("-p", 12, 0),
            "Option '-p' expected 12 value(s), got 0",
        ),
        (
            FliError::value_count_mismatch("-p", usize::MAX, 1000),
            "Option '-p' expected 18446744073709551615 value(s), got 1000",
        ),
        (
            FliError::invalid_value("--port", "abc", "not a number"),
            "Invalid value 'abc' for option '--port': not a number",
        ),
        (
            FliError::ValueParseError { value: s("x"), expected_type: s("boolean"), reason: s("no") },
            "Cannot read 'x' as boolean: no",
        ),
        (
            FliError::InvalidStateTransition { from: s("a\"b"), to: s("c\n") },
            "Invalid parse state transition from \"a\\\"b\" to \"c\\n\"",
        ),
        (
            FliError::UnexpectedToken { token: s("--"), position: 207 },
            "Unexpected '--' at position 207",
        ),
        (
            FliError::InvalidOptionConfig { option: s("o"), reason: s("r") },
            "Invalid option configuration for 'o': r",
        ),
        (FliError::InvalidCommandConfig(s("bad")), "Invalid command configuration: bad"),
        (
            FliError::InvalidUsage(s("wrong")),
            "Invalid usage: wrong. Run with --help to see correct usage",
        ),
    ];
    for (error, expected) in cases {
        assert_eq!(error.to_string(), expected);
    }
}

#[test]
fn helper_constructors_fill_their_fields() {
    match FliError::invalid_value("o", "v", "r") {
        FliError::InvalidValue { option, value, reason } => {
            assert_eq!((option.as_str(), value.as_str(), reason.as_str()), ("o", "v", "r"));
        }
        other => panic!("unexpected {:?}", other),
    }
    match FliError::value_count_mismatch("o", 3, 2) {
        FliError::ValueCountMismatch { option, expected, actual } => {
            assert_eq!((option.as_str(), expected, actual), ("o", 3, 2));
        }
        other => panic!("unexpected {:?}", other),
    }
    match FliError::command_mismatch("a", "b") {
        FliError::CommandMismatch { expected, actual } => {
            assert_eq!((expected.as_str(), actual.as_str()), ("a", "b"));
        }
        other => panic!("unexpected {:?}", other),
    }
}

// ------------------------------------------------------------------ distance

#[test]
fn distance_counts_characters() {
    assert_eq!(levenshtein_distance("naïve", "naive"), 1);
    assert_eq!(levenshtein_distance("日本語", "日本"), 1);
    assert_eq!(levenshtein_distance("", "日本"), 2);
    assert_eq!(levenshtein_distance("abc", "cab"), 2);
    assert_eq!(levenshtein_distance("intention", "execution"), 5);
}

#[test]
fn similar_candidates_keep_their_order() {
    let options = vec!["stop".to_string(), "start".to_string(), "status".to_string(), "x".to_string()];
    let found = find_similar("stat", &options, 2);
    assert_eq!(found, vec![&options[0], &options[1], &options[2]]);
    assert!(find_similar("stat", &options, 0).is_empty());
    let none: Vec<String> = vec![];
    assert!(find_similar("stat", &none, 9).is_empty());
}
