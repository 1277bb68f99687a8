//! The errors that parsing and dispatch report.
use vstd::prelude::*;
use vstd::string::*;
use crate::text::{debug_string, debug_text, decimal_text, usize_to_string};

verus! {

/// Everything that can go wrong while a command line is parsed or run.
#[derive(Debug, Clone)]
#[allow(inconsistent_fields)]
pub enum FliError {
    /// The parser was made for one command and handed another.
    CommandMismatch { expected: String, actual: String },
    /// A token stood where a command name was expected and named none; the
    /// list holds the names that would have been accepted.
    UnknownCommand(String, Vec<String>),
    /// An option flag that no registry knows.
    UnknownOption(String),
    /// An option that needs a value got none.
    MissingValue { option: String },
    /// An option that takes no value got one.
    UnexpectedValue { option: String, value: String },
    /// An option got another number of values than it asks for.
    ValueCountMismatch { option: String, expected: usize, actual: usize },
    /// A value was refused for an option.
    InvalidValue { option: String, value: String, reason: String },
    /// A token could not be read as the type its option holds.
    ValueParseError { value: String, expected_type: String, reason: String },
    /// The state machine was asked for a step it does not allow.
    InvalidStateTransition { from: String, to: String },
    /// A token stood where it is not allowed.
    UnexpectedToken { token: String, position: usize },
    /// An option was declared wrongly.
    InvalidOptionConfig { option: String, reason: String },
    /// A command was declared wrongly.
    InvalidCommandConfig(String),
    /// A flag that starts with neither `-` nor `--`.
    InvalidFlagFormat { flag: String },
    /// A flag that the registry does not hold.
    OptionNotFound(String),
    /// The parser was used before `prepare`.
    ParserNotPrepared,
    /// A path that should be unreachable was taken.
    Internal(String),
    /// The command was used wrongly.
    InvalidUsage(String),
}


/// The mathematical content of a `FliError`.
#[allow(inconsistent_fields)]
pub enum FliErrorView {
    CommandMismatch { expected: Seq<char>, actual: Seq<char> },
    UnknownCommand(Seq<char>, Seq<Seq<char>>),
    UnknownOption(Seq<char>),
    MissingValue { option: Seq<char> },
    UnexpectedValue { option: Seq<char>, value: Seq<char> },
    ValueCountMismatch { option: Seq<char>, expected: usize, actual: usize },
    InvalidValue { option: Seq<char>, value: Seq<char>, reason: Seq<char> },
    ValueParseError { value: Seq<char>, expected_type: Seq<char>, reason: Seq<char> },
    InvalidStateTransition { from: Seq<char>, to: Seq<char> },
    UnexpectedToken { token: Seq<char>, position: usize },
    InvalidOptionConfig { option: Seq<char>, reason: Seq<char> },
    InvalidCommandConfig(Seq<char>),
    InvalidFlagFormat { flag: Seq<char> },
    OptionNotFound(Seq<char>),
    ParserNotPrepared,
    Internal(Seq<char>),
    InvalidUsage(Seq<char>),
}

impl View for FliError {
    type V = FliErrorView;

    open spec fn view(&self) -> FliErrorView {
        match self {
            FliError::CommandMismatch { expected, actual } => FliErrorView::CommandMismatch {
                expected: expected@,
                actual: actual@,
            },
            FliError::UnknownCommand(name, available) => FliErrorView::UnknownCommand(
                name@,
                crate::text::texts(available@),
            ),
            FliError::UnknownOption(flag) => FliErrorView::UnknownOption(flag@),
            FliError::MissingValue { option } => FliErrorView::MissingValue { option: option@ },
            FliError::UnexpectedValue { option, value } => FliErrorView::UnexpectedValue {
                option: option@,
                value: value@,
            },
            FliError::ValueCountMismatch { option, expected, actual } =>
                FliErrorView::ValueCountMismatch {
                    option: option@,
                    expected: *expected,
                    actual: *actual,
                },
            FliError::InvalidValue { option, value, reason } => FliErrorView::InvalidValue {
                option: option@,
                value: value@,
                reason: reason@,
            },
            FliError::ValueParseError { value, expected_type, reason } =>
                FliErrorView::ValueParseError {
                    value: value@,
                    expected_type: expected_type@,
                    reason: reason@,
                },
            FliError::InvalidStateTransition { from, to } => FliErrorView::InvalidStateTransition {
                from: from@,
                to: to@,
            },
            FliError::UnexpectedToken { token, position } => FliErrorView::UnexpectedToken {
                token: token@,
                position: *position,
            },
            FliError::InvalidOptionConfig { option, reason } => FliErrorView::InvalidOptionConfig {
                option: option@,
                reason: reason@,
            },
            FliError::InvalidCommandConfig(reason) => FliErrorView::InvalidCommandConfig(reason@),
            FliError::InvalidFlagFormat { flag } => FliErrorView::InvalidFlagFormat { flag: flag@ },
            FliError::OptionNotFound(flag) => FliErrorView::OptionNotFound(flag@),
            FliError::ParserNotPrepared => FliErrorView::ParserNotPrepared,
            FliError::Internal(reason) => FliErrorView::Internal(reason@),
            FliError::InvalidUsage(reason) => FliErrorView::InvalidUsage(reason@),
        }
    }
}

impl FliError {
    /// The text that describes the error to a user.
    pub open spec fn message(&self) -> Seq<char> {
        match self {
            FliError::CommandMismatch { expected, actual } => "Command mismatch: expected '"@
                + expected@ + "', got '"@ + actual@ + "'"@,
            FliError::UnknownCommand(name, _) => "Unknown command: '"@ + name@
                + "'. Run with --help to see available commands"@,
            FliError::UnknownOption(flag) => "Unknown option: '"@ + flag@
                + "'. Run with --help to see available options"@,
            FliError::MissingValue { option } => "Missing required value for option '"@ + option@
                + "'"@,
            FliError::UnexpectedValue { option, value } => "Option '"@ + option@
                + "' does not accept values, but '"@ + value@ + "' was provided"@,
            FliError::ValueCountMismatch { option, expected, actual } => "Option '"@ + option@
                + "' expected "@ + decimal_text(*expected as nat) + " value(s), got "@
                + decimal_text(*actual as nat),
            FliError::InvalidValue { option, value, reason } => "Invalid value '"@ + value@
                + "' for option '"@ + option@ + "': "@ + reason@,
            FliError::ValueParseError { value, expected_type, reason } => "Cannot read '"@ + value@
                + "' as "@ + expected_type@ + ": "@ + reason@,
            FliError::InvalidStateTransition { from, to } => "Invalid parse state transition from "@
                + debug_text(from@) + " to "@ + debug_text(to@),
            FliError::UnexpectedToken { token, position } => "Unexpected '"@ + token@
                + "' at position "@ + decimal_text(*position as nat),
            FliError::InvalidOptionConfig { option, reason } =>
                "Invalid option configuration for '"@ + option@ + "': "@ + reason@,
            FliError::InvalidCommandConfig(reason) => "Invalid command configuration: "@ + reason@,
            FliError::InvalidFlagFormat { flag } => "Invalid flag format: '"@ + flag@
                + "'. Flags must start with '-' or '--'"@,
            FliError::OptionNotFound(flag) => "Option '"@ + flag@ + "' not found in parser"@,
            FliError::ParserNotPrepared =>
                "Parser must be prepared before use. Call prepare() first"@,
            FliError::Internal(reason) => "Internal error: "@ + reason@,
            FliError::InvalidUsage(reason) => "Invalid usage: "@ + reason@
                + ". Run with --help to see correct usage"@,
        }
    }

    /// Writes the error as `message` describes it.
    pub fn to_string(&self) -> (s: String)
        ensures
            s@ == self.message(),
    {
        match self {
            FliError::CommandMismatch { expected, actual } => {
                let mut s = String::from_str("Command mismatch: expected '");
                s.append(expected.as_str());
                s.append("', got '");
                s.append(actual.as_str());
                s.append("'");
                s
            },
            FliError::UnknownCommand(name, _) => {
                let mut s = String::from_str("Unknown command: '");
                s.append(name.as_str());
                s.append("'. Run with --help to see available commands");
                s
            },
            FliError::UnknownOption(flag) => {
                let mut s = String::from_str("Unknown option: '");
                s.append(flag.as_str());
                s.append("'. Run with --help to see available options");
                s
            },
            FliError::MissingValue { option } => {
                let mut s = String::from_str("Missing required value for option '");
                s.append(option.as_str());
                s.append("'");
                s
            },
            FliError::UnexpectedValue { option, value } => {
                let mut s = String::from_str("Option '");
                s.append(option.as_str());
                s.append("' does not accept values, but '");
                s.append(value.as_str());
                s.append("' was provided");
                s
            },
            FliError::ValueCountMismatch { option, expected, actual } => {
                let mut s = String::from_str("Option '");
                s.append(option.as_str());
                s.append("' expected ");
                s.append(usize_to_string(*expected).as_str());
                s.append(" value(s), got ");
                s.append(usize_to_string(*actual).as_str());
                s
            },
            FliError::InvalidValue { option, value, reason } => {
                let mut s = String::from_str("Invalid value '");
                s.append(value.as_str());
                s.append("' for option '");
                s.append(option.as_str());
                s.append("': ");
                s.append(reason.as_str());
                s
            },
            FliError::ValueParseError { value, expected_type, reason } => {
                let mut s = String::from_str("Cannot read '");
                s.append(value.as_str());
                s.append("' as ");
                s.append(expected_type.as_str());
                s.append(": ");
                s.append(reason.as_str());
                s
            },
            FliError::InvalidStateTransition { from, to } => {
                let mut s = String::from_str("Invalid parse state transition from ");
                s.append(debug_string(from.as_str()).as_str());
                s.append(" to ");
                s.append(debug_string(to.as_str()).as_str());
                s
            },
            FliError::UnexpectedToken { token, position } => {
                let mut s = String::from_str("Unexpected '");
                s.append(token.as_str());
                s.append("' at position ");
                s.append(usize_to_string(*position).as_str());
                s
            },
            FliError::InvalidOptionConfig { option, reason } => {
                let mut s = String::from_str("Invalid option configuration for '");
                s.append(option.as_str());
                s.append("': ");
                s.append(reason.as_str());
                s
            },
            FliError::InvalidCommandConfig(reason) => {
                let mut s = String::from_str("Invalid command configuration: ");
                s.append(reason.as_str());
                s
            },
            FliError::InvalidFlagFormat { flag } => {
                let mut s = String::from_str("Invalid flag format: '");
                s.append(flag.as_str());
                s.append("'. Flags must start with '-' or '--'");
                s
            },
            FliError::OptionNotFound(flag) => {
                let mut s = String::from_str("Option '");
                s.append(flag.as_str());
                s.append("' not found in parser");
                s
            },
            FliError::ParserNotPrepared => {
                String::from_str("Parser must be prepared before use. Call prepare() first")
            },
            FliError::Internal(reason) => {
                let mut s = String::from_str("Internal error: ");
                s.append(reason.as_str());
                s
            },
            FliError::InvalidUsage(reason) => {
                let mut s = String::from_str("Invalid usage: ");
                s.append(reason.as_str());
                s.append(". Run with --help to see correct usage");
                s
            },
        }
    }

    /// The error for a parser that was handed the command `actual` where it
    /// was made for `expected`.
    pub fn command_mismatch(expected: &str, actual: &str) -> (e: FliError)
        ensures
            e matches FliError::CommandMismatch { expected: x, actual: a }
                && x@ == expected@ && a@ == actual@,
    {
        FliError::CommandMismatch {
            expected: String::from_str(expected),
            actual: String::from_str(actual),
        }
    }

    /// The error for an option that was left without its value.
    pub fn missing_value(option: &str) -> (e: FliError)
        ensures
            e matches FliError::MissingValue { option: o } && o@ == option@,
    {
        FliError::MissingValue { option: String::from_str(option) }
    }

    /// The error for a value that an option refuses, with the reason.
    pub fn invalid_value(option: &str, value: &str, reason: &str) -> (e: FliError)
        ensures
            e matches FliError::InvalidValue { option: o, value: v, reason: r }
                && o@ == option@ && v@ == value@ && r@ == reason@,
    {
        FliError::InvalidValue {
            option: String::from_str(option),
            value: String::from_str(value),
            reason: String::from_str(reason),
        }
    }

    /// The error for an option that got `actual` values where it asks for
    /// `expected`.
    pub fn value_count_mismatch(option: &str, expected: usize, actual: usize) -> (e: FliError)
        ensures
            e matches FliError::ValueCountMismatch { option: o, expected: x, actual: a }
                && o@ == option@ && x == expected && a == actual,
    {
        FliError::ValueCountMismatch { option: String::from_str(option), expected, actual }
    }
}

} // verus!
