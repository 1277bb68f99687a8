//! What parsing means: the chain, the command tree and the error that a
//! token sequence leads to, as mathematical functions.
use vstd::prelude::*;
use crate::command::{child_index, child_names, CommandView};
use crate::option_parser::option_parser::RegistryView;
use crate::error::FliErrorView;
use crate::option_parser::input_parser::{ChainView, ParserView};
use crate::option_parser::value_types::{retype_error, retyped, ValueTypesView, ValueView};

verus! {

/// Where a scan stands between two tokens.
pub enum ScanMode {
    /// Nothing was read at this command yet.
    Fresh,
    /// The last token closed an option.
    AfterOption,
    /// The option with this flag and arity waits for its value.
    Awaiting(Seq<char>, ValueTypesView),
    /// `--` was read: every token from here on is an argument.
    Broken,
    /// The last token was an argument.
    Positional,
}

/// How a parse ends where it succeeds: the chain, and the command and
/// tokens of the deepest subcommand that was entered.
pub struct ParseEnd {
    pub chain: Seq<ChainView>,
    pub command_name: Seq<char>,
    pub args: Seq<Seq<char>>,
    pub float_readings: Seq<Option<u64>>,
}

impl ParseEnd {
    /// The parser as a successful parse leaves it.
    pub open spec fn parser(self) -> ParserView {
        ParserView {
            command: self.command_name,
            args: self.args,
            float_readings: self.float_readings,
            chain: self.chain,
            is_prepared: true,
        }
    }
}

/// What a parse leaves behind: the command tree with the values that were
/// committed, and the chain or the error.
pub struct Outcome {
    pub command: CommandView,
    pub result: Result<ParseEnd, FliErrorView>,
}

/// The floating-point reading of the token at `i`; a token without an entry
/// has none.
pub open spec fn reading_at(readings: Seq<Option<u64>>, i: int) -> Option<u64> {
    if 0 <= i < readings.len() {
        readings[i]
    } else {
        None
    }
}

/// The readings of the tokens from `n` on.
pub open spec fn readings_from(readings: Seq<Option<u64>>, n: int) -> Seq<Option<u64>> {
    if 0 <= n <= readings.len() {
        readings.skip(n)
    } else {
        Seq::empty()
    }
}

/// The type that the value at place `k` of a multi-valued option is read
/// as: that of the value held at that place, or text where none is held.
pub open spec fn template_at(templates: Seq<ValueView>, k: int) -> ValueView {
    if 0 <= k < templates.len() {
        templates[k]
    } else {
        ValueView::Str(Seq::empty())
    }
}

/// The largest number of values that a multi-valued option takes.
pub open spec fn value_limit(count: Option<usize>) -> int {
    match count {
        Some(n) => n as int,
        None => usize::MAX as int,
    }
}

/// The literal that ends option parsing.
pub open spec fn break_token() -> Seq<char> {
    "--"@
}

impl CommandView {
    /// The command after `value` was stored for the option that `flag`
    /// leads to.
    pub open spec fn committed(self, flag: Seq<char>, value: ValueTypesView) -> CommandView {
        match self.registry.position(flag) {
            Some(p) => CommandView { registry: self.registry.with_value(p, value), ..self },
            None => self,
        }
    }

    /// Whether a token that is no flag and no subcommand stands where only
    /// a command name can stand: the command expects no positional argument
    /// and nothing, or a subcommand, was read last.
    pub open spec fn wants_command(self, chain: Seq<ChainView>) -> bool {
        self.expected_positional_args == 0 && (chain.len() == 0 || chain.last() is SubCommand)
    }
}

/// The values that a multi-valued option collects from the token at `i`
/// on: token by token, each read as the type held at its place, until the
/// limit is reached or a registered flag, `--` or the end of the input is
/// met. A token that cannot be read ends the parse with its error.
pub open spec fn gather(
    registry: RegistryView,
    templates: Seq<ValueView>,
    args: Seq<Seq<char>>,
    readings: Seq<Option<u64>>,
    i: int,
    taken: Seq<ValueView>,
    limit: int,
) -> Result<Seq<ValueView>, FliErrorView>
    decreases args.len() - i,
{
    if i < 0 || i >= args.len() || taken.len() >= limit || registry.has_option(args[i])
        || args[i] == break_token() {
        Ok(taken)
    } else {
        let template = template_at(templates, taken.len() as int);
        match retyped(template, args[i], reading_at(readings, i)) {
            Some(v) => gather(registry, templates, args, readings, i + 1, taken.push(v), limit),
            None => Err(retype_error(template, args[i])),
        }
    }
}

/// A collection takes no more tokens than stand behind the cursor.
pub proof fn lemma_gather_bound(
    registry: RegistryView,
    templates: Seq<ValueView>,
    args: Seq<Seq<char>>,
    readings: Seq<Option<u64>>,
    i: int,
    taken: Seq<ValueView>,
    limit: int,
)
    requires
        0 <= i <= args.len(),
    ensures
        match gather(registry, templates, args, readings, i, taken, limit) {
            Ok(values) => taken.len() <= values.len() <= taken.len() + (args.len() - i),
            Err(_) => true,
        },
    decreases args.len() - i,
{
    if !(i >= args.len() || taken.len() >= limit || registry.has_option(args[i]) || args[i]
        == break_token()) {
        let template = template_at(templates, taken.len() as int);
        match retyped(template, args[i], reading_at(readings, i)) {
            Some(v) => {
                lemma_gather_bound(registry, templates, args, readings, i + 1, taken.push(v), limit);
            },
            None => {},
        }
    }
}

/// A parse that ends in `error`.
pub open spec fn failed(command: CommandView, error: FliErrorView) -> Outcome {
    Outcome { command, result: Err(error) }
}

/// A parse that ends well at `command` with `chain`.
pub open spec fn finished(
    command: CommandView,
    args: Seq<Seq<char>>,
    readings: Seq<Option<u64>>,
    chain: Seq<ChainView>,
) -> Outcome {
    Outcome {
        command,
        result: Ok(
            ParseEnd { chain, command_name: command.name, args, float_readings: readings },
        ),
    }
}

/// The chain after a waiting option was settled without a value: an
/// option whose value is optional enters the chain with no value; any other
/// leaves the chain as it is.
pub open spec fn settled(mode: ScanMode, chain: Seq<ChainView>) -> Seq<ChainView> {
    match mode {
        ScanMode::Awaiting(flag, ValueTypesView::OptionalSingle(_)) => chain.push(
            ChainView::Option(flag, ValueTypesView::OptionalSingle(None)),
        ),
        ScanMode::Awaiting(flag, ValueTypesView::OptionalMultiple(_, count)) => chain.push(
            ChainView::Option(flag, ValueTypesView::OptionalMultiple(None, count)),
        ),
        _ => chain,
    }
}

/// The end of the input: an option that still waits for a required value
/// is an error; one that waits for an optional value enters the chain
/// without a value.
pub open spec fn scan_end(
    command: CommandView,
    args: Seq<Seq<char>>,
    readings: Seq<Option<u64>>,
    mode: ScanMode,
    chain: Seq<ChainView>,
) -> Outcome {
    match mode {
        ScanMode::Awaiting(flag, ValueTypesView::RequiredSingle(_)) => failed(
            command,
            FliErrorView::MissingValue { option: flag },
        ),
        ScanMode::Awaiting(flag, ValueTypesView::RequiredMultiple(_, _)) => failed(
            command,
            FliErrorView::MissingValue { option: flag },
        ),
        _ => finished(command, args, readings, settled(mode, chain)),
    }
}

/// The second component of the measure by which `scan` ends: a step that
/// settles a waiting option without taking a token lowers it.
pub open spec fn waiting_rank(mode: ScanMode) -> int {
    if mode is Awaiting {
        3
    } else {
        1
    }
}

/// The parse of the tokens from `i` on at `command`, where the scan stands
/// in `mode` and has read `chain` so far.
///
/// Behind `--` every token is an argument. `--` itself is legal behind an
/// option, also one that still waits for its value: an optional value is
/// then absent, and an option that requires one is dropped. Anywhere else
/// `--` is an error. A waiting option takes its value or values
/// from the next tokens; a token that is a registered flag is never taken
/// as a value. Otherwise a token is, in this order, a preserved option, a
/// registered option, the name of a subcommand, whose parse takes over all
/// the tokens behind it, an unknown command, or an argument. An argument
/// cannot directly follow an option.
pub open spec fn scan(
    command: CommandView,
    args: Seq<Seq<char>>,
    readings: Seq<Option<u64>>,
    i: int,
    mode: ScanMode,
    chain: Seq<ChainView>,
) -> Outcome
    decreases args.len() - i, waiting_rank(mode),
{
    if i < 0 || i >= args.len() {
        scan_end(command, args, readings, mode, chain)
    } else if mode is Broken {
        scan(command, args, readings, i + 1, ScanMode::Broken, chain.push(ChainView::Argument(args[i])))
    } else if args[i] == break_token() {
        if mode is AfterOption || mode is Awaiting {
            scan(command, args, readings, i + 1, ScanMode::Broken, settled(mode, chain))
        } else {
            failed(
                command,
                FliErrorView::UnexpectedToken { token: break_token(), position: i as usize },
            )
        }
    } else {
        match mode {
            ScanMode::Awaiting(flag, arity) => {
                proof {
                    lemma_value_step_bound(command.registry, args, readings, i, flag, arity);
                }
                match value_step(command.registry, args, readings, i, flag, arity) {
                    Err(e) => failed(command, e),
                    Ok(step) => scan(
                        if step.commit {
                            command.committed(flag, step.value)
                        } else {
                            command
                        },
                        args,
                        readings,
                        step.next,
                        ScanMode::AfterOption,
                        chain.push(ChainView::Option(flag, step.value)),
                    ),
                }
            },
            _ => scan_token(command, args, readings, i, mode, chain),
        }
    }
}

/// What a waiting option takes from the tokens: the value that enters the
/// chain, the cursor behind the tokens that were taken, and whether the
/// value is stored in the registry.
pub struct StepView {
    pub value: ValueTypesView,
    pub next: int,
    pub commit: bool,
}

/// What the option with `flag` and `arity` takes from the token at `i` on.
///
/// A single value is the token at `i`, read as the type of the value that
/// the option holds (text where it holds none). Where that token is a
/// registered flag, a required value is missing, and an optional value is
/// absent: the option enters the chain without a value, nothing is stored
/// and the token is left to be read again. Several values are collected as
/// `gather` describes; a required option that collects none, or another
/// number than the exact count it asks for, misses its value; an optional
/// one that collects none holds no list.
pub open spec fn value_step(
    registry: RegistryView,
    args: Seq<Seq<char>>,
    readings: Seq<Option<u64>>,
    i: int,
    flag: Seq<char>,
    arity: ValueTypesView,
) -> Result<StepView, FliErrorView>
    recommends
        0 <= i < args.len(),
{
    let token = args[i];
    let is_flag = registry.has_option(token);
    match arity {
        ValueTypesView::RequiredSingle(default) => {
            if is_flag {
                Err(FliErrorView::MissingValue { option: flag })
            } else {
                match retyped(default, token, reading_at(readings, i)) {
                    Some(v) => Ok(
                        StepView {
                            value: ValueTypesView::RequiredSingle(v),
                            next: i + 1,
                            commit: true,
                        },
                    ),
                    None => Err(retype_error(default, token)),
                }
            }
        },
        ValueTypesView::OptionalSingle(default) => {
            if is_flag {
                Ok(StepView { value: ValueTypesView::OptionalSingle(None), next: i, commit: false })
            } else {
                let template = match default {
                    Some(d) => d,
                    None => ValueView::Str(Seq::empty()),
                };
                match retyped(template, token, reading_at(readings, i)) {
                    Some(v) => Ok(
                        StepView {
                            value: ValueTypesView::OptionalSingle(Some(v)),
                            next: i + 1,
                            commit: true,
                        },
                    ),
                    None => Err(retype_error(template, token)),
                }
            }
        },
        ValueTypesView::RequiredMultiple(default, count) => {
            match gather(registry, default, args, readings, i, Seq::empty(), value_limit(count)) {
                Err(e) => Err(e),
                Ok(values) => {
                    if values.len() == 0 || (count is Some && values.len() != count->0) {
                        Err(FliErrorView::MissingValue { option: flag })
                    } else {
                        Ok(
                            StepView {
                                value: ValueTypesView::RequiredMultiple(values, count),
                                next: i + values.len(),
                                commit: true,
                            },
                        )
                    }
                },
            }
        },
        ValueTypesView::OptionalMultiple(default, count) => {
            let templates = match default {
                Some(d) => d,
                None => Seq::empty(),
            };
            match gather(registry, templates, args, readings, i, Seq::empty(), value_limit(count)) {
                Err(e) => Err(e),
                Ok(values) => Ok(
                    StepView {
                        value: if values.len() == 0 {
                            ValueTypesView::OptionalMultiple(None, count)
                        } else {
                            ValueTypesView::OptionalMultiple(Some(values), count)
                        },
                        next: i + values.len(),
                        commit: true,
                    },
                ),
            }
        },
        ValueTypesView::Flag => Err(
            FliErrorView::Internal("AcceptingValue state with None value type"@),
        ),
    }
}

/// A waiting option takes tokens from the cursor on and none behind the
/// end of the input.
pub proof fn lemma_value_step_bound(
    registry: RegistryView,
    args: Seq<Seq<char>>,
    readings: Seq<Option<u64>>,
    i: int,
    flag: Seq<char>,
    arity: ValueTypesView,
)
    requires
        0 <= i < args.len(),
    ensures
        match value_step(registry, args, readings, i, flag, arity) {
            Ok(step) => i <= step.next <= args.len(),
            Err(_) => true,
        },
{
    match arity {
        ValueTypesView::RequiredMultiple(default, count) => {
            lemma_gather_bound(
                registry,
                default,
                args,
                readings,
                i,
                Seq::empty(),
                value_limit(count),
            );
        },
        ValueTypesView::OptionalMultiple(default, count) => {
            let templates = match default {
                Some(d) => d,
                None => Seq::empty(),
            };
            lemma_gather_bound(
                registry,
                templates,
                args,
                readings,
                i,
                Seq::empty(),
                value_limit(count),
            );
        },
        _ => {},
    }
}

/// The step of `scan` at a token that is not `--` and meets no waiting
/// option.
pub open spec fn scan_token(
    command: CommandView,
    args: Seq<Seq<char>>,
    readings: Seq<Option<u64>>,
    i: int,
    mode: ScanMode,
    chain: Seq<ChainView>,
) -> Outcome
    recommends
        0 <= i < args.len(),
        !(mode is Awaiting),
    decreases args.len() - i, 0int,
    when 0 <= i < args.len()
{
    let token = args[i];
    if command.has_preserved_option(token) {
        scan(
            command,
            args,
            readings,
            i + 1,
            ScanMode::AfterOption,
            chain.push(ChainView::IsPreservedOption(token)),
        )
    } else if command.registry.has_option(token) {
        let arity = command.registry.expected_value_type(token)->0;
        if arity is Flag {
            scan(
                command,
                args,
                readings,
                i + 1,
                ScanMode::AfterOption,
                chain.push(ChainView::Option(token, ValueTypesView::Flag)),
            )
        } else {
            scan(command, args, readings, i + 1, ScanMode::Awaiting(token, arity), chain)
        }
    } else if child_index(command.children, token) is Some {
        let k = child_index(command.children, token)->0;
        let below = scan(
            command.children[k],
            args.skip(i + 1),
            readings_from(readings, i + 1),
            0,
            ScanMode::Fresh,
            chain.push(ChainView::SubCommand(token)),
        );
        Outcome {
            command: CommandView { children: command.children.update(k, below.command), ..command },
            result: below.result,
        }
    } else if command.wants_command(chain) {
        failed(command, FliErrorView::UnknownCommand(token, child_names(command.children)))
    } else if mode is AfterOption {
        failed(
            command,
            FliErrorView::InvalidStateTransition { from: "InOption"@, to: "InArgument"@ },
        )
    } else {
        scan(
            command,
            args,
            readings,
            i + 1,
            ScanMode::Positional,
            chain.push(ChainView::Argument(token)),
        )
    }
}

/// The parse of a parser's tokens at `command`: a parser made for another
/// command is refused; otherwise the tokens are scanned from the first on.
pub open spec fn parse(command: CommandView, parser: ParserView) -> Outcome {
    if parser.command != command.name {
        failed(
            command,
            FliErrorView::CommandMismatch { expected: command.name, actual: parser.command },
        )
    } else {
        scan(command, parser.args, parser.float_readings, 0, ScanMode::Fresh, parser.chain)
    }
}

} // verus!
