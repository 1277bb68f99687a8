//! The parser that turns a token vector into a chain of subcommands,
//! options and arguments.
use vstd::prelude::*;
use vstd::string::*;
use crate::command::{lemma_child_index, FliCommand};
use crate::error::FliError;
use crate::option_parser::option_parser::CommandOptionsParser;
use crate::option_parser::parse_model::{
    break_token, gather, lemma_gather_bound, lemma_value_step_bound, parse, reading_at,
    readings_from, scan, scan_token, template_at, value_step, ScanMode, StepView,
};
use crate::option_parser::parse_state::{ParseState, StateView};
use crate::option_parser::value_types::{
    values_view, Value, ValueTypes, ValueTypesView, ValueView,
};
use crate::text::{duplicate_strings, same_text, texts};

verus! {

/// One element of a parsed command line, in token order.
#[derive(Debug, Clone)]
pub enum CommandChain {
    /// The name of a subcommand that was entered.
    SubCommand(String),
    /// An option, by the flag that was written, with the value read for it.
    Option(String, ValueTypes),
    /// A positional argument.
    Argument(String),
    /// An option that runs its own handler at once, by the token written.
    IsPreservedOption(String),
}

/// The mathematical content of a chain element.
pub enum ChainView {
    SubCommand(Seq<char>),
    Option(Seq<char>, ValueTypesView),
    Argument(Seq<char>),
    IsPreservedOption(Seq<char>),
}

impl View for CommandChain {
    type V = ChainView;

    open spec fn view(&self) -> ChainView {
        match self {
            CommandChain::SubCommand(name) => ChainView::SubCommand(name@),
            CommandChain::Option(flag, value) => ChainView::Option(flag@, value@),
            CommandChain::Argument(token) => ChainView::Argument(token@),
            CommandChain::IsPreservedOption(flag) => ChainView::IsPreservedOption(flag@),
        }
    }
}

impl CommandChain {
    /// A copy of the element.
    pub fn duplicate(&self) -> (c: CommandChain)
        ensures
            c@ == self@,
    {
        match self {
            CommandChain::SubCommand(name) => CommandChain::SubCommand(name.clone()),
            CommandChain::Option(flag, value) => CommandChain::Option(
                flag.clone(),
                value.duplicate(),
            ),
            CommandChain::Argument(token) => CommandChain::Argument(token.clone()),
            CommandChain::IsPreservedOption(flag) => CommandChain::IsPreservedOption(flag.clone()),
        }
    }
}

/// The contents of a chain, element by element.
pub open spec fn chain_view(chain: Seq<CommandChain>) -> Seq<ChainView> {
    Seq::new(chain.len(), |i: int| chain[i]@)
}

/// A copy of the elements of `chain` from `start` on; nothing where `start`
/// lies behind its end.
pub fn duplicate_chain_from(chain: &Vec<CommandChain>, start: usize) -> (out: Vec<CommandChain>)
    ensures
        chain_view(out@) == if start <= chain@.len() {
            chain_view(chain@).skip(start as int)
        } else {
            Seq::empty()
        },
{
    let mut out: Vec<CommandChain> = Vec::new();
    if start > chain.len() {
        assert(chain_view(out@) =~= Seq::<ChainView>::empty());
        return out;
    }
    let mut i: usize = start;
    while i < chain.len()
        invariant
            start <= i <= chain.len(),
            out.len() == i - start,
            forall|j: int| 0 <= j < out.len() ==> out@[j]@ == chain@[start + j]@,
        decreases chain.len() - i,
    {
        out.push(chain[i].duplicate());
        i += 1;
    }
    assert(chain_view(out@) =~= chain_view(chain@).skip(start as int));
    out
}


/// What a waiting option took from the tokens: the value for the chain, the
/// cursor behind the tokens taken, and whether the value is to be stored.
pub struct ValueStep {
    pub value: ValueTypes,
    pub next: usize,
    pub commit: bool,
}

impl View for ValueStep {
    type V = StepView;

    open spec fn view(&self) -> StepView {
        StepView { value: self.value@, next: self.next as int, commit: self.commit }
    }
}

/// A copy of the strings from `start` on.
fn strings_from(items: &Vec<String>, start: usize) -> (out: Vec<String>)
    requires
        start <= items.len(),
    ensures
        texts(out@) == texts(items@).skip(start as int),
{
    let mut out: Vec<String> = Vec::new();
    let mut i: usize = start;
    while i < items.len()
        invariant
            start <= i <= items.len(),
            out.len() == i - start,
            forall|j: int| 0 <= j < out.len() ==> out@[j]@ == items@[start + j]@,
        decreases items.len() - i,
    {
        out.push(items[i].clone());
        i += 1;
    }
    assert(texts(out@) =~= texts(items@).skip(start as int));
    out
}

/// The floating-point readings of the tokens from `start` on.
fn readings_tail(readings: &Vec<Option<u64>>, start: usize) -> (out: Vec<Option<u64>>)
    ensures
        out@ == readings_from(readings@, start as int),
{
    let mut out: Vec<Option<u64>> = Vec::new();
    if start > readings.len() {
        assert(out@ =~= readings_from(readings@, start as int));
        return out;
    }
    let mut i: usize = start;
    while i < readings.len()
        invariant
            start <= i <= readings.len(),
            out.len() == i - start,
            forall|j: int| 0 <= j < out.len() ==> out@[j] == readings@[start + j],
        decreases readings.len() - i,
    {
        out.push(readings[i]);
        i += 1;
    }
    assert(out@ =~= readings_from(readings@, start as int));
    out
}

/// The floating-point reading of the token at `i`.
fn reading_of(readings: &Vec<Option<u64>>, i: usize) -> (r: Option<u64>)
    ensures
        r == reading_at(readings@, i as int),
{
    if i < readings.len() {
        readings[i]
    } else {
        None
    }
}

/// Collects the values of a multi-valued option from the token at `start`
/// on, as `gather` describes it.
fn gather_values(
    registry: &CommandOptionsParser,
    templates: &Vec<Value>,
    args: &Vec<String>,
    readings: &Vec<Option<u64>>,
    start: usize,
    limit: usize,
) -> (r: Result<Vec<Value>, FliError>)
    requires
        start <= args.len(),
    ensures
        match gather(
            registry@,
            values_view(templates@),
            texts(args@),
            readings@,
            start as int,
            Seq::empty(),
            limit as int,
        ) {
            Ok(values) => r matches Ok(out) && values_view(out@) == values,
            Err(e) => r matches Err(x) && x@ == e,
        },
{
    let mut values: Vec<Value> = Vec::new();
    let mut i: usize = start;
    let ghost goal = gather(
        registry@,
        values_view(templates@),
        texts(args@),
        readings@,
        start as int,
        Seq::empty(),
        limit as int,
    );
    proof {
        assert(values_view(values@) =~= Seq::<ValueView>::empty());
    }
    while i < args.len() && values.len() < limit
        invariant
            start <= i <= args.len(),
            values.len() == i - start,
            goal == gather(
                registry@,
                values_view(templates@),
                texts(args@),
                readings@,
                start as int,
                Seq::empty(),
                limit as int,
            ),
            goal == gather(
                registry@,
                values_view(templates@),
                texts(args@),
                readings@,
                i as int,
                values_view(values@),
                limit as int,
            ),
        decreases args.len() - i,
    {
        let current = args[i].as_str();
        let ghost taken = values_view(values@);
        assert(texts(args@)[i as int] == current@);
        assert(taken.len() == values.len());
        if registry.has_option(current) {
            assert(goal == Ok::<Seq<ValueView>, crate::error::FliErrorView>(taken));
            return Ok(values);
        }
        if same_text(current, "--") {
            assert(current@ == break_token());
            assert(goal == Ok::<Seq<ValueView>, crate::error::FliErrorView>(taken));
            return Ok(values);
        }
        let ghost template = template_at(values_view(templates@), values.len() as int);
        let mut slot = if values.len() < templates.len() {
            templates[values.len()].duplicate()
        } else {
            Value::Str(String::new())
        };
        assert(slot@ == template);
        match slot.replace_with_expected_value(current, reading_of(readings, i)) {
            Ok(_) => {},
            Err(e) => {
                return Err(e);
            },
        }
        values.push(slot);
        assert(values_view(values@) =~= taken.push(slot@));
        i += 1;
    }
    assert(values_view(values@).len() == values.len());
    Ok(values)
}

/// Reads what the waiting option with `flag` and `arity` takes from the
/// token at `i` on, as `value_step` describes it.
fn read_value(
    registry: &CommandOptionsParser,
    args: &Vec<String>,
    readings: &Vec<Option<u64>>,
    i: usize,
    flag: &str,
    arity: &ValueTypes,
) -> (r: Result<ValueStep, FliError>)
    requires
        i < args.len(),
    ensures
        match value_step(registry@, texts(args@), readings@, i as int, flag@, arity@) {
            Ok(step) => r matches Ok(out) && out@ == step,
            Err(e) => r matches Err(x) && x@ == e,
        },
{
    let token = args[i].as_str();
    assert(texts(args@)[i as int] == token@);
    match arity {
        ValueTypes::RequiredSingle(default) => {
            if registry.has_option(token) {
                return Err(FliError::missing_value(flag));
            }
            let mut slot = default.duplicate();
            match slot.replace_with_expected_value(token, reading_of(readings, i)) {
                Ok(_) => Ok(
                    ValueStep { value: ValueTypes::RequiredSingle(slot), next: i + 1, commit: true },
                ),
                Err(e) => Err(e),
            }
        },
        ValueTypes::OptionalSingle(default) => {
            if registry.has_option(token) {
                return Ok(
                    ValueStep { value: ValueTypes::OptionalSingle(None), next: i, commit: false },
                );
            }
            let mut slot = match default {
                Some(d) => d.duplicate(),
                None => Value::Str(String::new()),
            };
            match slot.replace_with_expected_value(token, reading_of(readings, i)) {
                Ok(_) => Ok(
                    ValueStep {
                        value: ValueTypes::OptionalSingle(Some(slot)),
                        next: i + 1,
                        commit: true,
                    },
                ),
                Err(e) => Err(e),
            }
        },
        ValueTypes::RequiredMultiple(default, count) => {
            let limit = match count {
                Some(n) => *n,
                None => usize::MAX,
            };
            proof {
                lemma_gather_bound(
                    registry@,
                    values_view(default@),
                    texts(args@),
                    readings@,
                    i as int,
                    Seq::empty(),
                    limit as int,
                );
            }
            let values = match gather_values(registry, default, args, readings, i, limit) {
                Ok(values) => values,
                Err(e) => {
                    return Err(e);
                },
            };
            if values.len() == 0 {
                return Err(FliError::missing_value(flag));
            }
            match count {
                Some(expected) => {
                    if values.len() != *expected {
                        return Err(FliError::missing_value(flag));
                    }
                },
                None => {},
            }
            let next = i + values.len();
            Ok(ValueStep { value: ValueTypes::RequiredMultiple(values, *count), next, commit: true })
        },
        ValueTypes::OptionalMultiple(default, count) => {
            let limit = match count {
                Some(n) => *n,
                None => usize::MAX,
            };
            let none: Vec<Value> = Vec::new();
            let templates = match default {
                Some(d) => d,
                None => &none,
            };
            proof {
                assert(values_view(none@) =~= Seq::<ValueView>::empty());
                lemma_gather_bound(
                    registry@,
                    values_view(templates@),
                    texts(args@),
                    readings@,
                    i as int,
                    Seq::empty(),
                    limit as int,
                );
            }
            let values = match gather_values(registry, templates, args, readings, i, limit) {
                Ok(values) => values,
                Err(e) => {
                    return Err(e);
                },
            };
            let next = i + values.len();
            let value = if values.len() == 0 {
                ValueTypes::OptionalMultiple(None, *count)
            } else {
                ValueTypes::OptionalMultiple(Some(values), *count)
            };
            Ok(ValueStep { value, next, commit: true })
        },
        ValueTypes::Flag => Err(
            FliError::Internal(String::from_str("AcceptingValue state with None value type")),
        ),
    }
}

/// The state of one parse: the command it is for, the tokens behind the
/// command name, and the chain read from them.
#[derive(Debug, Clone)]
pub struct InputArgsParser {
    /// The name of the command that the tokens are for.
    pub command: String,
    /// The tokens behind the command name.
    pub args: Vec<String>,
    /// For each token, by its index, the bit pattern of the floating-point
    /// number it spells, if it spells one. A token without an entry spells
    /// none.
    pub float_readings: Vec<Option<u64>>,
    /// What was read so far.
    pub command_chain: Vec<CommandChain>,
    /// Whether `prepare` has run to its end.
    pub is_prepared: bool,
}

/// The mathematical content of a parser.
pub struct ParserView {
    pub command: Seq<char>,
    pub args: Seq<Seq<char>>,
    pub float_readings: Seq<Option<u64>>,
    pub chain: Seq<ChainView>,
    pub is_prepared: bool,
}

impl View for InputArgsParser {
    type V = ParserView;

    open spec fn view(&self) -> ParserView {
        ParserView {
            command: self.command@,
            args: texts(self.args@),
            float_readings: self.float_readings@,
            chain: chain_view(self.command_chain@),
            is_prepared: self.is_prepared,
        }
    }
}

impl InputArgsParser {
    /// A parser for `command` over `args` that has read nothing yet. No
    /// token has a floating-point reading until `set_float_readings` gives
    /// them.
    pub fn new(command: String, args: Vec<String>) -> (p: InputArgsParser)
        ensures
            p@.command == command@,
            p@.args == texts(args@),
            p@.float_readings.len() == 0,
            p@.chain.len() == 0,
            !p@.is_prepared,
    {
        InputArgsParser {
            command,
            args,
            float_readings: Vec::new(),
            command_chain: Vec::new(),
            is_prepared: false,
        }
    }

    /// Hands the parser the floating-point readings of its tokens, index by
    /// index.
    pub fn set_float_readings(&mut self, readings: Vec<Option<u64>>)
        ensures
            final(self)@ == (ParserView { float_readings: readings@, ..old(self)@ }),
    {
        self.float_readings = readings;
    }

    /// A parser that holds a finished chain and counts as prepared.
    pub fn from_chain(command: String, chain: Vec<CommandChain>) -> (p: InputArgsParser)
        ensures
            p@.command == command@,
            p@.args.len() == 0,
            p@.float_readings.len() == 0,
            p@.chain == chain_view(chain@),
            p@.is_prepared,
    {
        InputArgsParser {
            command,
            args: Vec::new(),
            float_readings: Vec::new(),
            command_chain: chain,
            is_prepared: true,
        }
    }

    /// A prepared parser for the same command that holds a copy of the chain
    /// from `start_idx` on, and nothing where `start_idx` lies behind the
    /// chain's end.
    pub fn with_remaining_chain(&self, start_idx: usize) -> (p: InputArgsParser)
        ensures
            p@.command == self@.command,
            p@.args.len() == 0,
            p@.float_readings.len() == 0,
            p@.chain == if start_idx < self@.chain.len() {
                self@.chain.skip(start_idx as int)
            } else {
                Seq::empty()
            },
            p@.is_prepared,
    {
        let remaining = duplicate_chain_from(&self.command_chain, start_idx);
        proof {
            if start_idx == self@.chain.len() {
                assert(self@.chain.skip(start_idx as int) =~= Seq::<ChainView>::empty());
            }
        }
        InputArgsParser {
            command: self.command.clone(),
            args: Vec::new(),
            float_readings: Vec::new(),
            command_chain: remaining,
            is_prepared: true,
        }
    }

    /// A copy of the parser.
    pub fn duplicate(&self) -> (p: InputArgsParser)
        ensures
            p@ == self@,
    {
        let chain = duplicate_chain_from(&self.command_chain, 0);
        assert(self@.chain.skip(0) =~= self@.chain);
        InputArgsParser {
            command: self.command.clone(),
            args: duplicate_strings(&self.args),
            float_readings: self.float_readings.clone(),
            command_chain: chain,
            is_prepared: self.is_prepared,
        }
    }

    /// The chain read so far; complete once `prepare` has succeeded.
    pub fn get_parsed_commands_chain(&self) -> (r: &Vec<CommandChain>)
        ensures
            r == &self.command_chain,
    {
        &self.command_chain
    }

    /// The name of the command that the tokens are for.
    pub fn get_command(&self) -> (r: &String)
        ensures
            r == &self.command,
    {
        &self.command
    }

    /// The chain read so far, as `get_parsed_commands_chain` gives it.
    pub fn get_command_chain(&self) -> (r: &Vec<CommandChain>)
        ensures
            r == &self.command_chain,
    {
        &self.command_chain
    }
}


/// The scan mode that a state of the machine stands for; `broken` says
/// that `--` was read.
pub open spec fn mode_of(state: StateView, broken: bool) -> ScanMode {
    if broken {
        ScanMode::Broken
    } else {
        match state {
            StateView::InOption => ScanMode::AfterOption,
            StateView::AcceptingValue(flag, arity) => ScanMode::Awaiting(flag, arity),
            StateView::InArgument => ScanMode::Positional,
            StateView::Breaking => ScanMode::Broken,
            _ => ScanMode::Fresh,
        }
    }
}

impl InputArgsParser {
    /// Parses the tokens against `command` and the commands below it, as
    /// `parse` describes it: the chain grows by what was read, the values
    /// read are stored in the registries of the commands they belong to,
    /// and the parser ends at the deepest subcommand that was entered, with
    /// the tokens behind its name.
    ///
    /// A parser that is prepared already is left as it is, and so is the
    /// command. On an error the parser stays unprepared.
    pub fn prepare(&mut self, command: &mut FliCommand) -> (r: Result<(), FliError>)
        ensures
            old(self)@.is_prepared ==> r is Ok && final(self)@ == old(self)@ && final(command)@
                == old(command)@,
            !old(self)@.is_prepared ==> final(command)@ == parse(old(command)@, old(self)@).command,
            !old(self)@.is_prepared ==> match parse(old(command)@, old(self)@).result {
                Ok(end) => r is Ok && final(self)@ == end.parser(),
                Err(e) => r matches Err(x) && x@ == e && !final(self)@.is_prepared,
            },
        decreases old(self)@.args.len(),
    {
        if self.is_prepared {
            return Ok(());
        }
        let mut state = ParseState::Start;
        if !same_text(self.command.as_str(), command.get_name().as_str()) {
            return Err(
                FliError::command_mismatch(command.get_name().as_str(), self.command.as_str()),
            );
        }
        match state.set_next_mode(ParseState::InCommand) {
            Ok(_) => {},
            Err(e) => {
                return Err(e);
            },
        }
        let ghost args = texts(self.args@);
        let ghost readings = self.float_readings@;
        let ghost goal = parse(old(command)@, old(self)@);
        let mut broken = false;
        let mut i: usize = 0;
        while i < self.args.len()
            invariant
                i <= self.args.len(),
                args == texts(self.args@),
                args == old(self)@.args,
                readings == self.float_readings@,
                !self.is_prepared,
                !old(self)@.is_prepared,
                self@.command == command@.name,
                goal == parse(old(command)@, old(self)@),
                goal == scan(
                    command@,
                    args,
                    readings,
                    i as int,
                    mode_of(state@, broken),
                    self@.chain,
                ),
                state@ is InCommand || state@ is InOption || state@ is AcceptingValue || state@
                    is Breaking || state@ is InArgument,
                broken ==> state@ is Breaking || state@ is InArgument,
                state@ is Breaking ==> broken,
                state@ matches StateView::AcceptingValue(flag, _) ==> command@.registry.has_option(
                    flag,
                ),
            decreases self.args.len() - i, (if state@ is AcceptingValue { 1int } else { 0int }),
        {
            let arg: String = self.args[i].clone();
            let ghost chain = self@.chain;
            assert(args[i as int] == arg@);
            if broken {
                self.command_chain.push(CommandChain::Argument(arg));
                assert(self@.chain =~= chain.push(ChainView::Argument(args[i as int])));
                match state.set_next_mode(ParseState::InArgument) {
                    Ok(_) => {},
                    Err(e) => {
                        return Err(e);
                    },
                }
                i += 1;
            } else if same_text(arg.as_str(), "--") {
                match &state {
                    ParseState::AcceptingValue(option_name, ValueTypes::OptionalSingle(_)) => {
                        self.command_chain.push(
                            CommandChain::Option(
                                option_name.clone(),
                                ValueTypes::OptionalSingle(None),
                            ),
                        );
                        assert(self@.chain =~= chain.push(
                            ChainView::Option(option_name@, ValueTypesView::OptionalSingle(None)),
                        ));
                    },
                    ParseState::AcceptingValue(
                        option_name,
                        ValueTypes::OptionalMultiple(_, count),
                    ) => {
                        self.command_chain.push(
                            CommandChain::Option(
                                option_name.clone(),
                                ValueTypes::OptionalMultiple(None, *count),
                            ),
                        );
                        assert(self@.chain =~= chain.push(
                            ChainView::Option(
                                option_name@,
                                ValueTypesView::OptionalMultiple(None, *count),
                            ),
                        ));
                    },
                    _ => {},
                }
                match state {
                    ParseState::InOption | ParseState::AcceptingValue(_, _) => {
                        match state.set_next_mode(ParseState::Breaking) {
                            Ok(_) => {},
                            Err(e) => {
                                return Err(e);
                            },
                        }
                        broken = true;
                        i += 1;
                    },
                    _ => {
                        return Err(
                            FliError::UnexpectedToken { token: String::from_str("--"), position: i },
                        );
                    },
                }
            } else if let ParseState::AcceptingValue(option_name, expected) = &state {
                let flag = option_name.clone();
                proof {
                    lemma_value_step_bound(
                        command@.registry,
                        args,
                        readings,
                        i as int,
                        flag@,
                        expected@,
                    );
                }
                let step = match read_value(
                    &command.option_parser_builder.option_parser,
                    &self.args,
                    &self.float_readings,
                    i,
                    flag.as_str(),
                    expected,
                ) {
                    Ok(step) => step,
                    Err(e) => {
                        return Err(e);
                    },
                };
                let ghost value = step.value@;
                let ghost before = command@;
                self.command_chain.push(CommandChain::Option(flag.clone(), step.value.duplicate()));
                assert(self@.chain =~= chain.push(ChainView::Option(flag@, value)));
                let next = step.next;
                if step.commit {
                    let registry = command.get_option_parser();
                    match registry.update_option_value(flag.as_str(), step.value) {
                        Ok(_) => {},
                        Err(e) => {
                            return Err(e);
                        },
                    }
                    assert(command@ == before.committed(flag@, value));
                }
                match state.set_next_mode(ParseState::InOption) {
                    Ok(_) => {},
                    Err(e) => {
                        return Err(e);
                    },
                }
                i = next;
            } else if command.has_preserved_option(arg.as_str()) {
                assert(goal == scan_token(
                    command@,
                    args,
                    readings,
                    i as int,
                    mode_of(state@, broken),
                    chain,
                ));
                self.command_chain.push(CommandChain::IsPreservedOption(arg));
                assert(self@.chain =~= chain.push(ChainView::IsPreservedOption(args[i as int])));
                match state.set_next_mode(ParseState::InOption) {
                    Ok(_) => {},
                    Err(e) => {
                        return Err(e);
                    },
                }
                i += 1;
            } else if command.option_parser_builder.option_parser.has_option(arg.as_str()) {
                assert(goal == scan_token(
                    command@,
                    args,
                    readings,
                    i as int,
                    mode_of(state@, broken),
                    chain,
                ));
                let expected = match command.option_parser_builder.option_parser.get_option_expected_value_type(
                    arg.as_str(),
                ) {
                    Some(expected) => expected.duplicate(),
                    None => {
                        return Err(FliError::OptionNotFound(arg));
                    },
                };
                match state.set_next_mode(ParseState::InOption) {
                    Ok(_) => {},
                    Err(e) => {
                        return Err(e);
                    },
                }
                match expected {
                    ValueTypes::Flag => {
                        self.command_chain.push(CommandChain::Option(arg, ValueTypes::Flag));
                        assert(self@.chain =~= chain.push(
                            ChainView::Option(args[i as int], ValueTypesView::Flag),
                        ));
                    },
                    _ => {
                        match state.set_next_mode(ParseState::AcceptingValue(arg, expected)) {
                            Ok(_) => {},
                            Err(e) => {
                                return Err(e);
                            },
                        }
                    },
                }
                i += 1;
            } else {
                let ghost mode = mode_of(state@, broken);
                assert(goal == scan_token(command@, args, readings, i as int, mode, chain));
                match command.find_sub_command(arg.as_str()) {
                    Some(k) => {
                        proof {
                            lemma_child_index(command@.children, arg@);
                        }
                        self.command_chain.push(CommandChain::SubCommand(arg.clone()));
                        assert(self@.chain =~= chain.push(ChainView::SubCommand(args[i as int])));
                        let remaining = strings_from(&self.args, i + 1);
                        let remaining_readings = readings_tail(&self.float_readings, i + 1);
                        self.command = arg;
                        self.args = remaining;
                        self.float_readings = remaining_readings;
                        let ghost parent = command@;
                        let ghost below = scan(
                            parent.children[k as int],
                            args.skip(i + 1),
                            readings_from(readings, i + 1),
                            0,
                            ScanMode::Fresh,
                            chain.push(ChainView::SubCommand(args[i as int])),
                        );
                        assert(goal == scan_token(
                            parent,
                            args,
                            readings,
                            i as int,
                            mode_of(state@, broken),
                            chain,
                        ));
                        assert(goal.command == (crate::command::CommandView {
                            children: parent.children.update(k as int, below.command),
                            ..parent
                        }));
                        let child = command.child_mut(k);
                        assert(parse(child@, self@) == below);
                        let r = self.prepare(child);
                        return r;
                    },
                    None => {},
                }
                let entries = self.command_chain.len();
                let nothing_before = if entries == 0 {
                    true
                } else {
                    match &self.command_chain[entries - 1] {
                        CommandChain::SubCommand(_) => true,
                        _ => false,
                    }
                };

                if command.get_expected_positional_args() == 0 && nothing_before {
                    let available = command.sub_command_names();
                    return Err(FliError::UnknownCommand(arg, available));
                }
                match state.set_next_mode(ParseState::InArgument) {
                    Ok(_) => {},
                    Err(e) => {
                        return Err(e);
                    },
                }
                self.command_chain.push(CommandChain::Argument(arg));
                assert(self@.chain =~= chain.push(ChainView::Argument(args[i as int])));
                i += 1;
            }
        }
        let ghost chain = self@.chain;
        match &state {
            ParseState::AcceptingValue(option_name, expected) => {
                match expected {
                    ValueTypes::RequiredSingle(_) | ValueTypes::RequiredMultiple(_, _) => {
                        return Err(FliError::missing_value(option_name.as_str()));
                    },
                    ValueTypes::OptionalSingle(_) => {
                        self.command_chain.push(
                            CommandChain::Option(
                                option_name.clone(),
                                ValueTypes::OptionalSingle(None),
                            ),
                        );
                        assert(self@.chain =~= chain.push(
                            ChainView::Option(option_name@, ValueTypesView::OptionalSingle(None)),
                        ));
                    },
                    ValueTypes::OptionalMultiple(_, count) => {
                        self.command_chain.push(
                            CommandChain::Option(
                                option_name.clone(),
                                ValueTypes::OptionalMultiple(None, *count),
                            ),
                        );
                        assert(self@.chain =~= chain.push(
                            ChainView::Option(
                                option_name@,
                                ValueTypesView::OptionalMultiple(None, *count),
                            ),
                        ));
                    },
                    ValueTypes::Flag => {},
                }
            },
            _ => {},
        }
        match state.set_next_mode(ParseState::End) {
            Ok(_) => {},
            Err(e) => {
                return Err(e);
            },
        }
        self.is_prepared = true;
        Ok(())
    }
}

} // verus!
