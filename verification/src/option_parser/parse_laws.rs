//! Laws of parsing, proved of the functions in `parse_model`.
use vstd::prelude::*;
use crate::command::{child_index, CommandView};
use crate::error::FliErrorView;
use crate::option_parser::input_parser::ChainView;
use crate::option_parser::parse_model::{
    break_token, finished, lemma_value_step_bound, reading_at, readings_from, scan, scan_token, settled, value_step, waiting_rank, Outcome, ParseEnd, ScanMode,
};
use crate::option_parser::value_types::{retyped, ValueTypesView, ValueView};

verus! {

/// The tokens as argument entries, one for one.
pub open spec fn as_arguments(tokens: Seq<Seq<char>>) -> Seq<ChainView> {
    Seq::new(tokens.len(), |k: int| ChainView::Argument(tokens[k]))
}

/// Behind `--` every token becomes an argument, whatever it is spelled
/// like: the parse ends well, the command is left as it is, and the chain
/// grows by one argument entry for each of the remaining tokens.
pub proof fn law_break_absorbs(
    command: CommandView,
    args: Seq<Seq<char>>,
    readings: Seq<Option<u64>>,
    i: int,
    chain: Seq<ChainView>,
)
    requires
        0 <= i <= args.len(),
    ensures
        scan(command, args, readings, i, ScanMode::Broken, chain) == finished(
            command,
            args,
            readings,
            chain + as_arguments(args.skip(i)),
        ),
    decreases args.len() - i,
{
    if i >= args.len() {
        assert(chain + as_arguments(args.skip(i)) =~= chain);
    } else {
        let next = chain.push(ChainView::Argument(args[i]));
        law_break_absorbs(command, args, readings, i + 1, next);
        assert(next + as_arguments(args.skip(i + 1)) =~= chain + as_arguments(args.skip(i)));
    }
}

/// `--` behind an option turns every token behind it into an argument.
/// Where the option still waits for its value, an optional value is absent
/// and the option enters the chain without one; an option that requires a
/// value is dropped.
pub proof fn law_break_token(
    command: CommandView,
    args: Seq<Seq<char>>,
    readings: Seq<Option<u64>>,
    i: int,
    mode: ScanMode,
    chain: Seq<ChainView>,
)
    requires
        0 <= i < args.len(),
        args[i] == break_token(),
        mode is AfterOption || mode is Awaiting,
    ensures
        scan(command, args, readings, i, mode, chain) == finished(
            command,
            args,
            readings,
            settled(mode, chain) + as_arguments(args.skip(i + 1)),
        ),
{
    law_break_absorbs(command, args, readings, i + 1, settled(mode, chain));
}

/// `--` anywhere else is an error that names its place.
pub proof fn law_break_misplaced(
    command: CommandView,
    args: Seq<Seq<char>>,
    readings: Seq<Option<u64>>,
    i: int,
    mode: ScanMode,
    chain: Seq<ChainView>,
)
    requires
        0 <= i < args.len(),
        args[i] == break_token(),
        mode is Fresh || mode is Positional,
    ensures
        scan(command, args, readings, i, mode, chain).result == Err::<
            crate::option_parser::parse_model::ParseEnd,
            FliErrorView,
        >(FliErrorView::UnexpectedToken { token: break_token(), position: i as usize }),
{
}

/// Whether the token at `i` is read as a registered option: it is not
/// `--`, leads to no preserved option, and is registered.
pub open spec fn reads_as_option(command: CommandView, args: Seq<Seq<char>>, i: int) -> bool {
    &&& 0 <= i < args.len()
    &&& args[i] != break_token()
    &&& !command.has_preserved_option(args[i])
    &&& command.registry.has_option(args[i])
}

/// A flag that is present enters the chain exactly once, as a flag: where
/// a token is read as a registered option without a value, the parse goes
/// on behind it with one more entry, which names the token as it was
/// written.
pub proof fn law_flag_present(
    command: CommandView,
    args: Seq<Seq<char>>,
    readings: Seq<Option<u64>>,
    i: int,
    mode: ScanMode,
    chain: Seq<ChainView>,
)
    requires
        reads_as_option(command, args, i),
        command.registry.expected_value_type(args[i]) == Some(ValueTypesView::Flag),
        mode is Fresh || mode is AfterOption || mode is Positional,
    ensures
        scan(command, args, readings, i, mode, chain) == scan(
            command,
            args,
            readings,
            i + 1,
            ScanMode::AfterOption,
            chain.push(ChainView::Option(args[i], ValueTypesView::Flag)),
        ),
{
    assert(scan(command, args, readings, i, mode, chain) == scan_token(
        command,
        args,
        readings,
        i,
        mode,
        chain,
    ));
}

/// The tokens as flag entries, one for one.
pub open spec fn as_flags(tokens: Seq<Seq<char>>) -> Seq<ChainView> {
    Seq::new(tokens.len(), |k: int| ChainView::Option(tokens[k], ValueTypesView::Flag))
}

/// A command line made of flags alone has one entry for each flag that is
/// present, in the order of the tokens, and no other entry: where every
/// token from the cursor on is read as a registered option without a value,
/// the parse ends well, leaves the command as it is, and the chain grows by
/// exactly one flag entry for each token.
pub proof fn law_flags_only(
    command: CommandView,
    args: Seq<Seq<char>>,
    readings: Seq<Option<u64>>,
    i: int,
    mode: ScanMode,
    chain: Seq<ChainView>,
)
    requires
        0 <= i <= args.len(),
        mode is Fresh || mode is AfterOption || mode is Positional,
        forall|k: int|
            i <= k < args.len() ==> #[trigger] reads_as_option(command, args, k)
                && command.registry.expected_value_type(args[k]) == Some(ValueTypesView::Flag),
    ensures
        scan(command, args, readings, i, mode, chain) == finished(
            command,
            args,
            readings,
            chain + as_flags(args.skip(i)),
        ),
    decreases args.len() - i,
{
    if i >= args.len() {
        assert(chain + as_flags(args.skip(i)) =~= chain);
    } else {
        assert(reads_as_option(command, args, i));
        let next = chain.push(ChainView::Option(args[i], ValueTypesView::Flag));
        law_flag_present(command, args, readings, i, mode, chain);
        law_flags_only(command, args, readings, i + 1, ScanMode::AfterOption, next);
        assert(next + as_flags(args.skip(i + 1)) =~= chain + as_flags(args.skip(i)));
    }
}


/// A required single value is taken from the next token: where that token
/// is neither `--` nor a registered flag and can be read as the type the
/// option holds, it enters the chain as the option's value and is stored in
/// the registry, and the parse goes on behind it.
pub proof fn law_required_single_taken(
    command: CommandView,
    args: Seq<Seq<char>>,
    readings: Seq<Option<u64>>,
    i: int,
    flag: Seq<char>,
    default: ValueView,
    chain: Seq<ChainView>,
)
    requires
        0 <= i < args.len(),
        args[i] != break_token(),
        !command.registry.has_option(args[i]),
        retyped(default, args[i], reading_at(readings, i)) is Some,
    ensures
        ({
            let value = ValueTypesView::RequiredSingle(
                retyped(default, args[i], reading_at(readings, i))->0,
            );
            scan(
                command,
                args,
                readings,
                i,
                ScanMode::Awaiting(flag, ValueTypesView::RequiredSingle(default)),
                chain,
            ) == scan(
                command.committed(flag, value),
                args,
                readings,
                i + 1,
                ScanMode::AfterOption,
                chain.push(ChainView::Option(flag, value)),
            )
        }),
        default is Str ==> retyped(default, args[i], reading_at(readings, i)) == Some(
            ValueView::Str(args[i]),
        ),
{
}

/// A required single value is missing where the next token is a registered
/// flag, and where the input ends.
pub proof fn law_required_single_missing(
    command: CommandView,
    args: Seq<Seq<char>>,
    readings: Seq<Option<u64>>,
    i: int,
    flag: Seq<char>,
    default: ValueView,
    chain: Seq<ChainView>,
)
    requires
        0 <= i,
        i >= args.len() || (args[i] != break_token() && command.registry.has_option(args[i])),
    ensures
        scan(
            command,
            args,
            readings,
            i,
            ScanMode::Awaiting(flag, ValueTypesView::RequiredSingle(default)),
            chain,
        ) == (Outcome { command, result: Err(FliErrorView::MissingValue { option: flag }) }),
{
}

/// A token that names a subcommand hands the rest of the input to that
/// subcommand: its entry follows what was read before, the parse of the
/// tokens behind it at the subcommand decides how the parse ends, and the
/// subcommand is left in the tree as that parse leaves it.
pub proof fn law_subcommand_entered(
    command: CommandView,
    args: Seq<Seq<char>>,
    readings: Seq<Option<u64>>,
    i: int,
    mode: ScanMode,
    chain: Seq<ChainView>,
)
    requires
        0 <= i < args.len(),
        args[i] != break_token(),
        !command.has_preserved_option(args[i]),
        !command.registry.has_option(args[i]),
        child_index(command.children, args[i]) is Some,
        mode is Fresh || mode is AfterOption || mode is Positional,
    ensures
        ({
            let k = child_index(command.children, args[i])->0;
            let below = scan(
                command.children[k],
                args.skip(i + 1),
                readings_from(readings, i + 1),
                0,
                ScanMode::Fresh,
                chain.push(ChainView::SubCommand(args[i])),
            );
            &&& scan(command, args, readings, i, mode, chain).result == below.result
            &&& scan(command, args, readings, i, mode, chain).command == (CommandView {
                children: command.children.update(k, below.command),
                ..command
            })
        }),
{
    assert(scan(command, args, readings, i, mode, chain) == scan_token(
        command,
        args,
        readings,
        i,
        mode,
        chain,
    ));
}


/// A parse result whose chain stands behind `prefix`.
pub open spec fn prefixed(prefix: Seq<ChainView>, outcome: Outcome) -> Outcome {
    Outcome {
        command: outcome.command,
        result: match outcome.result {
            Ok(end) => Ok(ParseEnd { chain: prefix + end.chain, ..end }),
            Err(e) => Err(e),
        },
    }
}

/// Whether a chain made of `prefix` and `chain` asks for a command name in
/// the same places as `chain` alone.
pub open spec fn frames(prefix: Seq<ChainView>, chain: Seq<ChainView>, mode: ScanMode) -> bool {
    chain.len() > 0 || mode is Awaiting || mode is Broken || prefix.len() == 0 || prefix.last()
        is SubCommand
}

/// Settling a waiting option leaves what stands in front as it is.
pub proof fn lemma_settled_framing(mode: ScanMode, prefix: Seq<ChainView>, chain: Seq<ChainView>)
    ensures
        settled(mode, prefix + chain) == prefix + settled(mode, chain),
{
    assert(settled(mode, prefix + chain) =~= prefix + settled(mode, chain));
}

/// A parse does not look back: what was read before only stands in front
/// of what is read from here on. Parsing behind `prefix + chain` gives the
/// same command tree and the same error as parsing behind `chain`, and the
/// same chain with `prefix` in front of it.
pub proof fn law_chain_framing(
    command: CommandView,
    args: Seq<Seq<char>>,
    readings: Seq<Option<u64>>,
    i: int,
    mode: ScanMode,
    prefix: Seq<ChainView>,
    chain: Seq<ChainView>,
)
    requires
        frames(prefix, chain, mode),
    ensures
        scan(command, args, readings, i, mode, prefix + chain) == prefixed(
            prefix,
            scan(command, args, readings, i, mode, chain),
        ),
    decreases args.len() - i, waiting_rank(mode),
{
    let whole = prefix + chain;
    lemma_settled_framing(mode, prefix, chain);
    if i < 0 || i >= args.len() {
    } else if mode is Broken {
        let entry = ChainView::Argument(args[i]);
        assert(whole.push(entry) =~= prefix + chain.push(entry));
        law_chain_framing(command, args, readings, i + 1, ScanMode::Broken, prefix, chain.push(entry));
    } else if args[i] == break_token() {
        if mode is AfterOption || mode is Awaiting {
            law_chain_framing(
                command,
                args,
                readings,
                i + 1,
                ScanMode::Broken,
                prefix,
                settled(mode, chain),
            );
        }
    } else {
        match mode {
            ScanMode::Awaiting(flag, arity) => {
                lemma_value_step_bound(command.registry, args, readings, i, flag, arity);
                match value_step(command.registry, args, readings, i, flag, arity) {
                    Err(_) => {},
                    Ok(step) => {
                        let entry = ChainView::Option(flag, step.value);
                        let after = if step.commit {
                            command.committed(flag, step.value)
                        } else {
                            command
                        };
                        assert(whole.push(entry) =~= prefix + chain.push(entry));
                        law_chain_framing(
                            after,
                            args,
                            readings,
                            step.next,
                            ScanMode::AfterOption,
                            prefix,
                            chain.push(entry),
                        );
                    },
                }
            },
            _ => {
                law_token_framing(command, args, readings, i, mode, prefix, chain);
            },
        }
    }
}

/// The step of `law_chain_framing` at a token that is not `--` and meets
/// no waiting option.
pub proof fn law_token_framing(
    command: CommandView,
    args: Seq<Seq<char>>,
    readings: Seq<Option<u64>>,
    i: int,
    mode: ScanMode,
    prefix: Seq<ChainView>,
    chain: Seq<ChainView>,
)
    requires
        0 <= i < args.len(),
        !(mode is Awaiting),
        !(mode is Broken),
        frames(prefix, chain, mode),
    ensures
        scan_token(command, args, readings, i, mode, prefix + chain) == prefixed(
            prefix,
            scan_token(command, args, readings, i, mode, chain),
        ),
    decreases args.len() - i, 0int,
{
    let whole = prefix + chain;
    let token = args[i];
    if command.has_preserved_option(token) {
        let entry = ChainView::IsPreservedOption(token);
        assert(whole.push(entry) =~= prefix + chain.push(entry));
        law_chain_framing(
            command,
            args,
            readings,
            i + 1,
            ScanMode::AfterOption,
            prefix,
            chain.push(entry),
        );
    } else if command.registry.has_option(token) {
        let arity = command.registry.expected_value_type(token)->0;
        if arity is Flag {
            let entry = ChainView::Option(token, ValueTypesView::Flag);
            assert(whole.push(entry) =~= prefix + chain.push(entry));
            law_chain_framing(
                command,
                args,
                readings,
                i + 1,
                ScanMode::AfterOption,
                prefix,
                chain.push(entry),
            );
        } else {
            law_chain_framing(
                command,
                args,
                readings,
                i + 1,
                ScanMode::Awaiting(token, arity),
                prefix,
                chain,
            );
        }
    } else if child_index(command.children, token) is Some {
        let k = child_index(command.children, token)->0;
        let entry = ChainView::SubCommand(token);
        assert(whole.push(entry) =~= prefix + chain.push(entry));
        law_chain_framing(
            command.children[k],
            args.skip(i + 1),
            readings_from(readings, i + 1),
            0,
            ScanMode::Fresh,
            prefix,
            chain.push(entry),
        );
    } else if command.wants_command(chain) {
        if chain.len() > 0 {
            assert(whole.last() == chain.last());
        } else {
            assert(whole =~= prefix);
        }
    } else {
        if chain.len() > 0 {
            assert(whole.last() == chain.last());
        } else {
            assert(whole =~= prefix);
        }
        if !(mode is AfterOption) {
            let entry = ChainView::Argument(token);
            assert(whole.push(entry) =~= prefix + chain.push(entry));
            law_chain_framing(
                command,
                args,
                readings,
                i + 1,
                ScanMode::Positional,
                prefix,
                chain.push(entry),
            );
        }
    }
}

/// Subcommand resolution keeps the chain: where a token names a
/// subcommand, the chain of the whole parse is what was read before, then
/// the subcommand's entry, then the chain that the tokens behind it give
/// when they are parsed at the subcommand on their own.
pub proof fn law_subcommand_chain(
    command: CommandView,
    args: Seq<Seq<char>>,
    readings: Seq<Option<u64>>,
    i: int,
    mode: ScanMode,
    chain: Seq<ChainView>,
)
    requires
        0 <= i < args.len(),
        args[i] != break_token(),
        !command.has_preserved_option(args[i]),
        !command.registry.has_option(args[i]),
        child_index(command.children, args[i]) is Some,
        mode is Fresh || mode is AfterOption || mode is Positional,
    ensures
        ({
            let k = child_index(command.children, args[i])->0;
            let alone = scan(
                command.children[k],
                args.skip(i + 1),
                readings_from(readings, i + 1),
                0,
                ScanMode::Fresh,
                Seq::empty(),
            );
            scan(command, args, readings, i, mode, chain).result == prefixed(
                chain.push(ChainView::SubCommand(args[i])),
                alone,
            ).result
        }),
{
    let k = child_index(command.children, args[i])->0;
    let entered = chain.push(ChainView::SubCommand(args[i]));
    law_subcommand_entered(command, args, readings, i, mode, chain);
    law_chain_framing(
        command.children[k],
        args.skip(i + 1),
        readings_from(readings, i + 1),
        0,
        ScanMode::Fresh,
        entered,
        Seq::empty(),
    );
    assert(entered + Seq::<ChainView>::empty() =~= entered);
}


/// The token that a chain entry names.
pub open spec fn entry_token(entry: ChainView) -> Seq<char> {
    match entry {
        ChainView::SubCommand(name) => name,
        ChainView::Option(flag, _) => flag,
        ChainView::Argument(token) => token,
        ChainView::IsPreservedOption(token) => token,
    }
}

/// Whether `grown` is `chain` with entries behind it that all name tokens
/// among `args`.
pub open spec fn grown_from(chain: Seq<ChainView>, grown: Seq<ChainView>, args: Seq<Seq<char>>)
    -> bool {
    &&& chain.len() <= grown.len()
    &&& grown.take(chain.len() as int) == chain
    &&& forall|k: int|
        chain.len() <= k < grown.len() ==> args.contains(entry_token(#[trigger] grown[k]))
}

/// What grew from a chain with a settled option grew from the chain.
proof fn lemma_grown_settled(
    mode: ScanMode,
    chain: Seq<ChainView>,
    grown: Seq<ChainView>,
    args: Seq<Seq<char>>,
)
    requires
        grown_from(settled(mode, chain), grown, args),
        mode matches ScanMode::Awaiting(flag, _) ==> args.contains(flag),
    ensures
        grown_from(chain, grown, args),
{
    match mode {
        ScanMode::Awaiting(flag, ValueTypesView::OptionalSingle(_)) => {
            lemma_grown_step(
                chain,
                ChainView::Option(flag, ValueTypesView::OptionalSingle(None)),
                grown,
                args,
            );
        },
        ScanMode::Awaiting(flag, ValueTypesView::OptionalMultiple(_, count)) => {
            lemma_grown_step(
                chain,
                ChainView::Option(flag, ValueTypesView::OptionalMultiple(None, count)),
                grown,
                args,
            );
        },
        _ => {},
    }
}

/// A chain that grew by one entry and then further grew from the start.
proof fn lemma_grown_step(
    chain: Seq<ChainView>,
    entry: ChainView,
    grown: Seq<ChainView>,
    args: Seq<Seq<char>>,
)
    requires
        grown_from(chain.push(entry), grown, args),
        args.contains(entry_token(entry)),
    ensures
        grown_from(chain, grown, args),
{
    let longer = chain.push(entry);
    assert(grown.take(chain.len() as int) =~= chain) by {
        assert forall|k: int| 0 <= k < chain.len() implies grown.take(chain.len() as int)[k]
            == chain[k] by {
            assert(grown.take(longer.len() as int)[k] == longer[k]);
        }
    }
    assert forall|k: int| chain.len() <= k < grown.len() implies args.contains(
        entry_token(#[trigger] grown[k]),
    ) by {
        if k == chain.len() {
            assert(grown.take(longer.len() as int)[k] == longer[k]);
        }
    }
}

/// What grew from the tokens behind a cursor grew from all the tokens.
proof fn lemma_grown_wider(
    chain: Seq<ChainView>,
    grown: Seq<ChainView>,
    args: Seq<Seq<char>>,
    n: int,
)
    requires
        0 <= n <= args.len(),
        grown_from(chain, grown, args.skip(n)),
    ensures
        grown_from(chain, grown, args),
{
    assert forall|k: int| chain.len() <= k < grown.len() implies args.contains(
        entry_token(#[trigger] grown[k]),
    ) by {
        let token = entry_token(grown[k]);
        assert(args.skip(n).contains(token));
        let j = choose|j: int| 0 <= j < args.skip(n).len() && args.skip(n)[j] == token;
        assert(args[j + n] == token);
    }
}

/// A parse only adds to the chain, and every entry it adds names a token
/// of the input. So a flag that is absent from the input has no entry in
/// what the parse adds. (An option that waits for its value when the parse
/// is taken up must itself have been a token.)
pub proof fn law_chain_names_tokens(
    command: CommandView,
    args: Seq<Seq<char>>,
    readings: Seq<Option<u64>>,
    i: int,
    mode: ScanMode,
    chain: Seq<ChainView>,
)
    requires
        mode matches ScanMode::Awaiting(flag, _) ==> args.contains(flag),
    ensures
        match scan(command, args, readings, i, mode, chain).result {
            Ok(end) => grown_from(chain, end.chain, args),
            Err(_) => true,
        },
    decreases args.len() - i, waiting_rank(mode),
{
    let result = scan(command, args, readings, i, mode, chain).result;
    if result is Ok {
        let grown = result->Ok_0.chain;
        if i < 0 || i >= args.len() {
            let end_chain = settled(mode, chain);
            assert(grown == end_chain);
            assert(grown.take(end_chain.len() as int) =~= end_chain);
            lemma_grown_settled(mode, chain, grown, args);
        } else if mode is Broken {
            let entry = ChainView::Argument(args[i]);
            law_chain_names_tokens(command, args, readings, i + 1, ScanMode::Broken, chain.push(entry));
            lemma_grown_step(chain, entry, grown, args);
        } else if args[i] == break_token() {
            if mode is AfterOption || mode is Awaiting {
                law_chain_names_tokens(
                    command,
                    args,
                    readings,
                    i + 1,
                    ScanMode::Broken,
                    settled(mode, chain),
                );
                lemma_grown_settled(mode, chain, grown, args);
            }
        } else {
            match mode {
                ScanMode::Awaiting(flag, arity) => {
                    lemma_value_step_bound(command.registry, args, readings, i, flag, arity);
                    match value_step(command.registry, args, readings, i, flag, arity) {
                        Err(_) => {},
                        Ok(step) => {
                            let entry = ChainView::Option(flag, step.value);
                            let after = if step.commit {
                                command.committed(flag, step.value)
                            } else {
                                command
                            };
                            law_chain_names_tokens(
                                after,
                                args,
                                readings,
                                step.next,
                                ScanMode::AfterOption,
                                chain.push(entry),
                            );
                            lemma_grown_step(chain, entry, grown, args);
                        },
                    }
                },
                _ => {
                    let token = args[i];
                    assert(scan(command, args, readings, i, mode, chain) == scan_token(
                        command,
                        args,
                        readings,
                        i,
                        mode,
                        chain,
                    ));
                    if command.has_preserved_option(token) {
                        let entry = ChainView::IsPreservedOption(token);
                        law_chain_names_tokens(
                            command,
                            args,
                            readings,
                            i + 1,
                            ScanMode::AfterOption,
                            chain.push(entry),
                        );
                        lemma_grown_step(chain, entry, grown, args);
                    } else if command.registry.has_option(token) {
                        let arity = command.registry.expected_value_type(token)->0;
                        if arity is Flag {
                            let entry = ChainView::Option(token, ValueTypesView::Flag);
                            law_chain_names_tokens(
                                command,
                                args,
                                readings,
                                i + 1,
                                ScanMode::AfterOption,
                                chain.push(entry),
                            );
                            lemma_grown_step(chain, entry, grown, args);
                        } else {
                            law_chain_names_tokens(
                                command,
                                args,
                                readings,
                                i + 1,
                                ScanMode::Awaiting(token, arity),
                                chain,
                            );
                        }
                    } else if child_index(command.children, token) is Some {
                        let k = child_index(command.children, token)->0;
                        let entry = ChainView::SubCommand(token);
                        law_chain_names_tokens(
                            command.children[k],
                            args.skip(i + 1),
                            readings_from(readings, i + 1),
                            0,
                            ScanMode::Fresh,
                            chain.push(entry),
                        );
                        lemma_grown_wider(chain.push(entry), grown, args, i + 1);
                        lemma_grown_step(chain, entry, grown, args);
                    } else if command.wants_command(chain) {
                    } else if !(mode is AfterOption) {
                        let entry = ChainView::Argument(token);
                        law_chain_names_tokens(
                            command,
                            args,
                            readings,
                            i + 1,
                            ScanMode::Positional,
                            chain.push(entry),
                        );
                        lemma_grown_step(chain, entry, grown, args);
                    }
                },
            }
        }
    }
}

} // verus!
