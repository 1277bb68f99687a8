//! The application: a root command with the application's name, version
//! and description.
use vstd::prelude::*;
use vstd::string::*;
use crate::command::{
    run_command, run_result, Callback, CommandView, Dispatch, FliCommand,
};
use crate::error::FliError;
use crate::option_parser::input_parser::{InputArgsParser, ParserView};
use crate::option_parser::option_parser::RegistryView;
use crate::option_parser::value_types::{
    strs_view, Value, ValueTypes, ValueTypesView, ValueView,
};
use crate::text::texts;

verus! {

/// A command-line application. Its commands and options hang below the
/// root command, whose name is empty.
#[derive(Debug)]
pub struct Fli {
    pub name: String,
    pub version: String,
    pub description: String,
    pub root_command: FliCommand,
}

/// The mathematical content of a `Fli`.
pub struct FliView {
    pub name: Seq<char>,
    pub version: Seq<char>,
    pub description: Seq<char>,
    pub root: CommandView,
}

impl View for Fli {
    type V = FliView;

    open spec fn view(&self) -> FliView {
        FliView {
            name: self.name@,
            version: self.version@,
            description: self.description@,
            root: self.root_command@,
        }
    }
}

/// The parser that an application starts with: the root command's name,
/// the tokens behind the program's name, and their floating-point
/// readings.
pub open spec fn start_parser(
    command: Seq<char>,
    args: Seq<Seq<char>>,
    float_readings: Seq<Option<u64>>,
) -> ParserView {
    ParserView { command, args, float_readings, chain: Seq::empty(), is_prepared: false }
}

impl Fli {
    /// An application with a root command that has the help option and
    /// nothing else.
    pub fn new(name: &str, version: &str, description: &str) -> (app: Fli)
        ensures
            app@.name == name@,
            app@.version == version@,
            app@.description == description@,
            app@.root == CommandView::fresh(Seq::empty(), description@, RegistryView::empty()),
            app@.root.registry.wf(),
    {
        let root = FliCommand::new("", description);
        proof {
            reveal_strlit("");
            assert(""@ =~= Seq::<char>::empty());
        }
        Fli {
            name: String::from_str(name),
            version: String::from_str(version),
            description: String::from_str(description),
            root_command: root,
        }
    }

    /// Makes a command named `name` below the root and hands it out for
    /// further set-up, as `FliCommand::subcommand` does.
    pub fn command(&mut self, name: &str, description: &str) -> (r: Result<
        &mut FliCommand,
        FliError,
    >)
        requires
            old(self)@.root.registry.wf(),
        ensures
            r matches Ok(ret) && ret@ == CommandView::fresh(
                name@,
                description@,
                old(self)@.root.registry.inherited_registry(),
            ) && final(self)@ == (FliView {
                root: old(self)@.root.with_child_named(name@, final(ret)@),
                ..old(self)@
            }),
    {
        Ok(self.root_command.subcommand(name, description))
    }

    /// Adds a finished command below the root.
    pub fn add_command(&mut self, command: FliCommand)
        ensures
            final(self)@ == (FliView { root: old(self)@.root.with_child(command@), ..old(self)@ }),
    {
        self.root_command.add_sub_command(command);
    }

    /// Binds the root command to a handler.
    pub fn set_callback(&mut self, callback: Callback)
        ensures
            final(self)@ == (FliView {
                root: CommandView { callback: Some(callback), ..old(self)@.root },
                ..old(self)@
            }),
    {
        self.root_command.set_callback(callback);
    }

    /// Registers an option at the root command.
    pub fn add_option(
        &mut self,
        name: &str,
        description: &str,
        short_flag: &str,
        long_flag: &str,
        value: ValueTypes,
    )
        ensures
            final(self)@ == (FliView {
                root: old(self)@.root.with_option(
                    name@,
                    description@,
                    short_flag@,
                    long_flag@,
                    value@,
                ),
                ..old(self)@
            }),
    {
        self.root_command.add_option(name, description, short_flag, long_flag, value);
    }

    /// Marks an option of the root command as inheritable.
    pub fn mark_inheritable(&mut self, flag: &str) -> (r: Result<(), FliError>)
        ensures
            match old(self)@.root.registry.position(flag@) {
                Some(_) => r is Ok,
                None => r matches Err(FliError::OptionNotFound(f)) && f@ == flag@,
            },
            final(self)@ == (FliView {
                root: CommandView {
                    registry: old(self)@.root.registry.marked(flag@),
                    ..old(self)@.root
                },
                ..old(self)@
            }),
            old(self)@.root.registry.wf() ==> final(self)@.root.registry.wf(),
    {
        self.root_command.get_option_parser().mark_inheritable(flag)
    }

    /// Marks several options of the root command as inheritable, in the
    /// order given, up to the first flag that is unknown.
    pub fn mark_inheritable_many(&mut self, flags: &[&str]) -> (r: Result<(), FliError>)
        ensures
            match r {
                Ok(_) => {
                    &&& forall|j: int|
                        0 <= j < flags@.len() ==> old(self)@.root.registry.has_option(
                            #[trigger] strs_view(flags@)[j],
                        )
                    &&& final(self)@.root.registry == old(self)@.root.registry.marked_upto(
                        strs_view(flags@),
                        flags@.len() as int,
                    )
                },
                Err(e) => exists|k: int|
                    {
                        &&& #[trigger] old(self)@.root.registry.is_first_unknown(
                            strs_view(flags@),
                            k,
                        )
                        &&& e matches FliError::OptionNotFound(f) && f@ == flags@[k]@
                        &&& final(self)@.root.registry == old(self)@.root.registry.marked_upto(
                            strs_view(flags@),
                            k,
                        )
                    },
            },
            final(self)@ == (FliView {
                root: CommandView { registry: final(self)@.root.registry, ..old(self)@.root },
                ..old(self)@
            }),
            old(self)@.root.registry.wf() ==> final(self)@.root.registry.wf(),
    {
        self.root_command.get_option_parser().mark_inheritable_many(flags)
    }

    /// Registers the debug option at the root command: `-D` and `--debug`,
    /// an optional truth value, bound as a preserved option to the built-in
    /// debug handler, and inheritable.
    pub fn add_debug_option(&mut self)
        ensures
            final(self)@ == (FliView {
                root: CommandView {
                    registry: old(self)@.root.with_preserved_option(
                        "debug"@,
                        "Enable debug output"@,
                        "-D"@,
                        "--debug"@,
                        ValueTypesView::OptionalSingle(Some(ValueView::Bool(false))),
                        Callback::Debug,
                    ).registry.marked("--debug"@),
                    ..old(self)@.root.with_preserved_option(
                        "debug"@,
                        "Enable debug output"@,
                        "-D"@,
                        "--debug"@,
                        ValueTypesView::OptionalSingle(Some(ValueView::Bool(false))),
                        Callback::Debug,
                    )
                },
                ..old(self)@
            }),
    {
        self.root_command.add_option_with_callback(
            "debug",
            "Enable debug output",
            "-D",
            "--debug",
            ValueTypes::OptionalSingle(Some(Value::Bool(false))),
            Callback::Debug,
        );
        let _ = self.mark_inheritable("--debug");
    }

    /// Parses the tokens behind the program's name against the root command
    /// and says which handler is due, as `FliCommand::run` does.
    /// `float_readings` gives, index by index, the bit pattern of the
    /// floating-point number that a token spells, if it spells one.
    pub fn run(&mut self, args: Vec<String>, float_readings: Vec<Option<u64>>) -> (r: Result<
        Dispatch,
        FliError,
    >)
        ensures
            final(self)@ == (FliView {
                root: run_command(
                    old(self)@.root,
                    start_parser(old(self)@.root.name, texts(args@), float_readings@),
                ),
                ..old(self)@
            }),
            match run_result(
                old(self)@.root,
                start_parser(old(self)@.root.name, texts(args@), float_readings@),
            ) {
                Ok(d) => r matches Ok(out) && out@ == d,
                Err(e) => r matches Err(x) && x@ == e,
            },
    {
        let mut parser = InputArgsParser::new(self.root_command.get_name().clone(), args);
        parser.set_float_readings(float_readings);
        proof {
            assert(parser@.chain =~= Seq::<crate::option_parser::input_parser::ChainView>::empty());
            assert(parser@ == start_parser(old(self)@.root.name, texts(args@), float_readings@));
        }
        self.root_command.run(parser)
    }
}

} // verus!
