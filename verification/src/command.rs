//! The command tree: a command with its options, its preserved options and
//! the commands below it.
use vstd::prelude::*;
use vstd::string::*;
use crate::error::{FliError, FliErrorView};
use crate::option_parser::input_parser::{ChainView, CommandChain, InputArgsParser, ParserView};
use crate::option_parser::parse_model::parse;
use crate::option_parser::option_parser::{
    CommandOptionsParser, CommandOptionsParserBuilder, RegistryView,
};
use crate::option_parser::value_types::{ValueTypes, ValueTypesView};

verus! {

/// Which handler a command or a preserved option is bound to. The library
/// decides which handler is due; running it is left to its caller.
#[derive(Debug, Clone, Copy, PartialEq, Eq, Structural)]
pub enum Callback {
    /// The built-in handler that shows a command's help.
    Help,
    /// The built-in handler that switches debug output on.
    Debug,
    /// A handler of the program, by the number the program gave it.
    Custom(usize),
}

/// An option whose handler runs as soon as the option is met.
#[derive(Debug, Clone)]
pub struct PreservedOption {
    pub long_flag: String,
    pub short_flag: String,
    pub value_type: ValueTypes,
    pub callback: Callback,
}

/// The mathematical content of a `PreservedOption`.
pub struct PreservedOptionView {
    pub long_flag: Seq<char>,
    pub short_flag: Seq<char>,
    pub value_type: ValueTypesView,
    pub callback: Callback,
}

impl View for PreservedOption {
    type V = PreservedOptionView;

    open spec fn view(&self) -> PreservedOptionView {
        PreservedOptionView {
            long_flag: self.long_flag@,
            short_flag: self.short_flag@,
            value_type: self.value_type@,
            callback: self.callback,
        }
    }
}

impl PreservedOption {
    /// A copy of the preserved option.
    pub fn duplicate(&self) -> (p: PreservedOption)
        ensures
            p@ == self@,
    {
        PreservedOption {
            long_flag: self.long_flag.clone(),
            short_flag: self.short_flag.clone(),
            value_type: self.value_type.duplicate(),
            callback: self.callback,
        }
    }
}

/// The contents of a list of preserved options, one by one.
pub open spec fn preserved_view(items: Seq<PreservedOption>) -> Seq<PreservedOptionView> {
    Seq::new(items.len(), |i: int| items[i]@)
}

/// One node of the command tree.
#[derive(Debug)]
pub struct FliCommand {
    pub name: String,
    pub description: String,
    pub option_parser_builder: CommandOptionsParserBuilder,
    /// The commands below this one, in the order in which they were added;
    /// a command added under a name that is taken replaces the earlier one.
    pub sub_commands: Vec<FliCommand>,
    pub callback: Option<Callback>,
    pub preserved_options: Vec<PreservedOption>,
    pub expected_positional_args: usize,
}

/// The mathematical content of a command and of everything below it.
pub struct CommandView {
    pub name: Seq<char>,
    pub description: Seq<char>,
    pub registry: RegistryView,
    pub children: Seq<CommandView>,
    pub callback: Option<Callback>,
    pub preserved: Seq<PreservedOptionView>,
    pub expected_positional_args: usize,
}

/// The content of a command, by recursion over the tree.
pub open spec fn command_view(c: FliCommand) -> CommandView
    decreases c,
{
    CommandView {
        name: c.name@,
        description: c.description@,
        registry: c.option_parser_builder@,
        children: Seq::new(
            c.sub_commands@.len(),
            |i: int|
                if 0 <= i < c.sub_commands@.len() {
                    command_view(c.sub_commands@[i])
                } else {
                    arbitrary()
                },
        ),
        callback: c.callback,
        preserved: preserved_view(c.preserved_options@),
        expected_positional_args: c.expected_positional_args,
    }
}

impl View for FliCommand {
    type V = CommandView;

    open spec fn view(&self) -> CommandView {
        command_view(*self)
    }
}

impl CommandView {
    /// The command after an option made of the given parts was registered.
    pub open spec fn with_option(
        self,
        name: Seq<char>,
        description: Seq<char>,
        short_flag: Seq<char>,
        long_flag: Seq<char>,
        value: ValueTypesView,
    ) -> CommandView {
        CommandView {
            registry: self.registry.registered(name, description, short_flag, long_flag, value),
            ..self
        }
    }

    /// The command after an option made of the given parts was registered
    /// and bound, as a preserved option, to `callback`.
    pub open spec fn with_preserved_option(
        self,
        name: Seq<char>,
        description: Seq<char>,
        short_flag: Seq<char>,
        long_flag: Seq<char>,
        value: ValueTypesView,
        callback: Callback,
    ) -> CommandView {
        CommandView {
            preserved: self.preserved.push(
                PreservedOptionView { long_flag, short_flag, value_type: value, callback },
            ),
            ..self.with_option(name, description, short_flag, long_flag, value)
        }
    }

    /// A command without options of its own, children or handler.
    pub open spec fn bare(name: Seq<char>, description: Seq<char>, registry: RegistryView)
        -> CommandView {
        CommandView {
            name,
            description,
            registry,
            children: Seq::empty(),
            callback: None,
            preserved: Seq::empty(),
            expected_positional_args: 0,
        }
    }

    /// The bare command with the help option that every command starts
    /// with: `-h` and `--help`, a flag, bound to the built-in help handler.
    pub open spec fn fresh(name: Seq<char>, description: Seq<char>, registry: RegistryView)
        -> CommandView {
        Self::bare(name, description, registry).with_preserved_option(
            "help"@,
            "Display help information"@,
            "-h"@,
            "--help"@,
            ValueTypesView::Flag,
            Callback::Help,
        )
    }
}

impl FliCommand {
    /// The children of a command's view are the views of its children.
    pub proof fn lemma_children_view(&self)
        ensures
            self@.children.len() == self.sub_commands@.len(),
            forall|i: int|
                0 <= i < self.sub_commands@.len() ==> #[trigger] self@.children[i]
                    == self.sub_commands@[i]@,
    {
    }

    /// A copy of the command and of everything below it.
    pub fn duplicate(&self) -> (c: FliCommand)
        ensures
            c@ == self@,
        decreases self,
    {
        let mut children: Vec<FliCommand> = Vec::new();
        let mut i: usize = 0;
        while i < self.sub_commands.len()
            invariant
                i <= self.sub_commands.len(),
                children.len() == i,
                forall|j: int| 0 <= j < i ==> children@[j]@ == self.sub_commands@[j]@,
            decreases self.sub_commands.len() - i,
        {
            children.push(self.sub_commands[i].duplicate());
            i += 1;
        }
        let mut preserved: Vec<PreservedOption> = Vec::new();
        let mut k: usize = 0;
        while k < self.preserved_options.len()
            invariant
                k <= self.preserved_options.len(),
                preserved.len() == k,
                forall|j: int| 0 <= j < k ==> preserved@[j]@ == self.preserved_options@[j]@,
            decreases self.preserved_options.len() - k,
        {
            preserved.push(self.preserved_options[k].duplicate());
            k += 1;
        }
        let c = FliCommand {
            name: self.name.clone(),
            description: self.description.clone(),
            option_parser_builder: self.option_parser_builder.duplicate(),
            sub_commands: children,
            callback: self.callback,
            preserved_options: preserved,
            expected_positional_args: self.expected_positional_args,
        };
        proof {
            self.lemma_children_view();
            c.lemma_children_view();
            assert(c@.children =~= self@.children);
            assert(c@.preserved =~= self@.preserved);
        }
        c
    }

    /// A command named `name` that starts with the options in
    /// `parser_builder` and with the help option.
    pub fn with_parser(name: &str, description: &str, parser_builder: CommandOptionsParserBuilder)
        -> (c: FliCommand)
        ensures
            c@ == CommandView::fresh(name@, description@, parser_builder@),
    {
        let mut x = FliCommand {
            name: String::from_str(name),
            description: String::from_str(description),
            option_parser_builder: parser_builder,
            sub_commands: Vec::new(),
            callback: None,
            preserved_options: Vec::new(),
            expected_positional_args: 0,
        };
        proof {
            x.lemma_children_view();
            assert(x@.children =~= Seq::<CommandView>::empty());
            assert(x@.preserved =~= Seq::<PreservedOptionView>::empty());
        }
        x.setup_help_flag();
        x
    }

    /// A command named `name` with the help option and nothing else.
    pub fn new(name: &str, description: &str) -> (c: FliCommand)
        ensures
            c@ == CommandView::fresh(name@, description@, RegistryView::empty()),
            c@.registry.wf(),
    {
        FliCommand::with_parser(name, description, CommandOptionsParserBuilder::new())
    }

    /// Sets how many positional arguments the command expects.
    pub fn set_expected_positional_args(&mut self, count: usize) -> (ret: &mut Self)
        ensures
            ret@ == (CommandView { expected_positional_args: count, ..old(self)@ }),
            *final(self) == *final(ret),
    {
        self.expected_positional_args = count;
        proof {
            self.lemma_children_view();
            old(self).lemma_children_view();
            assert(self@.children =~= old(self)@.children);
        }
        self
    }

    /// How many positional arguments the command expects.
    pub fn get_expected_positional_args(&self) -> (n: usize)
        ensures
            n == self@.expected_positional_args,
    {
        self.expected_positional_args
    }

    /// Gives the command its help option: `-h` and `--help`, a flag, bound
    /// as a preserved option to the built-in help handler.
    pub fn setup_help_flag(&mut self)
        ensures
            final(self)@ == old(self)@.with_preserved_option(
                "help"@,
                "Display help information"@,
                "-h"@,
                "--help"@,
                ValueTypesView::Flag,
                Callback::Help,
            ),
    {
        self.add_option_with_callback(
            "help",
            "Display help information",
            "-h",
            "--help",
            ValueTypes::Flag,
            Callback::Help,
        );
    }

    /// Binds the command to the handler that runs when the command is the
    /// one that a command line ends in.
    pub fn set_callback(&mut self, callback: Callback)
        ensures
            final(self)@ == (CommandView { callback: Some(callback), ..old(self)@ }),
    {
        self.callback = Some(callback);
        proof {
            self.lemma_children_view();
            old(self).lemma_children_view();
            assert(self@.children =~= old(self)@.children);
        }
    }

    /// The handler that the command is bound to.
    pub fn get_callback(&self) -> (r: Option<Callback>)
        ensures
            r == self@.callback,
    {
        self.callback
    }

    /// The name of the command.
    pub fn get_name(&self) -> (r: &String)
        ensures
            r@ == self@.name,
    {
        &self.name
    }

    /// The description of the command.
    pub fn get_description(&self) -> (r: &String)
        ensures
            r@ == self@.description,
    {
        &self.description
    }

    /// The builder that holds the command's options.
    pub fn get_option_parser_builder(&self) -> (r: &CommandOptionsParserBuilder)
        ensures
            r@ == self@.registry,
    {
        &self.option_parser_builder
    }

    /// The registry of the command's options, open to changes.
    pub fn get_option_parser(&mut self) -> (ret: &mut CommandOptionsParser)
        ensures
            ret@ == old(self)@.registry,
            final(self)@ == (CommandView { registry: final(ret)@, ..old(self)@ }),
    {
        proof {
            old(self).lemma_children_view();
        }
        let ghost before = *self;
        let ret = self.option_parser_builder.build();
        proof {
            assert forall|after: FliCommand|
                after == (FliCommand {
                    option_parser_builder: after.option_parser_builder,
                    ..before
                }) implies #[trigger] after@ == (CommandView {
                registry: after.option_parser_builder@,
                ..before@
            }) by {
                after.lemma_children_view();
                before.lemma_children_view();
                assert(after@.children =~= before@.children);
            }
        }
        ret
    }

    /// Registers an option made of the given parts.
    pub fn add_option(
        &mut self,
        name: &str,
        description: &str,
        short_flag: &str,
        long_flag: &str,
        value: ValueTypes,
    ) -> (ret: &mut Self)
        ensures
            ret@ == old(self)@.with_option(name@, description@, short_flag@, long_flag@, value@),
            *final(self) == *final(ret),
    {
        self.option_parser_builder.add_option(name, description, short_flag, long_flag, value);
        proof {
            self.lemma_children_view();
            old(self).lemma_children_view();
            assert(self@.children =~= old(self)@.children);
        }
        self
    }

    /// Registers an option made of the given parts and binds it, as a
    /// preserved option, to `callback`: where the option is met, that
    /// handler is due and no other.
    pub fn add_option_with_callback(
        &mut self,
        name: &str,
        description: &str,
        short_flag: &str,
        long_flag: &str,
        value: ValueTypes,
        callback: Callback,
    ) -> (ret: &mut Self)
        ensures
            ret@ == old(self)@.with_preserved_option(
                name@,
                description@,
                short_flag@,
                long_flag@,
                value@,
                callback,
            ),
            *final(self) == *final(ret),
    {
        let kept = value.duplicate();
        self.option_parser_builder.add_option(name, description, short_flag, long_flag, kept);
        let preserved = PreservedOption {
            long_flag: String::from_str(long_flag),
            short_flag: String::from_str(short_flag),
            value_type: value,
            callback,
        };
        self.preserved_options.push(preserved);
        proof {
            self.lemma_children_view();
            old(self).lemma_children_view();
            assert(self@.children =~= old(self)@.children);
            assert(self@.preserved =~= old(self)@.preserved.push(preserved@));
        }
        self
    }
}


/// The index of the last preserved option whose short flag is `flag`. An
/// empty flag leads nowhere.
pub open spec fn last_preserved_short(items: Seq<PreservedOptionView>, flag: Seq<char>)
    -> Option<int>
    decreases items.len(),
{
    if items.len() == 0 {
        None
    } else if flag.len() > 0 && items.last().short_flag == flag {
        Some(items.len() - 1)
    } else {
        last_preserved_short(items.drop_last(), flag)
    }
}

/// The index of the last preserved option whose long flag is `flag`. An
/// empty flag leads nowhere.
pub open spec fn last_preserved_long(items: Seq<PreservedOptionView>, flag: Seq<char>)
    -> Option<int>
    decreases items.len(),
{
    if items.len() == 0 {
        None
    } else if flag.len() > 0 && items.last().long_flag == flag {
        Some(items.len() - 1)
    } else {
        last_preserved_long(items.drop_last(), flag)
    }
}

/// The preserved option that `flag` leads to as it is written: by its short
/// flag first, then by its long flag.
pub open spec fn preserved_exact(items: Seq<PreservedOptionView>, flag: Seq<char>) -> Option<int> {
    match last_preserved_short(items, flag) {
        Some(i) => Some(i),
        None => last_preserved_long(items, flag),
    }
}

/// `s` without the dashes it starts with.
pub open spec fn trim_dashes(s: Seq<char>) -> Seq<char>
    decreases s.len(),
{
    if s.len() > 0 && s[0] == '-' {
        trim_dashes(s.drop_first())
    } else {
        s
    }
}

/// The index of the last command in `children` that is named `name`.
pub open spec fn child_index(children: Seq<CommandView>, name: Seq<char>) -> Option<int>
    decreases children.len(),
{
    if children.len() == 0 {
        None
    } else if children.last().name == name {
        Some(children.len() - 1)
    } else {
        child_index(children.drop_last(), name)
    }
}

/// The names of the commands in `children`, in order.
pub open spec fn child_names(children: Seq<CommandView>) -> Seq<Seq<char>> {
    Seq::new(children.len(), |i: int| children[i].name)
}

/// A child index is an index into the children, of a child with that name.
pub proof fn lemma_child_index(children: Seq<CommandView>, name: Seq<char>)
    ensures
        match child_index(children, name) {
            Some(k) => 0 <= k < children.len() && children[k].name == name,
            None => forall|j: int| 0 <= j < children.len() ==> children[j].name != name,
        },
    decreases children.len(),
{
    if children.len() > 0 && children.last().name != name {
        let rest = children.drop_last();
        lemma_child_index(rest, name);
        if child_index(rest, name) is None {
            assert forall|j: int| 0 <= j < children.len() implies children[j].name != name by {
                if j < rest.len() {
                    assert(rest[j] == children[j]);
                }
            }
        } else {
            let k = child_index(rest, name)->0;
            assert(rest[k] == children[k]);
        }
    }
}

impl CommandView {
    /// The preserved option that a token leads to: the token as it is
    /// written, or else its text behind the leading dashes with one dash,
    /// with two dashes, or with none in front, in this order.
    pub open spec fn preserved_position(self, name: Seq<char>) -> Option<int> {
        let bare = trim_dashes(name);
        if preserved_exact(self.preserved, name) is Some {
            preserved_exact(self.preserved, name)
        } else if preserved_exact(self.preserved, "-"@ + bare) is Some {
            preserved_exact(self.preserved, "-"@ + bare)
        } else if preserved_exact(self.preserved, "--"@ + bare) is Some {
            preserved_exact(self.preserved, "--"@ + bare)
        } else {
            preserved_exact(self.preserved, bare)
        }
    }

    /// Whether a token leads to a preserved option.
    pub open spec fn has_preserved_option(self, name: Seq<char>) -> bool {
        self.preserved_position(name) is Some
    }

    /// The command after `child` was put below it under `name`: in the
    /// place of the child of that name, or behind the others where there is
    /// none.
    pub open spec fn with_child_named(self, name: Seq<char>, child: CommandView) -> CommandView {
        CommandView {
            children: match child_index(self.children, name) {
                Some(k) => self.children.update(k, child),
                None => self.children.push(child),
            },
            ..self
        }
    }

    /// The command after `child` was added below it under its own name.
    pub open spec fn with_child(self, child: CommandView) -> CommandView {
        self.with_child_named(child.name, child)
    }

    /// The place that a child named `name` has, or would be given.
    pub open spec fn child_slot(self, name: Seq<char>) -> int {
        match child_index(self.children, name) {
            Some(k) => k,
            None => self.children.len() as int,
        }
    }
}

impl FliCommand {
    /// The index of the last preserved option with the short or long flag
    /// `flag`, short flags first.
    fn find_preserved(&self, flag: &str) -> (r: Option<usize>)
        ensures
            match preserved_exact(self@.preserved, flag@) {
                Some(i) => r matches Some(k) && k == i && k < self.preserved_options.len(),
                None => r is None,
            },
    {
        let wanted = String::from_str(flag);
        let nonempty = flag.unicode_len() > 0;
        let mut short: Option<usize> = None;
        let mut long: Option<usize> = None;
        let mut i: usize = 0;
        let ghost all = self@.preserved;
        proof {
            assert(all.take(0) =~= Seq::<PreservedOptionView>::empty());
        }
        while i < self.preserved_options.len()
            invariant
                i <= self.preserved_options.len(),
                all == self@.preserved,
                all.len() == self.preserved_options.len(),
                wanted@ == flag@,
                nonempty == (flag@.len() > 0),
                match last_preserved_short(all.take(i as int), flag@) {
                    Some(k) => short matches Some(f) && f == k && f < i,
                    None => short is None,
                },
                match last_preserved_long(all.take(i as int), flag@) {
                    Some(k) => long matches Some(f) && f == k && f < i,
                    None => long is None,
                },
            decreases self.preserved_options.len() - i,
        {
            proof {
                assert(all.take(i + 1).drop_last() =~= all.take(i as int));
                assert(all.take(i + 1).last() == self.preserved_options@[i as int]@);
            }
            if nonempty && self.preserved_options[i].short_flag == wanted {
                short = Some(i);
            }
            if nonempty && self.preserved_options[i].long_flag == wanted {
                long = Some(i);
            }
            i += 1;
        }
        proof {
            assert(all.take(i as int) =~= all);
        }
        match short {
            Some(k) => Some(k),
            None => long,
        }
    }

    /// The text of `name` behind the dashes it starts with.
    fn without_dashes<'a>(name: &'a str) -> (r: &'a str)
        ensures
            r@ == trim_dashes(name@),
    {
        let n = name.unicode_len();
        let mut k: usize = 0;
        assert(name@.skip(0) =~= name@);
        while k < n && name.get_char(k) == '-'
            invariant
                n == name@.len(),
                k <= n,
                trim_dashes(name@) == trim_dashes(name@.skip(k as int)),
            decreases n - k,
        {
            proof {
                assert(name@.skip(k as int)[0] == name@[k as int]);
                assert(name@.skip(k as int).drop_first() =~= name@.skip(k + 1));
            }
            k += 1;
        }
        proof {
            if k < n {
                assert(name@.skip(k as int)[0] == name@[k as int]);
            }
            assert(name@.skip(k as int) =~= name@.subrange(k as int, n as int));
        }
        name.substring_char(k, n)
    }

    /// Where a token leads among the preserved options, as
    /// `preserved_position` describes it.
    fn find_preserved_normalized(&self, name: &str) -> (r: Option<usize>)
        ensures
            match self@.preserved_position(name@) {
                Some(i) => r matches Some(k) && k == i && k < self.preserved_options.len(),
                None => r is None,
            },
    {
        match self.find_preserved(name) {
            Some(k) => {
                return Some(k);
            },
            None => {},
        }
        let bare = Self::without_dashes(name);
        let one = String::from_str("-").concat(bare);
        match self.find_preserved(one.as_str()) {
            Some(k) => {
                return Some(k);
            },
            None => {},
        }
        let two = String::from_str("--").concat(bare);
        match self.find_preserved(two.as_str()) {
            Some(k) => {
                return Some(k);
            },
            None => {},
        }
        self.find_preserved(bare)
    }

    /// The preserved option that a token leads to. The token may be written
    /// with its dashes or without: `help`, `-h` and `--help` lead to the
    /// same option.
    pub fn get_preserved_option(&self, name: &str) -> (r: Option<&PreservedOption>)
        ensures
            match self@.preserved_position(name@) {
                Some(i) => 0 <= i < self.preserved_options@.len() && r == Some(
                    &self.preserved_options@[i],
                ) && r->0@ == self@.preserved[i],
                None => r is None,
            },
    {
        match self.find_preserved_normalized(name) {
            Some(k) => Some(&self.preserved_options[k]),
            None => None,
        }
    }

    /// Whether a token leads to a preserved option.
    pub fn has_preserved_option(&self, name: &str) -> (r: bool)
        ensures
            r == self@.has_preserved_option(name@),
    {
        self.find_preserved_normalized(name).is_some()
    }

    /// The index of the last child named `name`.
    pub fn find_sub_command(&self, name: &str) -> (r: Option<usize>)
        ensures
            match child_index(self@.children, name@) {
                Some(i) => r matches Some(k) && k == i && k < self.sub_commands.len(),
                None => r is None,
            },
    {
        let wanted = String::from_str(name);
        let mut found: Option<usize> = None;
        let mut i: usize = 0;
        let ghost all = self@.children;
        proof {
            self.lemma_children_view();
            assert(all.take(0) =~= Seq::<CommandView>::empty());
        }
        while i < self.sub_commands.len()
            invariant
                i <= self.sub_commands.len(),
                all == self@.children,
                all.len() == self.sub_commands.len(),
                forall|j: int| 0 <= j < all.len() ==> #[trigger] all[j] == self.sub_commands@[j]@,
                wanted@ == name@,
                match child_index(all.take(i as int), name@) {
                    Some(k) => found matches Some(f) && f == k && f < i,
                    None => found is None,
                },
            decreases self.sub_commands.len() - i,
        {
            proof {
                assert(all.take(i + 1).drop_last() =~= all.take(i as int));
                assert(all.take(i + 1).last() == all[i as int]);
            }
            if self.sub_commands[i].name == wanted {
                found = Some(i);
            }
            i += 1;
        }
        proof {
            assert(all.take(i as int) =~= all);
        }
        found
    }

    /// The commands below this one, in the order in which they were added.
    pub fn get_sub_commands(&self) -> (r: &Vec<FliCommand>)
        ensures
            r == &self.sub_commands,
    {
        &self.sub_commands
    }

    /// Whether any command stands below this one.
    pub fn has_sub_commands(&self) -> (r: bool)
        ensures
            r == (self@.children.len() > 0),
    {
        proof {
            self.lemma_children_view();
        }
        self.sub_commands.len() > 0
    }

    /// Whether a command named `name` stands below this one.
    pub fn has_sub_command(&self, name: &str) -> (r: bool)
        ensures
            r == (child_index(self@.children, name@) is Some),
    {
        self.find_sub_command(name).is_some()
    }

    /// The command named `name` below this one.
    pub fn get_sub_command(&self, name: &str) -> (r: Option<&FliCommand>)
        ensures
            match child_index(self@.children, name@) {
                Some(i) => r matches Some(c) && c@ == self@.children[i],
                None => r is None,
            },
    {
        proof {
            self.lemma_children_view();
        }
        match self.find_sub_command(name) {
            Some(k) => Some(&self.sub_commands[k]),
            None => None,
        }
    }

    /// The names of the commands below this one, in order.
    pub fn sub_command_names(&self) -> (names: Vec<String>)
        ensures
            crate::text::texts(names@) == child_names(self@.children),
    {
        let mut names: Vec<String> = Vec::new();
        let mut i: usize = 0;
        proof {
            self.lemma_children_view();
        }
        while i < self.sub_commands.len()
            invariant
                i <= self.sub_commands.len(),
                names.len() == i,
                self@.children.len() == self.sub_commands.len(),
                forall|j: int|
                    0 <= j < self.sub_commands.len() ==> #[trigger] self@.children[j]
                        == self.sub_commands@[j]@,
                forall|j: int| 0 <= j < i ==> names@[j]@ == self@.children[j].name,
            decreases self.sub_commands.len() - i,
        {
            names.push(self.sub_commands[i].name.clone());
            i += 1;
        }
        assert(crate::text::texts(names@) =~= child_names(self@.children));
        names
    }

    /// Adds a command below this one. A child of the same name gives way
    /// to it.
    pub fn add_sub_command(&mut self, command: FliCommand)
        ensures
            final(self)@ == old(self)@.with_child(command@),
    {
        let ghost before = self@;
        proof {
            self.lemma_children_view();
        }
        match self.find_sub_command(command.name.as_str()) {
            Some(k) => {
                self.sub_commands.set(k, command);
                proof {
                    self.lemma_children_view();
                    assert(self@.children =~= before.children.update(k as int, command@));
                }
            },
            None => {
                self.sub_commands.push(command);
                proof {
                    self.lemma_children_view();
                    assert(self@.children =~= before.children.push(command@));
                }
            },
        }
    }
}


impl FliCommand {
    /// The command named `name` below this one, open to changes.
    pub fn get_sub_command_mut(&mut self, name: &str) -> (r: Option<&mut FliCommand>)
        ensures
            match child_index(old(self)@.children, name@) {
                Some(i) => r matches Some(c) && c@ == old(self)@.children[i] && final(self)@ == (
                CommandView {
                    children: old(self)@.children.update(i, final(c)@),
                    ..old(self)@
                }),
                None => r is None && final(self)@ == old(self)@,
            },
    {
        proof {
            self.lemma_children_view();
        }
        match self.find_sub_command(name) {
            Some(k) => Some(self.child_mut(k)),
            None => None,
        }
    }

    /// The child at `k`, open to changes.
    pub fn child_mut(&mut self, k: usize) -> (ret: &mut FliCommand)
        requires
            k < old(self)@.children.len(),
        ensures
            ret@ == old(self)@.children[k as int],
            final(self)@ == (CommandView {
                children: old(self)@.children.update(k as int, final(ret)@),
                ..old(self)@
            }),
    {
        proof {
            self.lemma_children_view();
        }
        let ghost before = *self;
        let ret = &mut self.sub_commands[k];
        proof {
            assert forall|after: FliCommand, child: FliCommand|
                after == (FliCommand {
                    sub_commands: after.sub_commands,
                    ..before
                }) && after.sub_commands@ == before.sub_commands@.update(
                    k as int,
                    child,
                ) implies #[trigger] after@ == (CommandView {
                children: before@.children.update(k as int, #[trigger] child@),
                ..before@
            }) by {
                after.lemma_children_view();
                before.lemma_children_view();
                assert(after@.children =~= before@.children.update(k as int, child@));
            }
        }
        ret
    }

    /// Makes a command named `name` below this one and hands it out for
    /// further set-up. It starts with its own copies of the options that
    /// are marked inheritable here at this moment, and with the help
    /// option. A child of the same name gives way to it.
    pub fn subcommand(&mut self, name: &str, description: &str) -> (ret: &mut FliCommand)
        requires
            old(self)@.registry.wf(),
        ensures
            ret@ == CommandView::fresh(
                name@,
                description@,
                old(self)@.registry.inherited_registry(),
            ),
            final(self)@ == old(self)@.with_child_named(name@, final(ret)@),
    {
        let inherited_builder = self.option_parser_builder.option_parser.inheritable_options_builder();
        let command = FliCommand::with_parser(name, description, inherited_builder);
        let ghost made = command@;
        let ghost before = self@;
        proof {
            lemma_child_index(before.children, name@);
        }
        self.add_sub_command(command);
        let ghost middle = self@;
        proof {
            lemma_child_index(middle.children, name@);
        }
        match self.find_sub_command(name) {
            Some(k) => {
                proof {
                    lemma_child_slot_after_insert(before, made);
                }
                let ret = self.child_mut(k);
                proof {
                    assert forall|c: CommandView|
                        (CommandView {
                            children: #[trigger] middle.children.update(k as int, c),
                            ..middle
                        }) == before.with_child_named(name@, c) by {
                        match child_index(before.children, name@) {
                            Some(j) => {
                                assert(middle.children.update(k as int, c)
                                    =~= before.children.update(j, c));
                            },
                            None => {
                                assert(middle.children.update(k as int, c)
                                    =~= before.children.push(c));
                            },
                        }
                    }
                }
                ret
            },
            None => {
                proof {
                    lemma_child_slot_after_insert(before, made);
                    assert(false);
                }
                self
            },
        }
    }
}

/// After a child was added, its name leads to the place it was given.
pub proof fn lemma_child_slot_after_insert(parent: CommandView, child: CommandView)
    ensures
        child_index(parent.with_child(child).children, child.name) == Some(
            parent.child_slot(child.name),
        ),
        parent.with_child(child).children[parent.child_slot(child.name)] == child,
{
    let name = child.name;
    let after = parent.with_child(child).children;
    lemma_child_index(parent.children, name);
    lemma_child_index(after, name);
    match child_index(parent.children, name) {
        Some(k) => {
            lemma_child_index_is_last(parent.children, name, k);
            assert(after[k] == child);
            lemma_child_index_characterised(after, name, k);
        },
        None => {
            lemma_child_index_characterised(after, name, parent.children.len() as int);
        },
    }
}

/// Behind the index that a name leads to, no child has that name.
pub proof fn lemma_child_index_is_last(children: Seq<CommandView>, name: Seq<char>, k: int)
    requires
        child_index(children, name) == Some(k),
    ensures
        forall|j: int| k < j < children.len() ==> children[j].name != name,
    decreases children.len(),
{
    lemma_child_index(children, name);
    if children.len() > 0 && children.last().name != name {
        let rest = children.drop_last();
        lemma_child_index_is_last(rest, name, k);
        assert forall|j: int| k < j < children.len() implies children[j].name != name by {
            if j < rest.len() {
                assert(rest[j] == children[j]);
            }
        }
    }
}

/// A name leads to the last index that bears it.
pub proof fn lemma_child_index_characterised(children: Seq<CommandView>, name: Seq<char>, k: int)
    requires
        0 <= k < children.len(),
        children[k].name == name,
        forall|j: int| k < j < children.len() ==> children[j].name != name,
    ensures
        child_index(children, name) == Some(k),
    decreases children.len(),
{
    if children.last().name != name {
        let rest = children.drop_last();
        assert(rest[k] == children[k]);
        assert forall|j: int| k < j < rest.len() implies rest[j].name != name by {
            assert(rest[j] == children[j]);
        }
        lemma_child_index_characterised(rest, name, k);
    }
}


/// The context that a handler is run with: a snapshot of the command that
/// the command line ended in, its options with the values read, the
/// positional arguments, and the parser.
#[derive(Debug)]
pub struct FliCallbackData {
    pub command: FliCommand,
    pub option_parser: CommandOptionsParser,
    pub arguments: Vec<String>,
    pub arg_parser: InputArgsParser,
}

/// The mathematical content of a `FliCallbackData`.
pub struct CallbackDataView {
    pub command: CommandView,
    pub registry: RegistryView,
    pub arguments: Seq<Seq<char>>,
    pub parser: ParserView,
}

impl View for FliCallbackData {
    type V = CallbackDataView;

    open spec fn view(&self) -> CallbackDataView {
        CallbackDataView {
            command: self.command@,
            registry: self.option_parser@,
            arguments: crate::text::texts(self.arguments@),
            parser: self.arg_parser@,
        }
    }
}

impl CallbackDataView {
    /// The value of the option that `name` leads to. A name that starts
    /// with a dash is looked up as it is; any other is tried with one dash
    /// in front, then with two, then bare.
    pub open spec fn option_value(self, name: Seq<char>) -> Option<ValueTypesView> {
        if name.len() > 0 && name[0] == '-' {
            self.registry.expected_value_type(name)
        } else if self.registry.has_option("-"@ + name) {
            self.registry.expected_value_type("-"@ + name)
        } else if self.registry.has_option("--"@ + name) {
            self.registry.expected_value_type("--"@ + name)
        } else {
            self.registry.expected_value_type(name)
        }
    }
}

impl FliCallbackData {
    /// Puts a context together from its parts.
    pub fn new(
        command: FliCommand,
        option_parser: CommandOptionsParser,
        arguments: Vec<String>,
        arg_parser: InputArgsParser,
    ) -> (d: FliCallbackData)
        ensures
            d@ == (CallbackDataView {
                command: command@,
                registry: option_parser@,
                arguments: crate::text::texts(arguments@),
                parser: arg_parser@,
            }),
    {
        FliCallbackData { command, option_parser, arguments, arg_parser }
    }

    /// The value of an option, by its flag with or without the dashes.
    pub fn get_option_value(&self, name: &str) -> (r: Option<&ValueTypes>)
        ensures
            match self@.option_value(name@) {
                Some(v) => r matches Some(out) && out@ == v,
                None => r is None,
            },
    {
        let dashed = name.unicode_len() > 0 && name.get_char(0) == '-';
        if dashed {
            return self.option_parser.get_option_expected_value_type(name);
        }
        let short = String::from_str("-").concat(name);
        if self.option_parser.has_option(short.as_str()) {
            return self.option_parser.get_option_expected_value_type(short.as_str());
        }
        let long = String::from_str("--").concat(name);
        if self.option_parser.has_option(long.as_str()) {
            return self.option_parser.get_option_expected_value_type(long.as_str());
        }
        self.option_parser.get_option_expected_value_type(name)
    }

    /// The positional argument at `index`, if there are that many.
    pub fn get_argument_at(&self, index: usize) -> (r: Option<&String>)
        ensures
            match r {
                Some(a) => index < self@.arguments.len() && a@ == self@.arguments[index as int],
                None => index >= self@.arguments.len(),
            },
    {
        if index < self.arguments.len() {
            Some(&self.arguments[index])
        } else {
            None
        }
    }

    /// All positional arguments, in order.
    pub fn get_arguments(&self) -> (r: &Vec<String>)
        ensures
            r == &self.arguments,
    {
        &self.arguments
    }

    /// The command that the command line ended in.
    pub fn get_command(&self) -> (r: &FliCommand)
        ensures
            r == &self.command,
    {
        &self.command
    }

    /// The parser, with the chain that was left for this command.
    pub fn get_arg_parser(&self) -> (r: &InputArgsParser)
        ensures
            r == &self.arg_parser,
    {
        &self.arg_parser
    }
}

impl Clone for FliCallbackData {
    fn clone(&self) -> (d: FliCallbackData)
        ensures
            d@ == self@,
    {
        FliCallbackData {
            command: self.command.duplicate(),
            option_parser: self.option_parser.duplicate(),
            arguments: crate::text::duplicate_strings(&self.arguments),
            arg_parser: self.arg_parser.duplicate(),
        }
    }
}

/// What a run ends in: the handler that is due, if there is one, and the
/// context to run it with.
#[derive(Debug)]
pub struct Dispatch {
    pub callback: Option<Callback>,
    pub data: FliCallbackData,
}

/// The mathematical content of a `Dispatch`.
pub struct DispatchView {
    pub callback: Option<Callback>,
    pub data: CallbackDataView,
}

impl View for Dispatch {
    type V = DispatchView;

    open spec fn view(&self) -> DispatchView {
        DispatchView { callback: self.callback, data: self.data@ }
    }
}

/// The index of the first subcommand entry of a chain.
pub open spec fn first_subcommand(chain: Seq<ChainView>) -> Option<int>
    decreases chain.len(),
{
    if chain.len() == 0 {
        None
    } else {
        match first_subcommand(chain.drop_last()) {
            Some(i) => Some(i),
            None => if chain.last() is SubCommand {
                Some(chain.len() - 1)
            } else {
                None
            },
        }
    }
}

/// The positional arguments of a chain, in order.
pub open spec fn arguments_of(chain: Seq<ChainView>) -> Seq<Seq<char>>
    decreases chain.len(),
{
    if chain.len() == 0 {
        Seq::empty()
    } else {
        let rest = arguments_of(chain.drop_last());
        match chain.last() {
            ChainView::Argument(token) => rest.push(token),
            _ => rest,
        }
    }
}

/// The token of the last preserved-option entry of a chain.
pub open spec fn last_preserved(chain: Seq<ChainView>) -> Option<Seq<char>>
    decreases chain.len(),
{
    if chain.len() == 0 {
        None
    } else {
        match chain.last() {
            ChainView::IsPreservedOption(token) => Some(token),
            _ => last_preserved(chain.drop_last()),
        }
    }
}

/// The parser that a subcommand is handed: the chain behind the subcommand
/// entry at `idx`, prepared, without tokens.
pub open spec fn parser_below(parser: ParserView, idx: int) -> ParserView {
    ParserView {
        command: parser.command,
        args: Seq::empty(),
        float_readings: Seq::empty(),
        chain: parser.chain.skip(idx + 1),
        is_prepared: true,
    }
}

/// The handler that is due at the command that a chain ends in: that of
/// the last preserved option in the chain, where the command knows it, and
/// else the command's own.
pub open spec fn due_callback(command: CommandView, chain: Seq<ChainView>) -> Option<Callback> {
    match last_preserved(chain) {
        Some(token) => match command.preserved_position(token) {
            Some(p) => Some(command.preserved[p].callback),
            None => command.callback,
        },
        None => command.callback,
    }
}

/// The first subcommand entry of a chain is a subcommand entry, and none
/// stands before it.
pub proof fn lemma_first_subcommand(chain: Seq<ChainView>)
    ensures
        match first_subcommand(chain) {
            Some(i) => 0 <= i < chain.len() && chain[i] is SubCommand && first_subcommand(
                chain.take(i),
            ) is None,
            None => forall|j: int| 0 <= j < chain.len() ==> !(chain[j] is SubCommand),
        },
    decreases chain.len(),
{
    if chain.len() > 0 {
        let rest = chain.drop_last();
        lemma_first_subcommand(rest);
        match first_subcommand(rest) {
            Some(i) => {
                assert(rest[i] == chain[i]);
                assert(rest.take(i) =~= chain.take(i));
            },
            None => {
                if chain.last() is SubCommand {
                    assert(chain.take(chain.len() - 1) =~= rest);
                } else {
                    assert forall|j: int| 0 <= j < chain.len() implies !(chain[j] is SubCommand) by {
                        if j < rest.len() {
                            assert(rest[j] == chain[j]);
                        }
                    }
                }
            },
        }
    } else {
        assert(chain.take(0) =~= chain);
    }
}

/// Where a parsed chain leads: an empty chain is a wrong usage; a chain
/// with a subcommand entry leads on to that child with the entries behind
/// it; a chain without one ends at this command, with the chain's arguments
/// and the handler that is due.
pub open spec fn dispatched(command: CommandView, parser: ParserView) -> Result<
    DispatchView,
    FliErrorView,
>
    decreases parser.chain.len(),
{
    if parser.chain.len() == 0 {
        Err(FliErrorView::InvalidUsage("No command or arguments provided"@))
    } else {
        match first_subcommand(parser.chain) {
            Some(idx) => {
                proof {
                    lemma_first_subcommand(parser.chain);
                }
                let name = parser.chain[idx]->SubCommand_0;
                match child_index(command.children, name) {
                    Some(k) => dispatched(command.children[k], parser_below(parser, idx)),
                    None => Err(FliErrorView::UnknownCommand(name, child_names(command.children))),
                }
            },
            None => Ok(
                DispatchView {
                    callback: due_callback(command, parser.chain),
                    data: CallbackDataView {
                        command,
                        registry: command.registry,
                        arguments: arguments_of(parser.chain),
                        parser,
                    },
                },
            ),
        }
    }
}

/// A subcommand entry with none before it is the first.
pub proof fn lemma_first_subcommand_at(chain: Seq<ChainView>, i: int)
    requires
        0 <= i < chain.len(),
        chain[i] is SubCommand,
        first_subcommand(chain.take(i)) is None,
    ensures
        first_subcommand(chain) == Some(i),
    decreases chain.len(),
{
    let rest = chain.drop_last();
    if i == chain.len() - 1 {
        assert(chain.take(i) =~= rest);
    } else {
        assert(rest[i] == chain[i]);
        assert(rest.take(i) =~= chain.take(i));
        lemma_first_subcommand_at(rest, i);
    }
}


/// The command tree as a run leaves it: with the values that the parse
/// stored, or untouched where the parser was prepared already.
pub open spec fn run_command(command: CommandView, parser: ParserView) -> CommandView {
    if parser.is_prepared {
        command
    } else {
        parse(command, parser).command
    }
}

/// What a run ends in: the error of the parse, or where the parsed chain
/// leads from the command.
pub open spec fn run_result(command: CommandView, parser: ParserView) -> Result<
    DispatchView,
    FliErrorView,
> {
    if parser.is_prepared {
        dispatched(command, parser)
    } else {
        match parse(command, parser).result {
            Ok(end) => dispatched(parse(command, parser).command, end.parser()),
            Err(e) => Err(e),
        }
    }
}

impl FliCommand {
    /// Follows a parsed chain from this command down to the command it ends
    /// in, as `dispatched` describes it, and says which handler is due
    /// there and with which context.
    pub fn dispatch(&self, arg_parser: InputArgsParser) -> (r: Result<Dispatch, FliError>)
        ensures
            match dispatched(self@, arg_parser@) {
                Ok(d) => r matches Ok(out) && out@ == d,
                Err(e) => r matches Err(x) && x@ == e,
            },
        decreases arg_parser@.chain.len(),
    {
        let n = arg_parser.command_chain.len();
        if n == 0 {
            return Err(FliError::InvalidUsage(String::from_str("No command or arguments provided")));
        }
        let ghost chain = arg_parser@.chain;
        let mut arguments: Vec<String> = Vec::new();
        let mut preserved: Option<String> = None;
        let mut i: usize = 0;
        proof {
            assert(chain.take(0) =~= Seq::<ChainView>::empty());
            assert(crate::text::texts(arguments@) =~= Seq::<Seq<char>>::empty());
        }
        while i < n
            invariant
                i <= n,
                n == arg_parser.command_chain.len(),
                n > 0,
                chain == arg_parser@.chain,
                first_subcommand(chain.take(i as int)) is None,
                crate::text::texts(arguments@) == arguments_of(chain.take(i as int)),
                match last_preserved(chain.take(i as int)) {
                    Some(token) => preserved matches Some(p) && p@ == token,
                    None => preserved is None,
                },
            decreases n - i,
        {
            proof {
                assert(chain.take(i + 1).drop_last() =~= chain.take(i as int));
                assert(chain.take(i + 1).last() == arg_parser.command_chain@[i as int]@);
            }
            let ghost before = crate::text::texts(arguments@);
            match &arg_parser.command_chain[i] {
                CommandChain::SubCommand(sub_name) => {
                    proof {
                        lemma_first_subcommand_at(chain, i as int);
                        lemma_child_index(self@.children, sub_name@);
                        self.lemma_children_view();
                    }
                    match self.find_sub_command(sub_name.as_str()) {
                        Some(k) => {
                            let sub_parser = arg_parser.with_remaining_chain(i + 1);
                            proof {
                                if i + 1 == n {
                                    assert(chain.skip(i + 1) =~= Seq::<ChainView>::empty());
                                }
                                assert(sub_parser@.args =~= Seq::<Seq<char>>::empty());
                                assert(sub_parser@.float_readings =~= Seq::<Option<u64>>::empty());
                                assert(sub_parser@ == parser_below(arg_parser@, i as int));
                            }
                            return self.sub_commands[k].dispatch(sub_parser);
                        },
                        None => {
                            return Err(
                                FliError::UnknownCommand(sub_name.clone(), self.sub_command_names()),
                            );
                        },
                    }
                },
                CommandChain::Argument(token) => {
                    arguments.push(token.clone());
                    assert(crate::text::texts(arguments@) =~= before.push(token@));
                },
                CommandChain::Option(_, _) => {},
                CommandChain::IsPreservedOption(token) => {
                    preserved = Some(token.clone());
                },
            }
            i += 1;
        }
        proof {
            assert(chain.take(i as int) =~= chain);
        }
        let callback = match preserved {
            Some(token) => match self.get_preserved_option(token.as_str()) {
                Some(p) => Some(p.callback),
                None => self.callback,
            },
            None => self.callback,
        };
        let data = FliCallbackData::new(
            self.duplicate(),
            self.option_parser_builder.option_parser.duplicate(),
            arguments,
            arg_parser,
        );
        Ok(Dispatch { callback, data })
    }

    /// Parses the tokens of `arg_parser` against this command, then follows
    /// the chain to the command it ends in and says which handler is due
    /// there. A parse error ends the run. Running the handler is left to
    /// the caller.
    pub fn run(&mut self, arg_parser: InputArgsParser) -> (r: Result<Dispatch, FliError>)
        ensures
            final(self)@ == run_command(old(self)@, arg_parser@),
            match run_result(old(self)@, arg_parser@) {
                Ok(d) => r matches Ok(out) && out@ == d,
                Err(e) => r matches Err(x) && x@ == e,
            },
    {
        let mut parser = arg_parser;
        match parser.prepare(self) {
            Ok(_) => {},
            Err(e) => {
                return Err(e);
            },
        }
        self.dispatch(parser)
    }
}

impl Clone for FliCommand {
    fn clone(&self) -> (c: FliCommand)
        ensures
            c@ == self@,
    {
        self.duplicate()
    }
}

} // verus!
