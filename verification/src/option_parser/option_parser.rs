//! The registry of the options of one command.
use vstd::prelude::*;
use vstd::string::*;
use crate::error::FliError;
use crate::option_parser::value_types::{strs_view, ValueTypes, ValueTypesView};

verus! {

/// One registered option: its identity, its two flags and the value it
/// holds now.
#[derive(Debug, Clone)]
pub struct SingleOption {
    pub name: String,
    pub description: String,
    pub short_flag: String,
    pub long_flag: String,
    pub value: ValueTypes,
}

/// The mathematical content of a `SingleOption`.
pub struct SingleOptionView {
    pub name: Seq<char>,
    pub description: Seq<char>,
    pub short_flag: Seq<char>,
    pub long_flag: Seq<char>,
    pub value: ValueTypesView,
}

impl View for SingleOption {
    type V = SingleOptionView;

    open spec fn view(&self) -> SingleOptionView {
        SingleOptionView {
            name: self.name@,
            description: self.description@,
            short_flag: self.short_flag@,
            long_flag: self.long_flag@,
            value: self.value@,
        }
    }
}

impl SingleOption {
    /// A copy of the option.
    pub fn duplicate(&self) -> (o: SingleOption)
        ensures
            o@ == self@,
    {
        SingleOption {
            name: self.name.clone(),
            description: self.description.clone(),
            short_flag: self.short_flag.clone(),
            long_flag: self.long_flag.clone(),
            value: self.value.duplicate(),
        }
    }
}

/// A list of indices as mathematical integers.
pub open spec fn indices_view(indices: Seq<usize>) -> Seq<int> {
    Seq::new(indices.len(), |k: int| indices[k] as int)
}

/// The contents of a list of options, one by one.
pub open spec fn options_view(options: Seq<SingleOption>) -> Seq<SingleOptionView> {
    Seq::new(options.len(), |i: int| options[i]@)
}

/// The index of the last option whose short flag is `flag`.
pub open spec fn last_short(options: Seq<SingleOptionView>, flag: Seq<char>) -> Option<int>
    decreases options.len(),
{
    if options.len() == 0 {
        None
    } else if options.last().short_flag == flag {
        Some(options.len() - 1)
    } else {
        last_short(options.drop_last(), flag)
    }
}

/// The index of the last option whose long flag is `flag`.
pub open spec fn last_long(options: Seq<SingleOptionView>, flag: Seq<char>) -> Option<int>
    decreases options.len(),
{
    if options.len() == 0 {
        None
    } else if options.last().long_flag == flag {
        Some(options.len() - 1)
    } else {
        last_long(options.drop_last(), flag)
    }
}

/// The mathematical content of a registry: its options in the order of
/// registration, and the indices of those marked inheritable, in the order
/// of marking.
pub struct RegistryView {
    pub options: Seq<SingleOptionView>,
    pub inheritable: Seq<int>,
}

impl RegistryView {
    /// The registry without options.
    pub open spec fn empty() -> RegistryView {
        RegistryView { options: Seq::empty(), inheritable: Seq::empty() }
    }

    /// Where a flag leads: the last option registered under it as a short
    /// flag, or else the last one registered under it as a long flag. A
    /// later registration under the same flag hides an earlier one.
    pub open spec fn position(self, flag: Seq<char>) -> Option<int> {
        match last_short(self.options, flag) {
            Some(i) => Some(i),
            None => last_long(self.options, flag),
        }
    }

    /// Whether the flag leads to an option.
    pub open spec fn has_option(self, flag: Seq<char>) -> bool {
        self.position(flag) is Some
    }

    /// The arity and value of the option that the flag leads to.
    pub open spec fn expected_value_type(self, flag: Seq<char>) -> Option<ValueTypesView> {
        match self.position(flag) {
            Some(i) => Some(self.options[i].value),
            None => None,
        }
    }

    /// Every inheritable index names an option, and none occurs twice.
    pub open spec fn wf(self) -> bool {
        &&& forall|k: int|
            0 <= k < self.inheritable.len() ==> 0 <= #[trigger] self.inheritable[k]
                < self.options.len()
        &&& forall|j: int, k: int|
            0 <= j < k < self.inheritable.len() ==> self.inheritable[j] != self.inheritable[k]
    }

    /// The registry after `flag` was marked inheritable: unchanged where the
    /// flag is unknown or its option is marked already.
    pub open spec fn marked(self, flag: Seq<char>) -> RegistryView {
        match self.position(flag) {
            Some(i) => if self.inheritable.contains(i) {
                self
            } else {
                RegistryView { inheritable: self.inheritable.push(i), ..self }
            },
            None => self,
        }
    }

    /// The registry after the first `n` of `flags` were marked, one after
    /// the other.
    pub open spec fn marked_upto(self, flags: Seq<Seq<char>>, n: int) -> RegistryView
        decreases n,
    {
        if n <= 0 {
            self
        } else {
            self.marked_upto(flags, n - 1).marked(flags[n - 1])
        }
    }

    /// Whether `k` is the index of the first of `flags` that leads to no
    /// option.
    pub open spec fn is_first_unknown(self, flags: Seq<Seq<char>>, k: int) -> bool {
        &&& 0 <= k < flags.len()
        &&& !self.has_option(flags[k])
        &&& forall|j: int| 0 <= j < k ==> self.has_option(#[trigger] flags[j])
    }

    /// The options marked inheritable, in the order of marking.
    pub open spec fn inherited(self) -> Seq<SingleOptionView> {
        Seq::new(self.inheritable.len(), |k: int| self.options[self.inheritable[k]])
    }

    /// The registry after an option made of the given parts was registered
    /// behind the others.
    pub open spec fn registered(
        self,
        name: Seq<char>,
        description: Seq<char>,
        short_flag: Seq<char>,
        long_flag: Seq<char>,
        value: ValueTypesView,
    ) -> RegistryView {
        RegistryView {
            options: self.options.push(
                SingleOptionView { name, description, short_flag, long_flag, value },
            ),
            ..self
        }
    }

    /// The registry that a command made below this one starts with: the
    /// inherited options, none of them marked.
    pub open spec fn inherited_registry(self) -> RegistryView {
        RegistryView { options: self.inherited(), inheritable: Seq::empty() }
    }

    /// The registry with the value of the option at `i` replaced.
    pub open spec fn with_value(self, i: int, value: ValueTypesView) -> RegistryView {
        RegistryView {
            options: self.options.update(i, SingleOptionView { value, ..self.options[i] }),
            ..self
        }
    }
}

/// The options of one command, found by either of their flags.
#[derive(Debug, Clone)]
pub struct CommandOptionsParser {
    pub options: Vec<SingleOption>,
    pub inheritable_flags: Vec<usize>,
}

impl View for CommandOptionsParser {
    type V = RegistryView;

    open spec fn view(&self) -> RegistryView {
        RegistryView {
            options: options_view(self.options@),
            inheritable: indices_view(self.inheritable_flags@),
        }
    }
}

/// A lookup result is an index into the options.
pub proof fn lemma_last_short_in_range(options: Seq<SingleOptionView>, flag: Seq<char>)
    ensures
        match last_short(options, flag) {
            Some(i) => 0 <= i < options.len() && options[i].short_flag == flag,
            None => forall|j: int| 0 <= j < options.len() ==> options[j].short_flag != flag,
        },
    decreases options.len(),
{
    if options.len() > 0 && options.last().short_flag != flag {
        let rest = options.drop_last();
        lemma_last_short_in_range(rest, flag);
        if last_short(rest, flag) is None {
            assert forall|j: int| 0 <= j < options.len() implies options[j].short_flag != flag by {
                if j < rest.len() {
                    assert(rest[j] == options[j]);
                }
            }
        } else {
            let i = last_short(rest, flag)->0;
            assert(rest[i] == options[i]);
        }
    }
}

/// A lookup result is an index into the options.
pub proof fn lemma_last_long_in_range(options: Seq<SingleOptionView>, flag: Seq<char>)
    ensures
        match last_long(options, flag) {
            Some(i) => 0 <= i < options.len() && options[i].long_flag == flag,
            None => forall|j: int| 0 <= j < options.len() ==> options[j].long_flag != flag,
        },
    decreases options.len(),
{
    if options.len() > 0 && options.last().long_flag != flag {
        let rest = options.drop_last();
        lemma_last_long_in_range(rest, flag);
        if last_long(rest, flag) is None {
            assert forall|j: int| 0 <= j < options.len() implies options[j].long_flag != flag by {
                if j < rest.len() {
                    assert(rest[j] == options[j]);
                }
            }
        } else {
            let i = last_long(rest, flag)->0;
            assert(rest[i] == options[i]);
        }
    }
}

impl CommandOptionsParser {
    /// An empty registry.
    pub fn new() -> (p: CommandOptionsParser)
        ensures
            p@ == RegistryView::empty(),
            p@.wf(),
    {
        let p = CommandOptionsParser { options: Vec::new(), inheritable_flags: Vec::new() };
        assert(p@.options =~= Seq::<SingleOptionView>::empty());
        assert(p@.inheritable =~= Seq::<int>::empty());
        p
    }

    /// The index of the last option with the short flag `flag`.
    fn find_short(&self, flag: &str) -> (r: Option<usize>)
        ensures
            match last_short(self@.options, flag@) {
                Some(i) => r matches Some(k) && k == i && k < self.options.len(),
                None => r is None,
            },
    {
        let wanted = String::from_str(flag);
        let mut found: Option<usize> = None;
        let mut i: usize = 0;
        let ghost all = self@.options;
        proof {
            assert(all.take(0) =~= Seq::<SingleOptionView>::empty());
        }
        while i < self.options.len()
            invariant
                i <= self.options.len(),
                all == self@.options,
                wanted@ == flag@,
                match last_short(all.take(i as int), flag@) {
                    Some(k) => found matches Some(f) && f == k && f < i,
                    None => found is None,
                },
            decreases self.options.len() - i,
        {
            proof {
                assert(all.take(i + 1).drop_last() =~= all.take(i as int));
                assert(all.take(i + 1).last() == self.options@[i as int]@);
            }
            if self.options[i].short_flag == wanted {
                found = Some(i);
            }
            i += 1;
        }
        proof {
            assert(all.take(i as int) =~= all);
        }
        found
    }

    /// The index of the last option with the long flag `flag`.
    fn find_long(&self, flag: &str) -> (r: Option<usize>)
        ensures
            match last_long(self@.options, flag@) {
                Some(i) => r matches Some(k) && k == i && k < self.options.len(),
                None => r is None,
            },
    {
        let wanted = String::from_str(flag);
        let mut found: Option<usize> = None;
        let mut i: usize = 0;
        let ghost all = self@.options;
        proof {
            assert(all.take(0) =~= Seq::<SingleOptionView>::empty());
        }
        while i < self.options.len()
            invariant
                i <= self.options.len(),
                all == self@.options,
                wanted@ == flag@,
                match last_long(all.take(i as int), flag@) {
                    Some(k) => found matches Some(f) && f == k && f < i,
                    None => found is None,
                },
            decreases self.options.len() - i,
        {
            proof {
                assert(all.take(i + 1).drop_last() =~= all.take(i as int));
                assert(all.take(i + 1).last() == self.options@[i as int]@);
            }
            if self.options[i].long_flag == wanted {
                found = Some(i);
            }
            i += 1;
        }
        proof {
            assert(all.take(i as int) =~= all);
        }
        found
    }

    /// Where a flag leads, short flags first.
    pub fn get_option_position(&self, flag: &str) -> (r: Option<usize>)
        ensures
            match self@.position(flag@) {
                Some(i) => r matches Some(k) && k == i && k < self.options.len(),
                None => r is None,
            },
    {
        match self.find_short(flag) {
            Some(i) => Some(i),
            None => self.find_long(flag),
        }
    }

    /// Whether an option is registered under the flag, short or long.
    pub fn has_option(&self, flag: &str) -> (r: bool)
        ensures
            r == self@.has_option(flag@),
    {
        self.get_option_position(flag).is_some()
    }

    /// All registered options, in the order of registration.
    pub fn get_options(&self) -> (r: &Vec<SingleOption>)
        ensures
            r == &self.options,
    {
        &self.options
    }

    /// The last option registered under the short flag.
    pub fn get_option_by_short_flag(&self, flag: &str) -> (r: Option<&SingleOption>)
        ensures
            match last_short(self@.options, flag@) {
                Some(i) => r == Some(&self.options@[i]),
                None => r is None,
            },
    {
        match self.find_short(flag) {
            Some(i) => Some(&self.options[i]),
            None => None,
        }
    }

    /// The last option registered under the long flag.
    pub fn get_option_by_long_flag(&self, flag: &str) -> (r: Option<&SingleOption>)
        ensures
            match last_long(self@.options, flag@) {
                Some(i) => r == Some(&self.options@[i]),
                None => r is None,
            },
    {
        match self.find_long(flag) {
            Some(i) => Some(&self.options[i]),
            None => None,
        }
    }

    /// The arity and value of the option that the flag leads to.
    pub fn get_option_expected_value_type(&self, flag: &str) -> (r: Option<&ValueTypes>)
        ensures
            match self@.position(flag@) {
                Some(i) => r == Some(&self.options@[i].value),
                None => r is None,
            },
            match r {
                Some(v) => self@.expected_value_type(flag@) == Some(v@),
                None => self@.expected_value_type(flag@) is None,
            },
    {
        match self.get_option_position(flag) {
            Some(i) => Some(&self.options[i].value),
            None => None,
        }
    }
}


impl CommandOptionsParser {
    /// A copy of the registry.
    pub fn duplicate(&self) -> (p: CommandOptionsParser)
        ensures
            p@ == self@,
    {
        let mut options: Vec<SingleOption> = Vec::new();
        let mut i: usize = 0;
        while i < self.options.len()
            invariant
                i <= self.options.len(),
                options.len() == i,
                forall|j: int| 0 <= j < i ==> options@[j]@ == self.options@[j]@,
            decreases self.options.len() - i,
        {
            options.push(self.options[i].duplicate());
            i += 1;
        }
        let p = CommandOptionsParser { options, inheritable_flags: self.inheritable_flags.clone() };
        assert(p@.options =~= self@.options);
        assert(p@.inheritable =~= self@.inheritable);
        p
    }

    /// Registers an option behind the others. Where one of its flags is
    /// taken already, the flag leads to the new option from now on.
    pub fn add_option(&mut self, option: SingleOption)
        ensures
            final(self)@.options == old(self)@.options.push(option@),
            final(self)@.inheritable == old(self)@.inheritable,
            old(self)@.wf() ==> final(self)@.wf(),
    {
        self.options.push(option);
        assert(self@.options =~= old(self)@.options.push(option@));
    }

    /// Replaces the value of the option that `flag` leads to. An unknown
    /// flag is reported and nothing changes.
    pub fn update_option_value(&mut self, flag: &str, value: ValueTypes) -> (r: Result<(), FliError>)
        ensures
            match old(self)@.position(flag@) {
                Some(i) => r is Ok && final(self)@ == old(self)@.with_value(i, value@),
                None => r matches Err(FliError::OptionNotFound(f)) && f@ == flag@
                    && final(self)@ == old(self)@,
            },
            old(self)@.wf() ==> final(self)@.wf(),
    {
        match self.get_option_position(flag) {
            Some(index) => {
                let ghost before = self@;
                let mut option = self.options[index].duplicate();
                option.value = value;
                self.options.set(index, option);
                assert(self@.options =~= before.with_value(index as int, value@).options);
                Ok(())
            },
            None => Err(FliError::OptionNotFound(String::from_str(flag))),
        }
    }

    /// Whether `index` is marked inheritable.
    fn is_marked(&self, index: usize) -> (r: bool)
        ensures
            r == self@.inheritable.contains(index as int),
    {
        let mut k: usize = 0;
        while k < self.inheritable_flags.len()
            invariant
                k <= self.inheritable_flags.len(),
                forall|j: int| 0 <= j < k ==> self.inheritable_flags@[j] != index,
            decreases self.inheritable_flags.len() - k,
        {
            if self.inheritable_flags[k] == index {
                assert(self@.inheritable[k as int] == index as int);
                return true;
            }
            k += 1;
        }
        assert forall|j: int| 0 <= j < self@.inheritable.len() implies self@.inheritable[j]
            != index as int by {
            assert(self.inheritable_flags@[j] != index);
        }
        false
    }

    /// Marks the option that `flag` leads to as inheritable: commands made
    /// below this one afterwards start with a copy of it. Marking twice
    /// changes nothing; an unknown flag is reported and nothing changes.
    pub fn mark_inheritable(&mut self, flag: &str) -> (r: Result<(), FliError>)
        ensures
            match old(self)@.position(flag@) {
                Some(_) => r is Ok,
                None => r matches Err(FliError::OptionNotFound(f)) && f@ == flag@,
            },
            final(self)@ == old(self)@.marked(flag@),
            old(self)@.wf() ==> final(self)@.wf(),
    {
        match self.get_option_position(flag) {
            Some(index) => {
                let ghost before = self@;
                if !self.is_marked(index) {
                    self.inheritable_flags.push(index);
                    assert(self@.inheritable =~= before.inheritable.push(index as int));
                    assert forall|j: int, k: int|
                        before.wf() && 0 <= j < k < self@.inheritable.len() implies self@.inheritable[j]
                        != self@.inheritable[k] by {
                        if k == before.inheritable.len() {
                            assert(before.inheritable[j] == self@.inheritable[j]);
                            assert(before.inheritable.contains(before.inheritable[j]));
                        }
                    }
                }
                Ok(())
            },
            None => Err(FliError::OptionNotFound(String::from_str(flag))),
        }
    }

    /// Marks several options as inheritable, in the order given. The first
    /// unknown flag is reported and ends the work: the flags before it stay
    /// marked, the flags behind it are not looked at.
    pub fn mark_inheritable_many(&mut self, flags: &[&str]) -> (r: Result<(), FliError>)
        ensures
            match r {
                Ok(_) => {
                    &&& forall|j: int|
                        0 <= j < flags@.len() ==> old(self)@.has_option(
                            #[trigger] strs_view(flags@)[j],
                        )
                    &&& final(self)@ == old(self)@.marked_upto(
                        strs_view(flags@),
                        flags@.len() as int,
                    )
                },
                Err(e) => exists|k: int|
                    {
                        &&& #[trigger] old(self)@.is_first_unknown(strs_view(flags@), k)
                        &&& e matches FliError::OptionNotFound(f) && f@ == flags@[k]@
                        &&& final(self)@ == old(self)@.marked_upto(strs_view(flags@), k)
                    },
            },
            old(self)@.wf() ==> final(self)@.wf(),
    {
        let ghost texts = strs_view(flags@);
        let mut i: usize = 0;
        while i < flags.len()
            invariant
                i <= flags.len(),
                texts == strs_view(flags@),
                self@ == old(self)@.marked_upto(texts, i as int),
                self@.options == old(self)@.options,
                old(self)@.wf() ==> self@.wf(),
                forall|j: int| 0 <= j < i ==> old(self)@.has_option(#[trigger] texts[j]),
            decreases flags.len() - i,
        {
            let ghost before = self@;
            assert(texts[i as int] == flags@[i as int]@);
            match self.mark_inheritable(flags[i]) {
                Ok(_) => {},
                Err(e) => {
                    proof {
                        assert(before.position(texts[i as int]) == old(self)@.position(
                            texts[i as int],
                        ));
                        assert(old(self)@.is_first_unknown(texts, i as int));
                    }
                    return Err(e);
                },
            }
            proof {
                assert(before.position(texts[i as int]) == old(self)@.position(texts[i as int]));
            }
            i += 1;
        }
        Ok(())
    }

    /// A new registry builder that starts with copies of the inheritable
    /// options, in the order in which they were marked. It shares nothing
    /// with this registry, and none of its options is marked inheritable.
    pub fn inheritable_options_builder(&self) -> (b: CommandOptionsParserBuilder)
        requires
            self@.wf(),
        ensures
            b@ == self@.inherited_registry(),
            b@.wf(),
    {
        let mut builder = CommandOptionsParserBuilder::new();
        let mut k: usize = 0;
        while k < self.inheritable_flags.len()
            invariant
                k <= self.inheritable_flags.len(),
                self@.wf(),
                builder@.options == self@.inherited().take(k as int),
                builder@.inheritable.len() == 0,
            decreases self.inheritable_flags.len() - k,
        {
            let idx = self.inheritable_flags[k];
            assert(self@.inheritable[k as int] < self@.options.len());
            let option = self.options[idx].duplicate();
            builder.option_parser.add_option(option);
            assert(builder@.options =~= self@.inherited().take(k + 1));
            k += 1;
        }
        assert(self@.inherited().take(k as int) =~= self@.inherited());
        assert(builder@.inheritable =~= Seq::<int>::empty());
        builder
    }
}

/// Builds a registry option by option.
#[derive(Debug, Clone)]
pub struct CommandOptionsParserBuilder {
    pub option_parser: CommandOptionsParser,
}

impl View for CommandOptionsParserBuilder {
    type V = RegistryView;

    open spec fn view(&self) -> RegistryView {
        self.option_parser@
    }
}

impl CommandOptionsParserBuilder {
    /// A builder with an empty registry.
    pub fn new() -> (b: CommandOptionsParserBuilder)
        ensures
            b@ == RegistryView::empty(),
            b@.wf(),
    {
        CommandOptionsParserBuilder { option_parser: CommandOptionsParser::new() }
    }

    /// A copy of the builder.
    pub fn duplicate(&self) -> (b: CommandOptionsParserBuilder)
        ensures
            b@ == self@,
    {
        CommandOptionsParserBuilder { option_parser: self.option_parser.duplicate() }
    }

    /// Registers an option made of the given parts behind the others.
    pub fn add_option(
        &mut self,
        name: &str,
        description: &str,
        short_flag: &str,
        long_flag: &str,
        value: ValueTypes,
    ) -> (ret: &mut Self)
        ensures
            ret@ == old(self)@.registered(name@, description@, short_flag@, long_flag@, value@),
            *final(self) == *final(ret),
    {
        let option = SingleOption {
            name: String::from_str(name),
            description: String::from_str(description),
            short_flag: String::from_str(short_flag),
            long_flag: String::from_str(long_flag),
            value,
        };
        self.option_parser.add_option(option);
        self
    }

    /// The registry that was built, open to further changes.
    pub fn build(&mut self) -> (ret: &mut CommandOptionsParser)
        ensures
            *ret == old(self).option_parser,
            final(self).option_parser == *final(ret),
    {
        &mut self.option_parser
    }
}

} // verus!
