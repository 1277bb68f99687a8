//! The state machine that governs which kind of token may follow which.
use vstd::prelude::*;
use vstd::string::*;
use crate::error::FliError;
use crate::option_parser::value_types::{ValueTypes, ValueTypesView};

verus! {

/// Where the parser stands in its input.
#[derive(Debug, Clone)]
pub enum ParseState {
    /// Before anything was read.
    Start,
    /// The command name was checked.
    InCommand,
    /// An option flag was read.
    InOption,
    /// An option waits for its value or values: its flag and its arity.
    AcceptingValue(String, ValueTypes),
    /// `--` was read: everything behind it is positional.
    Breaking,
    /// A positional argument was read.
    InArgument,
    /// The input was read to its end.
    End,
}

/// The mathematical content of a `ParseState`.
pub enum StateView {
    Start,
    InCommand,
    InOption,
    AcceptingValue(Seq<char>, ValueTypesView),
    Breaking,
    InArgument,
    End,
}

impl View for ParseState {
    type V = StateView;

    open spec fn view(&self) -> StateView {
        match self {
            ParseState::Start => StateView::Start,
            ParseState::InCommand => StateView::InCommand,
            ParseState::InOption => StateView::InOption,
            ParseState::AcceptingValue(flag, arity) => StateView::AcceptingValue(flag@, arity@),
            ParseState::Breaking => StateView::Breaking,
            ParseState::InArgument => StateView::InArgument,
            ParseState::End => StateView::End,
        }
    }
}

impl ParseState {
    /// The name of the state, as errors give it.
    pub open spec fn name(&self) -> Seq<char> {
        match self {
            ParseState::Start => "Start"@,
            ParseState::InCommand => "InCommand"@,
            ParseState::InOption => "InOption"@,
            ParseState::AcceptingValue(_, _) => "AcceptingValue"@,
            ParseState::Breaking => "Breaking"@,
            ParseState::InArgument => "InArgument"@,
            ParseState::End => "End"@,
        }
    }

    /// The transition table: whether the machine may step from this state
    /// to `next`.
    ///
    /// Nothing leads back to `Start`. `InCommand` follows `Start` or
    /// `InCommand`. `InOption` follows every state but `Breaking` and `End`.
    /// `AcceptingValue` follows `InOption` alone. `InArgument` follows
    /// `Start`, `InCommand`, `Breaking` and `InArgument`. `Breaking` follows
    /// `InOption` and `AcceptingValue`. `End` follows every state but
    /// `Start`.
    pub open spec fn allows(&self, next: &ParseState) -> bool {
        match next {
            ParseState::Start => false,
            ParseState::InCommand => self is Start || self is InCommand,
            ParseState::InOption => self is Start || self is InCommand || self is InArgument
                || self is InOption || self is AcceptingValue,
            ParseState::AcceptingValue(_, _) => self is InOption,
            ParseState::InArgument => self is Start || self is InCommand || self is Breaking
                || self is InArgument,
            ParseState::Breaking => self is InOption || self is AcceptingValue,
            ParseState::End => !(self is Start),
        }
    }

    /// Writes the name of the state.
    pub fn state_name(&self) -> (s: String)
        ensures
            s@ == self.name(),
    {
        match self {
            ParseState::Start => String::from_str("Start"),
            ParseState::InCommand => String::from_str("InCommand"),
            ParseState::InOption => String::from_str("InOption"),
            ParseState::AcceptingValue(_, _) => String::from_str("AcceptingValue"),
            ParseState::Breaking => String::from_str("Breaking"),
            ParseState::InArgument => String::from_str("InArgument"),
            ParseState::End => String::from_str("End"),
        }
    }

    /// Whether the machine may step from this state to `next`.
    pub fn can_go_to_next(&self, next: &ParseState) -> (r: bool)
        ensures
            r == self.allows(next),
    {
        match next {
            ParseState::Start => false,
            ParseState::InCommand => match self {
                ParseState::Start | ParseState::InCommand => true,
                _ => false,
            },
            ParseState::InOption => match self {
                ParseState::Start
                | ParseState::InCommand
                | ParseState::InArgument
                | ParseState::InOption
                | ParseState::AcceptingValue(_, _) => true,
                _ => false,
            },
            ParseState::AcceptingValue(_, _) => match self {
                ParseState::InOption => true,
                _ => false,
            },
            ParseState::InArgument => match self {
                ParseState::Start
                | ParseState::InCommand
                | ParseState::Breaking
                | ParseState::InArgument => true,
                _ => false,
            },
            ParseState::Breaking => match self {
                ParseState::InOption | ParseState::AcceptingValue(_, _) => true,
                _ => false,
            },
            ParseState::End => match self {
                ParseState::Start => false,
                _ => true,
            },
        }
    }

    /// Steps to `next` where the table allows it. A step that it does not
    /// allow is reported with the names of both states, and the machine
    /// stays where it is.
    pub fn set_next_mode(&mut self, next: ParseState) -> (r: Result<(), FliError>)
        ensures
            old(self).allows(&next) ==> r is Ok && *final(self) == next,
            !old(self).allows(&next) ==> *final(self) == *old(self) && (r matches Err(
                FliError::InvalidStateTransition { from, to },
            ) && from@ == old(self).name() && to@ == next.name()),
    {
        if self.can_go_to_next(&next) {
            *self = next;
            Ok(())
        } else {
            Err(
                FliError::InvalidStateTransition {
                    from: self.state_name(),
                    to: next.state_name(),
                },
            )
        }
    }
}

} // verus!
