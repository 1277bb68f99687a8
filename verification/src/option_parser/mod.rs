//! The option model: typed values, the option registry, the parse state
//! machine and the argument parser.
pub mod input_parser;
pub mod option_parser;
pub mod parse_laws;
pub mod parse_model;
pub mod parse_state;
pub mod value_types;

pub use input_parser::{ChainView, CommandChain, InputArgsParser, ParserView};
pub use option_parser::{
    CommandOptionsParser, CommandOptionsParserBuilder, RegistryView, SingleOption, SingleOptionView,
};
pub use parse_state::{ParseState, StateView};
pub use value_types::{Value, ValueTypes, ValueTypesView, ValueView};
