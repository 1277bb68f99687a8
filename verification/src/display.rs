//! What the help screen shows, as plain text and numbers: usage patterns,
//! table rows and column widths. Writing them to the terminal is left to
//! the caller.
use vstd::prelude::*;
use vstd::string::*;
use crate::command::{CommandView, FliCommand};
use crate::option_parser::option_parser::{CommandOptionsParser, SingleOptionView};
use crate::option_parser::value_types::{ValueTypes, ValueTypesView};
use crate::text::{decimal_text, texts, usize_to_string};

verus! {

/// `piece` written `n` times in a row.
pub open spec fn repeated(piece: Seq<char>, n: nat) -> Seq<char>
    decreases n,
{
    if n == 0 {
        Seq::empty()
    } else {
        repeated(piece, (n - 1) as nat) + piece
    }
}

/// Writes `piece` `n` times in a row.
pub fn repeat_text(piece: &str, n: usize) -> (s: String)
    ensures
        s@ == repeated(piece@, n as nat),
{
    let mut s = String::new();
    let mut i: usize = 0;
    while i < n
        invariant
            i <= n,
            s@ == repeated(piece@, i as nat),
        decreases n - i,
    {
        s.append(piece);
        i += 1;
    }
    s
}

/// The two usage patterns of a command: its name with the placeholders for
/// subcommands (where it has any), for each expected argument and for
/// options; and the pattern with the `--` separator in front of the
/// arguments.
pub open spec fn usage_patterns(command: CommandView) -> Seq<Seq<char>> {
    let arguments = repeated(" [ARGUMENT]"@, command.expected_positional_args as nat);
    seq![
        command.name + (if command.children.len() > 0 {
            "[SUBCOMMANDS]"@
        } else {
            Seq::empty()
        }) + arguments + " [OPTIONS]"@,
        "[SUBCOMMANDS] [OPTIONS] "@ + (if command.expected_positional_args > 0 {
            "-- "@ + arguments
        } else {
            Seq::empty()
        }),
    ]
}

/// How an arity is named in the options table.
pub open spec fn value_type_label(value: ValueTypesView) -> Seq<char> {
    match value {
        ValueTypesView::Flag => "none"@,
        ValueTypesView::RequiredSingle(_) => "single (required)"@,
        ValueTypesView::OptionalSingle(_) => "single (optional)"@,
        ValueTypesView::RequiredMultiple(_, Some(n)) => "multiple (exactly "@ + decimal_text(
            n as nat,
        ) + ")"@,
        ValueTypesView::RequiredMultiple(_, None) => "multiple (1+)"@,
        ValueTypesView::OptionalMultiple(_, Some(n)) => "multiple (max "@ + decimal_text(n as nat)
            + ")"@,
        ValueTypesView::OptionalMultiple(_, None) => "multiple (0+)"@,
    }
}

/// Names an arity for the options table.
pub fn label_value_type(value: &ValueTypes) -> (s: String)
    ensures
        s@ == value_type_label(value@),
{
    match value {
        ValueTypes::Flag => String::from_str("none"),
        ValueTypes::RequiredSingle(_) => String::from_str("single (required)"),
        ValueTypes::OptionalSingle(_) => String::from_str("single (optional)"),
        ValueTypes::RequiredMultiple(_, Some(n)) => {
            let mut s = String::from_str("multiple (exactly ");
            s.append(usize_to_string(*n).as_str());
            s.append(")");
            s
        },
        ValueTypes::RequiredMultiple(_, None) => String::from_str("multiple (1+)"),
        ValueTypes::OptionalMultiple(_, Some(n)) => {
            let mut s = String::from_str("multiple (max ");
            s.append(usize_to_string(*n).as_str());
            s.append(")");
            s
        },
        ValueTypes::OptionalMultiple(_, None) => String::from_str("multiple (0+)"),
    }
}

/// The row of an option in the options table: short flag, long flag, arity
/// and description.
pub open spec fn option_row(option: SingleOptionView) -> Seq<Seq<char>> {
    seq![
        option.short_flag,
        option.long_flag,
        value_type_label(option.value),
        option.description,
    ]
}

/// The row of a subcommand in the subcommands table: name and description.
pub open spec fn subcommand_row(command: CommandView) -> Seq<Seq<char>> {
    seq![command.name, command.description]
}

/// The contents of a table, row by row.
pub open spec fn table_view(rows: Seq<Vec<String>>) -> Seq<Seq<Seq<char>>> {
    Seq::new(rows.len(), |r: int| texts(rows[r]@))
}

/// The number of bytes that a text takes in UTF-8, as a machine size.
pub open spec fn byte_len(text: Seq<char>) -> usize {
    vstd::utf8::encode_utf8(text).len() as usize
}

/// The larger of two numbers.
pub open spec fn larger(a: usize, b: usize) -> usize {
    if a >= b {
        a
    } else {
        b
    }
}

/// The width of column `c` over the first `n` rows: the largest number of
/// bytes among its header and its cells.
pub open spec fn column_width(
    headers: Seq<Seq<char>>,
    rows: Seq<Seq<Seq<char>>>,
    c: int,
    n: nat,
) -> usize
    decreases n,
{
    if n == 0 {
        byte_len(headers[c])
    } else {
        larger(column_width(headers, rows, c, (n - 1) as nat), byte_len(rows[n - 1][c]))
    }
}

/// The widths of the columns of a table whose rows all have as many cells
/// as there are headers.
pub fn column_widths(headers: &Vec<String>, rows: &Vec<Vec<String>>) -> (widths: Vec<usize>)
    requires
        forall|r: int| 0 <= r < rows@.len() ==> (#[trigger] rows@[r])@.len() == headers@.len(),
    ensures
        widths@.len() == headers@.len(),
        forall|c: int|
            0 <= c < headers@.len() ==> #[trigger] widths@[c] == column_width(
                texts(headers@),
                table_view(rows@),
                c,
                rows@.len(),
            ),
{
    let ghost heads = texts(headers@);
    let ghost cells = table_view(rows@);
    let mut widths: Vec<usize> = Vec::new();
    let mut c: usize = 0;
    while c < headers.len()
        invariant
            c <= headers.len(),
            widths.len() == c,
            heads == texts(headers@),
            forall|k: int| 0 <= k < c ==> #[trigger] widths@[k] == column_width(heads, cells, k, 0),
        decreases headers.len() - c,
    {
        assert(heads[c as int] == headers@[c as int]@);
        widths.push(headers[c].as_str().len());
        c += 1;
    }
    let mut r: usize = 0;
    while r < rows.len()
        invariant
            r <= rows.len(),
            widths.len() == headers.len(),
            heads == texts(headers@),
            cells == table_view(rows@),
            forall|k: int| 0 <= k < rows@.len() ==> (#[trigger] rows@[k])@.len() == headers@.len(),
            forall|k: int|
                0 <= k < headers.len() ==> #[trigger] widths@[k] == column_width(
                    heads,
                    cells,
                    k,
                    r as nat,
                ),
        decreases rows.len() - r,
    {
        let row = &rows[r];
        let mut c: usize = 0;
        while c < row.len()
            invariant
                c <= row.len(),
                r < rows.len(),
                row == &rows@[r as int],
                row@.len() == headers@.len(),
                widths.len() == headers.len(),
                cells == table_view(rows@),
                forall|k: int|
                    0 <= k < c ==> #[trigger] widths@[k] == column_width(
                        heads,
                        cells,
                        k,
                        (r + 1) as nat,
                    ),
                forall|k: int|
                    c <= k < headers.len() ==> #[trigger] widths@[k] == column_width(
                        heads,
                        cells,
                        k,
                        r as nat,
                    ),
            decreases row.len() - c,
        {
            let cell = row[c].as_str().len();
            assert(cells[r as int][c as int] == row@[c as int]@);
            if cell > widths[c] {
                widths.set(c, cell);
            }
            c += 1;
        }
        r += 1;
    }
    widths
}

/// `text` filled up with spaces behind it to `width` characters; a text
/// that is as long or longer is left as it is.
pub open spec fn padded(text: Seq<char>, width: nat) -> Seq<char> {
    if text.len() >= width {
        text
    } else {
        text + repeated(" "@, (width - text.len()) as nat)
    }
}

/// Fills `text` up with spaces to `width` characters.
pub fn pad_right(text: &str, width: usize) -> (s: String)
    ensures
        s@ == padded(text@, width as nat),
{
    let n = text.unicode_len();
    let mut s = String::from_str(text);
    if n < width {
        let fill = repeat_text(" ", width - n);
        s.append(fill.as_str());
    }
    s
}

impl FliCommand {
    /// The usage patterns of a command, as `usage_patterns` gives them.
    pub fn build_usage_patterns(cmd: &FliCommand) -> (patterns: Vec<String>)
        ensures
            texts(patterns@) == usage_patterns(cmd@),
    {
        let expected = cmd.get_expected_positional_args();
        let arguments = repeat_text(" [ARGUMENT]", expected);
        let mut basic = cmd.get_name().clone();
        if cmd.has_sub_commands() {
            basic.append("[SUBCOMMANDS]");
        } else {
            assert(basic@ + Seq::<char>::empty() =~= basic@);
        }
        basic.append(arguments.as_str());
        basic.append(" [OPTIONS]");
        let mut with_separator = String::from_str("[SUBCOMMANDS] [OPTIONS] ");
        if expected > 0 {
            let ghost head = with_separator@;
            with_separator.append("-- ");
            with_separator.append(arguments.as_str());
            assert(with_separator@ =~= head + ("-- "@ + arguments@));
        } else {
            assert(with_separator@ + Seq::<char>::empty() =~= with_separator@);
        }
        let mut patterns: Vec<String> = Vec::new();
        patterns.push(basic);
        patterns.push(with_separator);
        assert(texts(patterns@) =~= usage_patterns(cmd@));
        patterns
    }

    /// The rows of the options table, one for each registered option in
    /// the order of registration.
    pub fn options_table_rows(parser: &CommandOptionsParser) -> (rows: Vec<Vec<String>>)
        ensures
            table_view(rows@) == Seq::new(
                parser@.options.len(),
                |i: int| option_row(parser@.options[i]),
            ),
    {
        let mut rows: Vec<Vec<String>> = Vec::new();
        let mut i: usize = 0;
        while i < parser.options.len()
            invariant
                i <= parser.options.len(),
                rows.len() == i,
                forall|k: int|
                    0 <= k < i ==> texts((#[trigger] rows@[k])@) == option_row(parser@.options[k]),
            decreases parser.options.len() - i,
        {
            let option = &parser.options[i];
            let mut row: Vec<String> = Vec::new();
            row.push(option.short_flag.clone());
            row.push(option.long_flag.clone());
            row.push(label_value_type(&option.value));
            row.push(option.description.clone());
            assert(texts(row@) =~= option_row(parser@.options[i as int]));
            rows.push(row);
            i += 1;
        }
        assert(table_view(rows@) =~= Seq::new(
            parser@.options.len(),
            |i: int| option_row(parser@.options[i]),
        ));
        rows
    }

    /// The rows of the subcommands table, one for each subcommand in the
    /// order in which they were added.
    pub fn subcommands_table_rows(cmd: &FliCommand) -> (rows: Vec<Vec<String>>)
        ensures
            table_view(rows@) == Seq::new(
                cmd@.children.len(),
                |i: int| subcommand_row(cmd@.children[i]),
            ),
    {
        let mut rows: Vec<Vec<String>> = Vec::new();
        let mut i: usize = 0;
        proof {
            cmd.lemma_children_view();
        }
        while i < cmd.sub_commands.len()
            invariant
                i <= cmd.sub_commands.len(),
                rows.len() == i,
                cmd@.children.len() == cmd.sub_commands.len(),
                forall|k: int|
                    0 <= k < cmd.sub_commands.len() ==> #[trigger] cmd@.children[k]
                        == cmd.sub_commands@[k]@,
                forall|k: int|
                    0 <= k < i ==> texts((#[trigger] rows@[k])@) == subcommand_row(
                        cmd@.children[k],
                    ),
            decreases cmd.sub_commands.len() - i,
        {
            let sub = &cmd.sub_commands[i];
            let mut row: Vec<String> = Vec::new();
            row.push(sub.get_name().clone());
            row.push(sub.get_description().clone());
            assert(texts(row@) =~= subcommand_row(cmd@.children[i as int]));
            rows.push(row);
            i += 1;
        }
        assert(table_view(rows@) =~= Seq::new(
            cmd@.children.len(),
            |i: int| subcommand_row(cmd@.children[i]),
        ));
        rows
    }
}

} // verus!
