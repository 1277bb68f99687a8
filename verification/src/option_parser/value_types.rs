//! Typed values and the arity contract of an option.
use vstd::prelude::*;
use vstd::string::*;
use crate::error::{FliError, FliErrorView};

verus! {

/// A typed literal read from the command line.
///
/// A floating-point number is held by its IEEE-754 bit pattern: the library
/// itself never computes with it.
#[derive(Debug, Clone)]
pub enum Value {
    /// Text, kept verbatim.
    Str(String),
    /// A signed 64-bit integer.
    Int(i64),
    /// The bit pattern of a 64-bit floating-point number.
    Float(u64),
    /// A truth value.
    Bool(bool),
}

/// The mathematical content of a `Value`.
pub enum ValueView {
    Str(Seq<char>),
    Int(int),
    Float(u64),
    Bool(bool),
}

impl View for Value {
    type V = ValueView;

    open spec fn view(&self) -> ValueView {
        match self {
            Value::Str(s) => ValueView::Str(s@),
            Value::Int(i) => ValueView::Int(*i as int),
            Value::Float(bits) => ValueView::Float(*bits),
            Value::Bool(b) => ValueView::Bool(*b),
        }
    }
}

/// The lower-case form of an ASCII capital letter; any other character is
/// left as it is.
pub open spec fn ascii_lower(c: char) -> char {
    if 'A' <= c && c <= 'Z' {
        ((c as u32) + 32) as char
    } else {
        c
    }
}

/// `s` with every ASCII capital letter replaced by its lower-case form.
pub open spec fn ascii_lowered(s: Seq<char>) -> Seq<char> {
    Seq::new(s.len(), |i: int| ascii_lower(s[i]))
}

/// The truth value that a token spells, if it spells one: `true`, `t`, `1`,
/// `yes`, `y` and `false`, `f`, `0`, `no`, `n`, in any mix of cases.
pub open spec fn bool_reading(token: Seq<char>) -> Option<bool> {
    let l = ascii_lowered(token);
    if l == "true"@ || l == "t"@ || l == "1"@ || l == "yes"@ || l == "y"@ {
        Some(true)
    } else if l == "false"@ || l == "f"@ || l == "0"@ || l == "no"@ || l == "n"@ {
        Some(false)
    } else {
        None
    }
}

/// What `str::parse::<i64>` makes of a token: the integer, or the text of
/// the error it reports.
pub uninterp spec fn parsed_int(token: Seq<char>) -> Result<i64, Seq<char>>;

/// Reads a base-10 signed integer with `str::parse::<i64>`; on failure the
/// error is turned into its text. The contract names the outcome
/// `parsed_int` of the token and claims nothing else of it.
#[verifier::external_body]
fn parse_int(token: &str) -> (r: Result<i64, String>)
    ensures
        match r {
            Ok(v) => parsed_int(token@) == Ok::<i64, Seq<char>>(v),
            Err(e) => parsed_int(token@) == Err::<i64, Seq<char>>(e@),
        },
{
    match token.parse::<i64>() {
        Ok(v) => Ok(v),
        Err(e) => Err(e.to_string()),
    }
}

/// Whether `token`, with its ASCII capitals lowered, reads as `word`.
fn lowered_is(token: &str, word: &str) -> (r: bool)
    ensures
        r == (ascii_lowered(token@) == word@),
{
    let n = token.unicode_len();
    if n != word.unicode_len() {
        return false;
    }
    let mut i: usize = 0;
    while i < n
        invariant
            n == token@.len(),
            n == word@.len(),
            i <= n,
            forall|j: int| 0 <= j < i ==> ascii_lower(token@[j]) == word@[j],
        decreases n - i,
    {
        let c = token.get_char(i);
        let w = word.get_char(i);
        let code: u32 = c as u32;
        let low: u32 = if 65 <= code && code <= 90 {
            code + 32
        } else {
            code
        };
        assert(low == ascii_lower(c) as u32);
        if low != w as u32 {
            assert(ascii_lowered(token@)[i as int] != word@[i as int]);
            return false;
        }
        i += 1;
    }
    assert(ascii_lowered(token@) =~= word@);
    true
}

/// Reads a truth value as `bool_reading` describes it.
pub fn read_bool(token: &str) -> (r: Option<bool>)
    ensures
        r == bool_reading(token@),
{
    if lowered_is(token, "true") || lowered_is(token, "t") || lowered_is(token, "1")
        || lowered_is(token, "yes") || lowered_is(token, "y") {
        Some(true)
    } else if lowered_is(token, "false") || lowered_is(token, "f") || lowered_is(token, "0")
        || lowered_is(token, "no") || lowered_is(token, "n") {
        Some(false)
    } else {
        None
    }
}


/// The name under which a value's type appears in a parse error.
pub open spec fn kind_label(template: ValueView) -> Seq<char> {
    match template {
        ValueView::Str(_) => "string"@,
        ValueView::Int(_) => "integer (i64)"@,
        ValueView::Float(_) => "float (64-bit)"@,
        ValueView::Bool(_) => "boolean"@,
    }
}

/// What a token becomes when it is read as a value of the template's type,
/// or `None` where the token does not spell such a value. A floating-point
/// token is read outside the library: `float_reading` is the bit pattern
/// that was read from it, if it spells a number.
pub open spec fn retyped(template: ValueView, token: Seq<char>, float_reading: Option<u64>)
    -> Option<ValueView> {
    match template {
        ValueView::Str(_) => Some(ValueView::Str(token)),
        ValueView::Int(_) => match parsed_int(token) {
            Ok(v) => Some(ValueView::Int(v as int)),
            Err(_) => None,
        },
        ValueView::Float(_) => match float_reading {
            Some(bits) => Some(ValueView::Float(bits)),
            None => None,
        },
        ValueView::Bool(_) => match bool_reading(token) {
            Some(b) => Some(ValueView::Bool(b)),
            None => None,
        },
    }
}

/// Why a token was refused as a value of the template's type.
pub open spec fn retype_reason(template: ValueView, token: Seq<char>) -> Seq<char> {
    match template {
        ValueView::Int(_) => match parsed_int(token) {
            Ok(_) => Seq::empty(),
            Err(reason) => reason,
        },
        ValueView::Float(_) => "invalid floating-point literal"@,
        ValueView::Bool(_) =>
            "expected one of: true, false, t, f, 1, 0, yes, no, y, n (case-insensitive)"@,
        ValueView::Str(_) => Seq::empty(),
    }
}

/// The parse error that reports `token` as refused for the template's
/// type.
pub open spec fn retype_error(template: ValueView, token: Seq<char>) -> FliErrorView {
    FliErrorView::ValueParseError {
        value: token,
        expected_type: kind_label(template),
        reason: retype_reason(template, token),
    }
}

/// Whether `e` is the parse error that reports `token` as refused for the
/// template's type.
pub open spec fn is_retype_error(e: FliError, template: ValueView, token: Seq<char>) -> bool {
    e@ == retype_error(template, token)
}

impl Value {
    /// A copy of the value.
    pub fn duplicate(&self) -> (v: Value)
        ensures
            v@ == self@,
    {
        match self {
            Value::Str(s) => Value::Str(s.clone()),
            Value::Int(i) => Value::Int(*i),
            Value::Float(bits) => Value::Float(*bits),
            Value::Bool(b) => Value::Bool(*b),
        }
    }

    /// Reads `new_value` as a value of the type that `self` holds now and
    /// stores it in place. `float_reading` is the bit pattern of the number
    /// that `new_value` spells, or `None` if it spells none; it is looked at
    /// only when `self` is a `Float`.
    ///
    /// On success the new value is returned as well. On failure `self` keeps
    /// its value and the error carries the token, the type's name and the
    /// reason.
    pub fn replace_with_expected_value(&mut self, new_value: &str, float_reading: Option<u64>)
        -> (r: Result<Value, FliError>)
        ensures
            match retyped(old(self)@, new_value@, float_reading) {
                Some(v) => r matches Ok(out) && out@ == v && final(self)@ == v,
                None => r matches Err(e) && is_retype_error(e, old(self)@, new_value@)
                    && final(self)@ == old(self)@,
            },
    {
        match self {
            Value::Str(_) => {
                let s = String::from_str(new_value);
                *self = Value::Str(s.clone());
                Ok(Value::Str(s))
            },
            Value::Int(_) => {
                match parse_int(new_value) {
                    Ok(v) => {
                        *self = Value::Int(v);
                        Ok(Value::Int(v))
                    },
                    Err(reason) => Err(
                        FliError::ValueParseError {
                            value: String::from_str(new_value),
                            expected_type: String::from_str("integer (i64)"),
                            reason,
                        },
                    ),
                }
            },
            Value::Float(_) => {
                match float_reading {
                    Some(bits) => {
                        *self = Value::Float(bits);
                        Ok(Value::Float(bits))
                    },
                    None => Err(
                        FliError::ValueParseError {
                            value: String::from_str(new_value),
                            expected_type: String::from_str("float (64-bit)"),
                            reason: String::from_str("invalid floating-point literal"),
                        },
                    ),
                }
            },
            Value::Bool(_) => {
                match read_bool(new_value) {
                    Some(b) => {
                        *self = Value::Bool(b);
                        Ok(Value::Bool(b))
                    },
                    None => Err(
                        FliError::ValueParseError {
                            value: String::from_str(new_value),
                            expected_type: String::from_str("boolean"),
                            reason: String::from_str(
                                "expected one of: true, false, t, f, 1, 0, yes, no, y, n (case-insensitive)",
                            ),
                        },
                    ),
                }
            },
        }
    }

    /// Reads `input` as a value of the template's type, leaving the template
    /// as it is.
    pub fn from_str_with_type(template: &Value, input: &str, float_reading: Option<u64>)
        -> (r: Result<Value, FliError>)
        ensures
            match retyped(template@, input@, float_reading) {
                Some(v) => r matches Ok(out) && out@ == v,
                None => r matches Err(e) && is_retype_error(e, template@, input@),
            },
    {
        let mut temp = template.duplicate();
        match temp.replace_with_expected_value(input, float_reading) {
            Ok(_) => Ok(temp),
            Err(e) => Err(e),
        }
    }
}

impl PartialEq for Value {
    fn eq(&self, other: &Self) -> (r: bool) {
        match (self, other) {
            (Value::Str(a), Value::Str(b)) => *a == *b,
            (Value::Int(a), Value::Int(b)) => *a == *b,
            (Value::Float(a), Value::Float(b)) => *a == *b,
            (Value::Bool(a), Value::Bool(b)) => *a == *b,
            _ => false,
        }
    }
}

impl vstd::std_specs::cmp::PartialEqSpecImpl for Value {
    open spec fn obeys_eq_spec() -> bool {
        true
    }

    open spec fn eq_spec(&self, other: &Self) -> bool {
        self@ == other@
    }
}


/// How many value tokens an option takes, whether they are required, and
/// the values it holds now.
#[derive(Debug, Clone)]
pub enum ValueTypes {
    /// Exactly one value; the field is the default and then the value read.
    RequiredSingle(Value),
    /// Zero or one value.
    OptionalSingle(Option<Value>),
    /// One or more values; the second field, if set, is the exact count.
    RequiredMultiple(Vec<Value>, Option<usize>),
    /// Zero or more values; the second field, if set, is the largest count.
    OptionalMultiple(Option<Vec<Value>>, Option<usize>),
    /// A flag: no value at all.
    Flag,
}

/// The mathematical content of a `ValueTypes`.
pub enum ValueTypesView {
    RequiredSingle(ValueView),
    OptionalSingle(Option<ValueView>),
    RequiredMultiple(Seq<ValueView>, Option<usize>),
    OptionalMultiple(Option<Seq<ValueView>>, Option<usize>),
    Flag,
}

/// The contents of a list of values, one by one.
pub open spec fn values_view(values: Seq<Value>) -> Seq<ValueView> {
    Seq::new(values.len(), |i: int| values[i]@)
}

impl View for ValueTypes {
    type V = ValueTypesView;

    open spec fn view(&self) -> ValueTypesView {
        match self {
            ValueTypes::RequiredSingle(v) => ValueTypesView::RequiredSingle(v@),
            ValueTypes::OptionalSingle(v) => ValueTypesView::OptionalSingle(
                match v {
                    Some(x) => Some(x@),
                    None => None,
                },
            ),
            ValueTypes::RequiredMultiple(vs, n) => ValueTypesView::RequiredMultiple(
                values_view(vs@),
                *n,
            ),
            ValueTypes::OptionalMultiple(vs, n) => ValueTypesView::OptionalMultiple(
                match vs {
                    Some(xs) => Some(values_view(xs@)),
                    None => None,
                },
                *n,
            ),
            ValueTypes::Flag => ValueTypesView::Flag,
        }
    }
}

/// The texts among `values`, in order; values of other types are left out.
pub open spec fn string_items(values: Seq<ValueView>) -> Seq<Seq<char>>
    decreases values.len(),
{
    if values.len() == 0 {
        Seq::empty()
    } else {
        let rest = string_items(values.drop_last());
        match values.last() {
            ValueView::Str(s) => rest.push(s),
            _ => rest,
        }
    }
}

/// The views of a list of string slices.
pub open spec fn strs_view(items: Seq<&str>) -> Seq<Seq<char>> {
    Seq::new(items.len(), |i: int| items[i]@)
}

/// A copy of a list of values.
pub fn duplicate_values(values: &Vec<Value>) -> (out: Vec<Value>)
    ensures
        values_view(out@) == values_view(values@),
{
    let mut out: Vec<Value> = Vec::new();
    let mut i: usize = 0;
    while i < values.len()
        invariant
            i <= values.len(),
            out.len() == i,
            forall|j: int| 0 <= j < i ==> out@[j]@ == values@[j]@,
        decreases values.len() - i,
    {
        out.push(values[i].duplicate());
        i += 1;
    }
    assert(values_view(out@) =~= values_view(values@));
    out
}

impl ValueTypesView {
    /// Whether an option of this arity takes value tokens at all.
    pub open spec fn expects_value(self) -> bool {
        !(self is Flag)
    }

    /// The text of a single-valued option, if it holds text.
    pub open spec fn single_string(self) -> Option<Seq<char>> {
        match self {
            ValueTypesView::RequiredSingle(ValueView::Str(s)) => Some(s),
            ValueTypesView::OptionalSingle(Some(ValueView::Str(s))) => Some(s),
            _ => None,
        }
    }

    /// The texts of a multi-valued option that holds a list.
    pub open spec fn multi_strings(self) -> Option<Seq<Seq<char>>> {
        match self {
            ValueTypesView::RequiredMultiple(values, _) => Some(string_items(values)),
            ValueTypesView::OptionalMultiple(Some(values), _) => Some(string_items(values)),
            _ => None,
        }
    }
}

/// The texts among `values`, as `string_items` lists them.
fn collect_strings<'a>(values: &'a Vec<Value>) -> (out: Vec<&'a str>)
    ensures
        strs_view(out@) == string_items(values_view(values@)),
{
    let mut out: Vec<&'a str> = Vec::new();
    let mut i: usize = 0;
    let ghost all = values_view(values@);
    proof {
        assert(all.take(0) =~= Seq::<ValueView>::empty());
        assert(strs_view(out@) =~= string_items(all.take(0)));
    }
    while i < values.len()
        invariant
            i <= values.len(),
            all == values_view(values@),
            strs_view(out@) == string_items(all.take(i as int)),
        decreases values.len() - i,
    {
        let ghost before = strs_view(out@);
        proof {
            assert(all.take(i + 1).drop_last() =~= all.take(i as int));
            assert(all.take(i + 1).last() == values@[i as int]@);
        }
        match &values[i] {
            Value::Str(s) => {
                out.push(s.as_str());
                assert(strs_view(out@) =~= before.push(s@));
            },
            _ => {},
        }
        i += 1;
    }
    proof {
        assert(all.take(i as int) =~= all);
    }
    out
}

impl ValueTypes {
    /// A copy of the arity with the values it holds.
    pub fn duplicate(&self) -> (v: ValueTypes)
        ensures
            v@ == self@,
    {
        match self {
            ValueTypes::RequiredSingle(v) => ValueTypes::RequiredSingle(v.duplicate()),
            ValueTypes::OptionalSingle(v) => ValueTypes::OptionalSingle(
                match v {
                    Some(x) => Some(x.duplicate()),
                    None => None,
                },
            ),
            ValueTypes::RequiredMultiple(vs, n) => ValueTypes::RequiredMultiple(
                duplicate_values(vs),
                *n,
            ),
            ValueTypes::OptionalMultiple(vs, n) => ValueTypes::OptionalMultiple(
                match vs {
                    Some(xs) => Some(duplicate_values(xs)),
                    None => None,
                },
                *n,
            ),
            ValueTypes::Flag => ValueTypes::Flag,
        }
    }

    /// Whether the option takes value tokens: true for every arity but the
    /// flag.
    pub fn expects_value(&self) -> (r: bool)
        ensures
            r == self@.expects_value(),
    {
        match self {
            ValueTypes::RequiredSingle(_) => true,
            ValueTypes::OptionalSingle(_) => true,
            ValueTypes::RequiredMultiple(_, _) => true,
            ValueTypes::OptionalMultiple(_, _) => true,
            ValueTypes::Flag => false,
        }
    }

    /// The text of a single-valued option; nothing for another arity or a
    /// value that is not text.
    pub fn as_str(&self) -> (r: Option<&str>)
        ensures
            match self@.single_string() {
                Some(s) => r matches Some(t) && t@ == s,
                None => r is None,
            },
    {
        match self {
            ValueTypes::RequiredSingle(Value::Str(s)) => Some(s.as_str()),
            ValueTypes::OptionalSingle(Some(Value::Str(s))) => Some(s.as_str()),
            _ => None,
        }
    }

    /// The texts of a multi-valued option, in order, leaving out values
    /// that are not text; nothing for another arity or an absent list.
    pub fn as_strings(&self) -> (r: Option<Vec<&str>>)
        ensures
            match self@.multi_strings() {
                Some(items) => r matches Some(out) && strs_view(out@) == items,
                None => r is None,
            },
    {
        match self {
            ValueTypes::RequiredMultiple(values, _) => Some(collect_strings(values)),
            ValueTypes::OptionalMultiple(Some(values), _) => Some(collect_strings(values)),
            _ => None,
        }
    }
}

} // verus!
