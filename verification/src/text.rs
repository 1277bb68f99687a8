//! Small text helpers shared by the message builders.
use vstd::prelude::*;
use vstd::string::*;

verus! {

/// The character that writes the decimal digit `d`.
pub open spec fn digit_char(d: nat) -> char {
    if d == 0 {
        '0'
    } else if d == 1 {
        '1'
    } else if d == 2 {
        '2'
    } else if d == 3 {
        '3'
    } else if d == 4 {
        '4'
    } else if d == 5 {
        '5'
    } else if d == 6 {
        '6'
    } else if d == 7 {
        '7'
    } else if d == 8 {
        '8'
    } else {
        '9'
    }
}

/// The decimal numeral of `n`, most significant digit first, without
/// leading zeros.
pub open spec fn decimal_text(n: nat) -> Seq<char>
    decreases n,
{
    if n < 10 {
        seq![digit_char(n)]
    } else {
        decimal_text(n / 10).push(digit_char(n % 10))
    }
}

/// The one-character text of a decimal digit.
fn digit_str(d: usize) -> (s: &'static str)
    requires
        d < 10,
    ensures
        s@ == seq![digit_char(d as nat)],
{
    proof {
        reveal_strlit("0");
        reveal_strlit("1");
        reveal_strlit("2");
        reveal_strlit("3");
        reveal_strlit("4");
        reveal_strlit("5");
        reveal_strlit("6");
        reveal_strlit("7");
        reveal_strlit("8");
        reveal_strlit("9");
    }
    let s = if d == 0 {
        "0"
    } else if d == 1 {
        "1"
    } else if d == 2 {
        "2"
    } else if d == 3 {
        "3"
    } else if d == 4 {
        "4"
    } else if d == 5 {
        "5"
    } else if d == 6 {
        "6"
    } else if d == 7 {
        "7"
    } else if d == 8 {
        "8"
    } else {
        "9"
    };
    assert(s@ =~= seq![digit_char(d as nat)]);
    s
}

/// Writes `n` in decimal.
pub fn usize_to_string(n: usize) -> (s: String)
    ensures
        s@ == decimal_text(n as nat),
    decreases n,
{
    if n < 10 {
        String::from_str(digit_str(n))
    } else {
        let head = usize_to_string(n / 10);
        let s = head.concat(digit_str(n % 10));
        assert(s@ =~= decimal_text(n as nat));
        s
    }
}

/// What `{:?}` writes for a piece of text: the text in double quotes, with
/// the characters that need it escaped.
pub uninterp spec fn debug_text(s: Seq<char>) -> Seq<char>;

/// Formats `s` with `format!("{:?}", s)`. The contract gives the result the
/// name `debug_text`; nothing more is claimed of it.
#[verifier::external_body]
pub(crate) fn debug_string(s: &str) -> (r: String)
    ensures
        r@ == debug_text(s@),
{
    format!("{:?}", s)
}

/// Whether two pieces of text hold the same characters.
pub fn same_text(a: &str, b: &str) -> (r: bool)
    ensures
        r == (a@ == b@),
{
    let x = String::from_str(a);
    let y = String::from_str(b);
    x == y
}

/// The contents of a list of strings, one by one.
pub open spec fn texts(items: Seq<String>) -> Seq<Seq<char>> {
    Seq::new(items.len(), |i: int| items[i]@)
}

/// A copy of a list of strings.
pub fn duplicate_strings(items: &Vec<String>) -> (out: Vec<String>)
    ensures
        texts(out@) == texts(items@),
{
    let mut out: Vec<String> = Vec::new();
    let mut i: usize = 0;
    while i < items.len()
        invariant
            i <= items.len(),
            out.len() == i,
            forall|j: int| 0 <= j < i ==> out@[j]@ == items@[j]@,
        decreases items.len() - i,
    {
        out.push(items[i].clone());
        i += 1;
    }
    assert(texts(out@) =~= texts(items@));
    out
}

/// The characters of a string, one by one.
pub fn characters(s: &str) -> (out: Vec<char>)
    ensures
        out@ == s@,
{
    let n = s.unicode_len();
    let mut out: Vec<char> = Vec::new();
    let mut i: usize = 0;
    while i < n
        invariant
            n == s@.len(),
            i <= n,
            out@ == s@.take(i as int),
        decreases n - i,
    {
        out.push(s.get_char(i));
        assert(out@ =~= s@.take(i + 1));
        i += 1;
    }
    assert(s@.take(n as int) =~= s@);
    out
}

} // verus!
