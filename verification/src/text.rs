//! Text for messages: decimal numbers, and the `Debug` text of lists.

use vstd::prelude::*;

verus! {

/// Appends `c` to `text` (`String::push`).
#[verifier::external_body]
pub(crate) fn string_push(text: &mut String, c: char)
    ensures
        final(text)@ == old(text)@.push(c),
{
    text.push(c);
}

/// The decimal digit of `d`, for `d < 10`.
pub open spec fn decimal_digit(d: nat) -> char {
    seq!['0', '1', '2', '3', '4', '5', '6', '7', '8', '9'][d as int]
}

/// The decimal digits of `n`, most significant first, without leading
/// zeros (`0` is written `"0"`), as `Display` writes an unsigned integer.
pub open spec fn decimal_text(n: nat) -> Seq<char>
    decreases n,
{
    if n < 10 {
        seq![decimal_digit(n)]
    } else {
        decimal_text(n / 10).push(decimal_digit(n % 10))
    }
}

fn digit_char(d: u128) -> (c: char)
    requires
        d < 10,
    ensures
        c == decimal_digit(d as nat),
{
    match d {
        0 => '0',
        1 => '1',
        2 => '2',
        3 => '3',
        4 => '4',
        5 => '5',
        6 => '6',
        7 => '7',
        8 => '8',
        _ => '9',
    }
}

/// Appends the decimal digits of `n` to `text`.
pub fn append_decimal(text: &mut String, n: u128)
    ensures
        final(text)@ == old(text)@ + decimal_text(n as nat),
    decreases n,
{
    if n >= 10 {
        append_decimal(text, n / 10);
    }
    string_push(text, digit_char(n % 10));
    assert(final(text)@ =~= old(text)@ + decimal_text(n as nat));
}

/// Appends the decimal digits of `n` to `text`.
pub fn append_number(text: &mut String, n: usize)
    ensures
        final(text)@ == old(text)@ + decimal_text(n as nat),
{
    append_decimal(text, n as u128);
}

/// How `Debug` writes an integer: a minus sign before the digits of a
/// negative one.
pub open spec fn integer_text(i: int) -> Seq<char> {
    if i < 0 {
        seq!['-'] + decimal_text((-i) as nat)
    } else {
        decimal_text(i as nat)
    }
}

/// The integers of `s`, each as `integer_text` writes it, separated by
/// `", "`.
pub open spec fn joined_integers(s: Seq<int>) -> Seq<char>
    decreases s.len(),
{
    if s.len() == 0 {
        Seq::empty()
    } else if s.len() == 1 {
        integer_text(s[0])
    } else {
        joined_integers(s.drop_last()) + ", "@ + integer_text(s.last())
    }
}

/// How `Debug` writes a list of integers: `[1, -2, 3]`.
pub open spec fn integer_list_text(s: Seq<int>) -> Seq<char> {
    "["@ + joined_integers(s) + "]"@
}

/// Appends `n` as `integer_text` writes it.
fn append_integer(text: &mut String, n: i128)
    requires
        n > i128::MIN,
    ensures
        final(text)@ == old(text)@ + integer_text(n as int),
{
    if n < 0 {
        string_push(text, '-');
        append_decimal(text, (-n) as u128);
        assert(final(text)@ =~= old(text)@ + integer_text(n as int));
    } else {
        append_decimal(text, n as u128);
    }
}

/// An integer type whose values `Debug` writes in decimal.
pub trait DecimalInteger: Copy {
    /// The value as a mathematical integer.
    spec fn integer_value(&self) -> int;

    fn to_i128(&self) -> (v: i128)
        ensures
            v as int == self.integer_value(),
            v > i128::MIN,
    ;
}

impl DecimalInteger for u8 {
    open spec fn integer_value(&self) -> int {
        *self as int
    }

    fn to_i128(&self) -> (v: i128) {
        *self as i128
    }
}

impl DecimalInteger for u16 {
    open spec fn integer_value(&self) -> int {
        *self as int
    }

    fn to_i128(&self) -> (v: i128) {
        *self as i128
    }
}

impl DecimalInteger for i64 {
    open spec fn integer_value(&self) -> int {
        *self as int
    }

    fn to_i128(&self) -> (v: i128) {
        *self as i128
    }
}

/// The `Debug` text of a list of integers.
fn integer_list<T: DecimalInteger>(items: &[T]) -> (text: String)
    ensures
        text@ == integer_list_text(items@.map_values(|v: T| v.integer_value())),
{
    let ghost ints = items@.map_values(|v: T| v.integer_value());
    let mut text = String::new();
    string_push(&mut text, '[');
    proof {
        reveal_strlit("[");
        assert(text@ =~= "["@ + joined_integers(ints.take(0)));
    }
    let mut i: usize = 0;
    while i < items.len()
        invariant
            i <= items@.len(),
            ints == items@.map_values(|v: T| v.integer_value()),
            text@ == "["@ + joined_integers(ints.take(i as int)),
        decreases items.len() - i,
    {
        if i > 0 {
            text.append(", ");
        }
        append_integer(&mut text, items[i].to_i128());
        assert(ints.take(i + 1).drop_last() =~= ints.take(i as int));
        if i == 0 {
            assert(ints.take(1) =~= seq![ints[0]]);
        }
        assert(text@ =~= "["@ + joined_integers(ints.take(i + 1)));
        i += 1;
    }
    assert(ints.take(items@.len() as int) =~= ints);
    text.append("]");
    text
}

/// The `Debug` text of a list of bytes (`format!("{:?}", items)`).
pub fn u8_list_text(items: &[u8]) -> (text: String)
    ensures
        text@ == integer_list_text(items@.map_values(|v: u8| v as int)),
{
    let text = integer_list(items);
    assert(items@.map_values(|v: u8| v.integer_value()) =~= items@.map_values(|v: u8| v as int));
    text
}

/// The `Debug` text of a list of `u16` (`format!("{:?}", items)`).
pub fn u16_list_text(items: &[u16]) -> (text: String)
    ensures
        text@ == integer_list_text(items@.map_values(|v: u16| v as int)),
{
    let text = integer_list(items);
    assert(items@.map_values(|v: u16| v.integer_value()) =~= items@.map_values(|v: u16| v as int));
    text
}

/// The `Debug` text of a list of `i64` (`format!("{:?}", items)`).
pub fn i64_list_text(items: &[i64]) -> (text: String)
    ensures
        text@ == integer_list_text(items@.map_values(|v: i64| v as int)),
{
    let text = integer_list(items);
    assert(items@.map_values(|v: i64| v.integer_value()) =~= items@.map_values(|v: i64| v as int));
    text
}

/// `before`, the decimal digits of `n`, then `after`.
pub fn number_between(before: &str, n: usize, after: &str) -> (text: String)
    ensures
        text@ == before@ + decimal_text(n as nat) + after@,
{
    let mut text = String::from_str(before);
    append_number(&mut text, n);
    text.append(after);
    text
}

} // verus!
