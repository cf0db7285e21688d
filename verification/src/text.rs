//! Numbers as text, and the search for a text in another.

use vstd::prelude::*;
use vstd::string::*;

verus! {

/// The digit `d`, in lower case where it is a letter.
pub open spec fn digit(d: nat) -> char {
    if d < 10 {
        (('0' as int) + d) as char
    } else {
        (('a' as int) + d - 10) as char
    }
}

/// The number `n` in the digits of `base`, without leading zeros.
pub open spec fn numeral(n: nat, base: nat) -> Seq<char>
    decreases n,
{
    if n < base || base < 2 {
        seq![digit(n)]
    } else {
        proof {
            vstd::arithmetic::div_mod::lemma_div_decreases(n as int, base as int);
        }
        numeral(n / base, base).push(digit(n % base))
    }
}

/// The number `n` in decimal digits, without leading zeros.
pub open spec fn decimal(n: nat) -> Seq<char> {
    numeral(n, 10)
}

/// The number `n` in hexadecimal digits, without leading zeros.
pub open spec fn hexadecimal(n: nat) -> Seq<char> {
    numeral(n, 16)
}

/// The digit `d` as a text.
fn digit_text(d: usize) -> (text: &'static str)
    requires
        d < 16,
    ensures
        text@ == seq![digit(d as nat)],
{
    proof {
        reveal_strlit("0");
        reveal_strlit("1");
        reveal_strlit("2");
        reveal_strlit("3");
        reveal_strlit("4");
        reveal_strlit("5");
        reveal_strlit("6");
        reveal_strlit("7");
        reveal_strlit("8");
        reveal_strlit("9");
        reveal_strlit("a");
        reveal_strlit("b");
        reveal_strlit("c");
        reveal_strlit("d");
        reveal_strlit("e");
        reveal_strlit("f");
    }
    let text = match d {
        0 => "0",
        1 => "1",
        2 => "2",
        3 => "3",
        4 => "4",
        5 => "5",
        6 => "6",
        7 => "7",
        8 => "8",
        9 => "9",
        10 => "a",
        11 => "b",
        12 => "c",
        13 => "d",
        14 => "e",
        _ => "f",
    };
    assert(text@ =~= seq![digit(d as nat)]);
    text
}

/// Appends the number `n` in the digits of `base` to `text`.
fn push_numeral(text: &mut String, n: usize, base: usize)
    requires
        2 <= base <= 16,
    ensures
        final(text)@ == old(text)@ + numeral(n as nat, base as nat),
    decreases n,
{
    proof {
        if n >= base {
            vstd::arithmetic::div_mod::lemma_div_decreases(n as int, base as int);
        }
        vstd::arithmetic::div_mod::lemma_mod_bound(n as int, base as int);
    }
    if n >= base {
        push_numeral(text, n / base, base);
    }
    text.append(digit_text(n % base));
    assert(n < base ==> n % base == n) by {
        if n < base {
            vstd::arithmetic::div_mod::lemma_small_mod(n as nat, base as nat);
        }
    }
    assert(text@ =~= old(text)@ + numeral(n as nat, base as nat));
}

/// Appends the number `n` in decimal digits to `text`.
pub fn push_decimal(text: &mut String, n: usize)
    ensures
        final(text)@ == old(text)@ + decimal(n as nat),
{
    push_numeral(text, n, 10);
}

/// Appends the number `n` in hexadecimal digits to `text`.
pub fn push_hexadecimal(text: &mut String, n: usize)
    ensures
        final(text)@ == old(text)@ + hexadecimal(n as nat),
{
    push_numeral(text, n, 16);
}

/// Whether `needle` occurs in `text`: as all of it, or at some place within it.
pub open spec fn occurs_in(needle: Seq<char>, text: Seq<char>) -> bool {
    exists|at: int|
        0 <= at <= text.len() - needle.len() && #[trigger] text.subrange(at, at + needle.len())
            == needle
}

/// Whether `needle` occurs in `text`.
///
/// Calls `str::contains` with a text for its pattern, of which it claims that it finds a needle
/// that occurs at any place of the text, and no other. The empty needle occurs everywhere.
#[verifier::external_body]
pub(crate) fn contains(text: &str, needle: &str) -> (found: bool)
    ensures
        found == occurs_in(needle@, text@),
{
    text.contains(needle)
}

/// Whether the text is made of decimal digits alone.
pub open spec fn is_digits(text: Seq<char>) -> bool {
    forall|i: int| 0 <= i < text.len() ==> '0' <= #[trigger] text[i] <= '9'
}

/// The number that the decimal digits of `text` write.
pub open spec fn digits_value(text: Seq<char>) -> int
    decreases text.len(),
{
    if text.len() == 0 {
        0
    } else {
        10 * digits_value(text.drop_last()) + (text.last() as int - '0' as int)
    }
}

/// The number that `text` writes: an optional sign, and then one or more decimal digits.
pub open spec fn signed_value(text: Seq<char>) -> Option<int> {
    let is_signed = text.len() > 0 && (text[0] == '+' || text[0] == '-');
    let digits = if is_signed {
        text.drop_first()
    } else {
        text
    };
    if digits.len() == 0 || !is_digits(digits) {
        None
    } else if is_signed && text[0] == '-' {
        Some(-digits_value(digits))
    } else {
        Some(digits_value(digits))
    }
}

/// The number that `text` writes, if it writes one that an `i32` holds.
pub open spec fn i32_value(text: Seq<char>) -> Option<i32> {
    match signed_value(text) {
        Some(value) => if i32::MIN <= value <= i32::MAX {
            Some(value as i32)
        } else {
            None
        },
        None => None,
    }
}

/// The number that `text` writes, if it writes one that a `usize` holds: an optional plus sign,
/// and then one or more decimal digits.
pub open spec fn usize_value(text: Seq<char>) -> Option<usize> {
    let digits = if text.len() > 0 && text[0] == '+' {
        text.drop_first()
    } else {
        text
    };
    if digits.len() == 0 || !is_digits(digits) || digits_value(digits) > usize::MAX {
        None
    } else {
        Some(digits_value(digits) as usize)
    }
}

/// The factor for which a letter behind a number stands.
pub open spec fn unit(letter: char) -> Option<int> {
    if letter == 'k' || letter == 'K' {
        Some(0x400)
    } else if letter == 'm' || letter == 'M' {
        Some(0x10_0000)
    } else if letter == 'g' || letter == 'G' {
        Some(0x4000_0000)
    } else if letter == 't' || letter == 'T' {
        Some(0x100_0000_0000)
    } else {
        None
    }
}

/// The number of bytes that `text` writes, if it writes one that a `usize` holds: one or more
/// decimal digits, and then an optional unit.
pub open spec fn size_value(text: Seq<char>) -> Option<usize> {
    let has_unit = text.len() > 0 && unit(text.last()) is Some;
    let digits = if has_unit {
        text.drop_last()
    } else {
        text
    };
    let size = if has_unit {
        digits_value(digits) * unit(text.last())->0
    } else {
        digits_value(digits)
    };
    if digits.len() == 0 || !is_digits(digits) || size > usize::MAX {
        None
    } else {
        Some(size as usize)
    }
}

/// A number that is written in decimal digits is read back from them, as a number and as a number
/// of bytes.
pub proof fn law_number_is_read_back(n: usize)
    ensures
        usize_value(decimal(n as nat)) == Some(n),
        size_value(decimal(n as nat)) == Some(n),
{
    lemma_decimal_is_digits(n as nat);
    let text = decimal(n as nat);
    assert('0' <= text[0] <= '9');
    assert('0' <= text[text.len() - 1] <= '9');
}

/// The decimal digits of a number are digits, and write that number.
proof fn lemma_decimal_is_digits(n: nat)
    ensures
        decimal(n).len() > 0,
        is_digits(decimal(n)),
        digits_value(decimal(n)) == n,
    decreases n,
{
    let text = decimal(n);
    if n < 10 {
        assert(text.drop_last() =~= Seq::empty());
        assert(digits_value(text.drop_last()) == 0);
    } else {
        lemma_decimal_is_digits(n / 10);
        assert(text.drop_last() =~= decimal(n / 10));
    }
}

/// The number that `text` writes, if it writes one that an `i32` holds.
///
/// Calls `str::parse` for `i32`, of which it claims that it takes an optional sign followed by
/// one or more decimal digits, and nothing else, as long as the number fits.
#[verifier::external_body]
pub(crate) fn parse_i32(text: &str) -> (value: Option<i32>)
    ensures
        value == i32_value(text@),
{
    text.parse::<i32>().ok()
}

/// Whether `text` is the single character zero.
pub(crate) fn is_zero(text: &str) -> (zero: bool)
    ensures
        zero == (text@ == seq!['0']),
{
    let zero = text.unicode_len() == 1 && text.get_char(0) == '0';
    assert(zero ==> text@ =~= seq!['0']);
    zero
}

} // verus!
