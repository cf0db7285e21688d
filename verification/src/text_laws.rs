//! Laws of numbers as text, and of the search for a text in another.

use crate::text::{
    decimal, digits_value, hexadecimal, i32_value, is_digits, occurs_in, size_value, usize_value,
};
use vstd::arithmetic::div_mod::lemma_fundamental_div_mod_converse;
use vstd::prelude::*;

verus! {

/// A text occurs in another wherever it is put into one.
pub proof fn law_text_occurs_where_it_is_put(before: Seq<char>, needle: Seq<char>, after: Seq<char>)
    ensures
        occurs_in(needle, before + needle + after),
{
    let text = before + needle + after;
    let at = before.len() as int;
    assert(text.subrange(at, at + needle.len()) =~= needle);
}

/// A text that occurs in another has something before it and something after it there, which may
/// be empty.
pub proof fn law_occurring_text_parts_the_other(needle: Seq<char>, text: Seq<char>)
    requires
        occurs_in(needle, text),
    ensures
        exists|before: Seq<char>, after: Seq<char>| text == #[trigger] (before + needle + after),
{
    let at = choose|at: int|
        0 <= at <= text.len() - needle.len() && #[trigger] text.subrange(at, at + needle.len())
            == needle;
    let before = text.take(at);
    let after = text.skip(at + needle.len());
    assert(text =~= before + text.subrange(at, at + needle.len()) + after);
    assert(text == before + needle + after);
}

/// A number below ten is one decimal digit, and a digit behind a number makes it ten times as large
/// and the digit larger.
pub proof fn law_decimal_digits_follow_one_another(m: nat, d: nat)
    requires
        d < 10,
    ensures
        decimal(d) == seq![('0' as int + d) as char],
        m > 0 ==> decimal(10 * m + d) == decimal(m).push(('0' as int + d) as char),
{
    if m > 0 {
        lemma_fundamental_div_mod_converse((10 * m + d) as int, 10, m as int, d as int);
    }
}

/// A number below sixteen is one hexadecimal digit, and a digit behind a number makes it sixteen
/// times as large and the digit larger. The digits from ten on are the letters from `a` on.
pub proof fn law_hexadecimal_digits_follow_one_another(m: nat, d: nat)
    requires
        d < 16,
    ensures
        ({
            let digit = if d < 10 {
                ('0' as int + d) as char
            } else {
                ('a' as int + (d - 10)) as char
            };
            &&& hexadecimal(d) == seq![digit]
            &&& m > 0 ==> hexadecimal(16 * m + d) == hexadecimal(m).push(digit)
        }),
{
    if m > 0 {
        lemma_fundamental_div_mod_converse((16 * m + d) as int, 16, m as int, d as int);
    }
}

/// One more character behind a text.
proof fn lemma_one_more_digit(text: Seq<char>, c: char)
    ensures
        is_digits(text.push(c)) == (is_digits(text) && '0' <= c <= '9'),
        digits_value(text.push(c)) == 10 * digits_value(text) + (c as int - '0' as int),
        is_digits(text) ==> digits_value(text) >= 0,
        is_digits(Seq::empty()),
        digits_value(Seq::empty()) == 0,
    decreases text.len(),
{
    let longer = text.push(c);
    assert(longer.drop_last() =~= text);
    if is_digits(longer) {
        assert(longer[text.len() as int] == c);
        assert forall|i: int| 0 <= i < text.len() implies '0' <= #[trigger] text[i] <= '9' by {
            assert(longer[i] == text[i]);
        }
    }
    if text.len() > 0 {
        lemma_one_more_digit(text.drop_last(), text.last());
        assert(text.drop_last().push(text.last()) =~= text);
    }
}

/// A number is read digit by digit: each digit behind it makes it ten times as large and the digit
/// larger, as long as a `usize` holds it. A plus sign may stand before the first digit. Nothing
/// else is a number.
pub proof fn law_numbers_are_read_digit_by_digit(text: Seq<char>, c: char)
    ensures
        usize_value(Seq::empty()) is None,
        usize_value(seq!['+']) is None,
        usize_value(seq![c]) == if '0' <= c <= '9' {
            Some((c as int - '0' as int) as usize)
        } else {
            None
        },
        usize_value(seq!['+', c]) == if '0' <= c <= '9' {
            Some((c as int - '0' as int) as usize)
        } else {
            None
        },
        text.len() > 0 && text != seq!['+'] ==> usize_value(text.push(c)) == match usize_value(
            text,
        ) {
            Some(n) if '0' <= c <= '9' && 10 * n + (c as int - '0' as int) <= usize::MAX => Some(
                (10 * n + (c as int - '0' as int)) as usize,
            ),
            _ => None,
        },
{
    let none = Seq::<char>::empty();
    lemma_one_more_digit(none, c);
    assert(none.push(c) =~= seq![c]);
    assert(seq!['+', c].drop_first() =~= seq![c]);
    assert(seq!['+'].drop_first() =~= none);
    assert(seq!['+'].len() == 1);
    if c == '+' {
        assert(seq![c].drop_first() =~= none);
    }
    if text.len() > 0 && text != seq!['+'] {
        let longer = text.push(c);
        let digits = if text[0] == '+' {
            text.drop_first()
        } else {
            text
        };
        if text[0] == '+' {
            assert(text.len() == 1 ==> text =~= seq!['+']);
            assert(longer.drop_first() =~= digits.push(c));
        }
        lemma_one_more_digit(digits, c);
    }
}

/// A number with a sign is read digit by digit: each digit behind it makes it ten times as large
/// and takes it by the digit further from zero, as long as an `i32` holds it. Nothing else is a
/// number.
pub proof fn law_signed_numbers_are_read_digit_by_digit(text: Seq<char>, c: char)
    ensures
        i32_value(Seq::empty()) is None,
        i32_value(seq!['+']) is None,
        i32_value(seq!['-']) is None,
        i32_value(seq![c]) == if '0' <= c <= '9' {
            Some((c as int - '0' as int) as i32)
        } else {
            None
        },
        i32_value(seq!['+', c]) == if '0' <= c <= '9' {
            Some((c as int - '0' as int) as i32)
        } else {
            None
        },
        i32_value(seq!['-', c]) == if '0' <= c <= '9' {
            Some(('0' as int - c as int) as i32)
        } else {
            None
        },
        text.len() > 0 && text != seq!['+'] && text != seq!['-'] ==> ({
            let d = if text[0] == '-' {
                '0' as int - c as int
            } else {
                c as int - '0' as int
            };
            i32_value(text.push(c)) == match i32_value(text) {
                Some(n) if '0' <= c <= '9' && i32::MIN <= 10 * n + d <= i32::MAX => Some(
                    (10 * n + d) as i32,
                ),
                _ => None,
            }
        }),
{
    let none = Seq::<char>::empty();
    lemma_one_more_digit(none, c);
    assert(none.push(c) =~= seq![c]);
    assert(seq!['+', c].drop_first() =~= seq![c]);
    assert(seq!['-', c].drop_first() =~= seq![c]);
    assert(seq!['+'].drop_first() =~= none);
    assert(seq!['-'].drop_first() =~= none);
    if c == '+' || c == '-' {
        assert(seq![c].drop_first() =~= none);
    }
    if text.len() > 0 && text != seq!['+'] && text != seq!['-'] {
        let longer = text.push(c);
        let is_signed = text[0] == '+' || text[0] == '-';
        let digits = if is_signed {
            text.drop_first()
        } else {
            text
        };
        if is_signed {
            assert(text.len() == 1 ==> text =~= seq![text[0]]);
            assert(longer.drop_first() =~= digits.push(c));
        }
        lemma_one_more_digit(digits, c);
    }
}

/// A number of bytes is read digit by digit, and a unit behind the last digit makes it 2^10, 2^20,
/// 2^30 or 2^40 times as large, as long as a `usize` holds it. Nothing follows a unit, and nothing
/// else is a number of bytes.
pub proof fn law_sizes_are_read_digit_by_digit(text: Seq<char>, c: char)
    ensures
        size_value(Seq::empty()) is None,
        size_value(seq![c]) == if '0' <= c <= '9' {
            Some((c as int - '0' as int) as usize)
        } else {
            None
        },
        text.len() > 0 && '0' <= c <= '9' ==> size_value(text.push(c)) == match size_value(text) {
            Some(n) if '0' <= text.last() <= '9' && 10 * n + (c as int - '0' as int)
                <= usize::MAX => Some((10 * n + (c as int - '0' as int)) as usize),
            _ => None,
        },
        text.len() > 0 && !('0' <= c <= '9') ==> ({
            let factor = if c == 'k' || c == 'K' {
                1024int
            } else if c == 'm' || c == 'M' {
                1024 * 1024int
            } else if c == 'g' || c == 'G' {
                1024 * 1024 * 1024int
            } else if c == 't' || c == 'T' {
                1024 * 1024 * 1024 * 1024int
            } else {
                0int
            };
            size_value(text.push(c)) == match size_value(text) {
                Some(n) if factor > 0 && '0' <= text.last() <= '9' && n * factor
                    <= usize::MAX => Some((n * factor) as usize),
                _ => None,
            }
        }),
{
    let none = Seq::<char>::empty();
    lemma_one_more_digit(none, c);
    assert(none.push(c) =~= seq![c]);
    assert(seq![c].drop_last() =~= none);
    if text.len() > 0 {
        let longer = text.push(c);
        assert(longer.drop_last() =~= text);
        lemma_one_more_digit(text, c);
        lemma_one_more_digit(text.drop_last(), text.last());
        assert(text.drop_last().push(text.last()) =~= text);
        let v = digits_value(text);
        if is_digits(text) && v > usize::MAX {
            assert(v * 1024 > usize::MAX && v * 0x10_0000 > usize::MAX);
            assert(v * 0x4000_0000 > usize::MAX && v * 0x100_0000_0000 > usize::MAX);
        }
    }
}

} // verus!
