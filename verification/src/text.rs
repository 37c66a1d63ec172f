//! Numbers in diagnostic text.

use vstd::prelude::*;

verus! {

/// One lower-case digit.
pub open spec fn digit(value: int) -> Seq<char> {
    if value == 0 {
        "0"@
    } else if value == 1 {
        "1"@
    } else if value == 2 {
        "2"@
    } else if value == 3 {
        "3"@
    } else if value == 4 {
        "4"@
    } else if value == 5 {
        "5"@
    } else if value == 6 {
        "6"@
    } else if value == 7 {
        "7"@
    } else if value == 8 {
        "8"@
    } else if value == 9 {
        "9"@
    } else if value == 10 {
        "a"@
    } else if value == 11 {
        "b"@
    } else if value == 12 {
        "c"@
    } else if value == 13 {
        "d"@
    } else if value == 14 {
        "e"@
    } else {
        "f"@
    }
}

/// A number in base ten or sixteen, without leading zeros.
pub open spec fn digits(value: nat, base: nat) -> Seq<char>
    decreases value,
{
    if value < base || base < 2 {
        digit(value as int)
    } else {
        proof {
            assert(value / base < value) by (nonlinear_arith)
                requires
                    value >= base,
                    base >= 2,
            ;
        }
        digits(value / base, base) + digit((value % base) as int)
    }
}

/// The low `width` hexadecimal digits of a number.
pub open spec fn padded(value: nat, width: nat) -> Seq<char>
    decreases width,
{
    if width == 0 {
        Seq::empty()
    } else {
        padded(value / 16, (width - 1) as nat) + digit((value % 16) as int)
    }
}

/// A 32-bit address: `0x` and eight digits.
pub open spec fn address_text(value: u32) -> Seq<char> {
    "0x"@ + padded(value as nat, 8)
}

/// A 24-bit address: `0x` and at least six digits.
pub open spec fn short_address_text(value: nat) -> Seq<char> {
    "0x"@ + if value < 0x100_0000 {
        padded(value, 6)
    } else {
        digits(value, 16)
    }
}

/// A hexadecimal number: `0x` and its digits.
pub open spec fn hex_text(value: nat) -> Seq<char> {
    "0x"@ + digits(value, 16)
}

/// A decimal number.
pub open spec fn decimal_text(value: nat) -> Seq<char> {
    digits(value, 10)
}

fn digit_str(value: u64) -> (result: &'static str)
    requires
        value < 16,
    ensures
        result@ == digit(value as int),
{
    match value {
        0 => "0",
        1 => "1",
        2 => "2",
        3 => "3",
        4 => "4",
        5 => "5",
        6 => "6",
        7 => "7",
        8 => "8",
        9 => "9",
        10 => "a",
        11 => "b",
        12 => "c",
        13 => "d",
        14 => "e",
        _ => "f",
    }
}

fn push_digits(text: &mut String, value: u64, base: u64)
    requires
        base == 10 || base == 16,
    ensures
        final(text)@ == old(text)@ + digits(value as nat, base as nat),
    decreases value,
{
    if value >= base {
        push_digits(text, value / base, base);
    }
    text.append(digit_str(value % base));
    proof {
        if value >= base {
            assert(text@ =~= old(text)@ + (digits(value as nat / base as nat, base as nat) + digit(
                (value % base) as int,
            )));
        }
    }
}

fn push_padded(text: &mut String, value: u64, width: u32)
    ensures
        final(text)@ == old(text)@ + padded(value as nat, width as nat),
    decreases width,
{
    if width > 0 {
        push_padded(text, value / 16, width - 1);
        text.append(digit_str(value % 16));
    }
    proof {
        if width > 0 {
            assert(text@ =~= old(text)@ + (padded(value as nat / 16, (width - 1) as nat) + digit(
                (value % 16) as int,
            )));
        } else {
            assert(text@ =~= old(text)@ + padded(value as nat, width as nat));
        }
    }
}

/// Appends a 32-bit address.
pub fn push_address(text: &mut String, value: u32)
    ensures
        final(text)@ == old(text)@ + address_text(value),
{
    text.append("0x");
    push_padded(text, value as u64, 8);
    assert(text@ =~= old(text)@ + address_text(value));
}

/// Appends a 24-bit address.
pub fn push_short_address(text: &mut String, value: u64)
    ensures
        final(text)@ == old(text)@ + short_address_text(value as nat),
{
    text.append("0x");
    if value < 0x100_0000 {
        push_padded(text, value, 6);
    } else {
        push_digits(text, value, 16);
    }
    assert(text@ =~= old(text)@ + short_address_text(value as nat));
}

/// Appends a hexadecimal number.
pub fn push_hex(text: &mut String, value: u64)
    ensures
        final(text)@ == old(text)@ + hex_text(value as nat),
{
    text.append("0x");
    push_digits(text, value, 16);
    assert(text@ =~= old(text)@ + hex_text(value as nat));
}

/// Appends a decimal number.
pub fn push_decimal(text: &mut String, value: u64)
    ensures
        final(text)@ == old(text)@ + decimal_text(value as nat),
{
    push_digits(text, value, 10);
}

/// The digits are the characters from `0` to `9` and from `a` to `f`, in order.
pub proof fn law_digits_are_in_order(value: int)
    requires
        0 <= value < 16,
    ensures
        digit(value).len() == 1,
        digit(value)[0] as int == if value < 10 {
            0x30 + value
        } else {
            0x61 + value - 10
        },
{
    reveal_strlit("0");
    reveal_strlit("1");
    reveal_strlit("2");
    reveal_strlit("3");
    reveal_strlit("4");
    reveal_strlit("5");
    reveal_strlit("6");
    reveal_strlit("7");
    reveal_strlit("8");
    reveal_strlit("9");
    reveal_strlit("a");
    reveal_strlit("b");
    reveal_strlit("c");
    reveal_strlit("d");
    reveal_strlit("e");
    reveal_strlit("f");
}

/// The number that a text stands for in `base`.
pub open spec fn number_of(text: Seq<char>, base: nat) -> int
    decreases text.len(),
{
    if text.len() == 0 {
        0
    } else {
        let code = text.last() as int;
        let last = if code < 0x3a {
            code - 0x30
        } else {
            code - 0x61 + 10
        };
        number_of(text.drop_last(), base) * base + last
    }
}

/// Numbers read back: the text of a number stands for it, without leading zeros, in base
/// ten and sixteen, and the padded text for its low digits.
pub proof fn law_numbers_read_back(value: nat, base: nat)
    requires
        base == 10 || base == 16,
    ensures
        number_of(digits(value, base), base) == value,
        digits(value, base).len() >= 1,
        value > 0 ==> digits(value, base)[0] != digit(0)[0],
    decreases value,
{
    if value < base {
        law_digits_are_in_order(value as int);
        law_digits_are_in_order(0);
        assert(digits(value, base).drop_last() =~= Seq::empty());
        assert(number_of(Seq::<char>::empty(), base) == 0);
        assert(0 * base == 0);
    } else {
        let rest = value / base;
        assert(0 < rest < value && rest * base + value % base == value) by (nonlinear_arith)
            requires
                rest == value / base,
                value >= base,
                base >= 2,
        ;
        law_numbers_read_back(rest, base);
        law_digits_are_in_order((value % base) as int);
        assert(digits(value, base).drop_last() =~= digits(rest, base));
    }
}

/// A padded text has exactly its width and stands for the number where that is enough.
pub proof fn law_padded_numbers_read_back(value: nat, width: nat)
    ensures
        padded(value, width).len() == width,
        value < vstd::arithmetic::power::pow(16, width) ==> number_of(padded(value, width), 16)
            == value,
    decreases width,
{
    if width > 0 {
        let less = (width - 1) as nat;
        law_padded_numbers_read_back(value / 16, less);
        law_digits_are_in_order((value % 16) as int);
        assert(padded(value, width).drop_last() =~= padded(value / 16, less));
        reveal(vstd::arithmetic::power::pow);
        assert(vstd::arithmetic::power::pow(16, width) == 16 * vstd::arithmetic::power::pow(
            16,
            less,
        ));
    } else {
        reveal(vstd::arithmetic::power::pow);
        assert(padded(value, 0) =~= Seq::<char>::empty());
    }
}

} // verus!
