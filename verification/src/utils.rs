//! Sizes and permission bits as text.

use vstd::prelude::*;
use vstd::string::StringExecFns;

verus! {

/// The bytes in a kibibyte.
pub const KIB: u64 = 1024;

/// The bytes in a mebibyte.
pub const MIB: u64 = 1024 * 1024;

/// The bytes in a gibibyte.
pub const GIB: u64 = 1024 * 1024 * 1024;

/// The bytes in a tebibyte.
pub const TIB: u64 = 1024 * 1024 * 1024 * 1024;

/// Up to here every whole number is a double; from here on only every
/// second one is, then every fourth, and so on.
pub const DOUBLE_EXACT: u64 = 0x20_0000_0000_0000;

/// The decimal digit `d` as a character.
pub open spec fn digit_char(d: nat) -> char {
    (48 + d % 10) as u8 as char
}

/// `n` written in decimal, without leading zeros.
pub open spec fn decimal_text(n: nat) -> Seq<char>
    decreases n,
{
    if n < 10 {
        seq![digit_char(n)]
    } else {
        decimal_text(n / 10).push(digit_char(n % 10))
    }
}

/// `numerator / denominator` rounded to the nearest whole number, and to the
/// even one of the two where it lies half way between them.
pub open spec fn round_half_even(numerator: nat, denominator: nat) -> nat {
    let quotient = numerator / denominator;
    let rest = numerator % denominator;
    if 2 * rest > denominator || (2 * rest == denominator && quotient % 2 == 1) {
        quotient + 1
    } else {
        quotient
    }
}

/// The distance between neighbouring doubles at the size of `n`: 1 up to
/// 2^53, and twice as much with every further bit.
pub open spec fn double_step(n: nat) -> nat
    decreases n,
{
    if n < DOUBLE_EXACT {
        1
    } else {
        2 * double_step(n / 2)
    }
}

/// The double nearest to `n`. Sizes are measured as doubles, so a size of
/// 2^53 bytes or more counts as the nearest one that a double can hold.
pub open spec fn nearest_double(n: nat) -> nat {
    round_half_even(n, double_step(n)) * double_step(n)
}

/// A size of `bytes` bytes in the largest binary unit that it fills, with one
/// decimal place; below 1 KiB, the plain number of bytes.
pub open spec fn size_text(bytes: nat) -> Seq<char> {
    let value = nearest_double(bytes);
    if value < KIB {
        decimal_text(value) + " B"@
    } else if value < MIB {
        tenths_text(round_half_even(value * 10, KIB as nat)) + " KiB"@
    } else if value < GIB {
        tenths_text(round_half_even(value * 10, MIB as nat)) + " MiB"@
    } else if value < TIB {
        tenths_text(round_half_even(value * 10, GIB as nat)) + " GiB"@
    } else {
        tenths_text(round_half_even(value * 10, TIB as nat)) + " TiB"@
    }
}

/// A number of tenths with its decimal point: 15 is written `1.5`.
pub open spec fn tenths_text(tenths: nat) -> Seq<char> {
    decimal_text(tenths / 10) + "."@ + seq![digit_char(tenths % 10)]
}

/// The digit `d` as text.
fn digit_str(d: u8) -> (text: &'static str)
    requires
        d < 10,
    ensures
        text@ == seq![digit_char(d as nat)],
{
    proof {
        reveal_strlit("0");
        reveal_strlit("1");
        reveal_strlit("2");
        reveal_strlit("3");
        reveal_strlit("4");
        reveal_strlit("5");
        reveal_strlit("6");
        reveal_strlit("7");
        reveal_strlit("8");
        reveal_strlit("9");
    }
    let text = match d {
        0 => "0",
        1 => "1",
        2 => "2",
        3 => "3",
        4 => "4",
        5 => "5",
        6 => "6",
        7 => "7",
        8 => "8",
        _ => "9",
    };
    assert(text@ =~= seq![digit_char(d as nat)]);
    text
}

/// Appends `n` in decimal.
pub fn push_decimal(out: &mut String, n: u128)
    ensures
        final(out)@ == old(out)@ + decimal_text(n as nat),
    decreases n,
{
    if n >= 10 {
        push_decimal(out, n / 10);
    }
    out.append(digit_str((n % 10) as u8));
    assert(out@ =~= old(out)@ + decimal_text(n as nat));
}

/// Divides, and rounds to the nearest whole number, to the even one from
/// half way.
fn rounded_quotient(numerator: u128, denominator: u128) -> (rounded: u128)
    requires
        denominator > 0,
        numerator < 0x1000_0000_0000_0000_0000,
        denominator < 0x1000_0000_0000_0000_0000,
    ensures
        rounded == round_half_even(numerator as nat, denominator as nat),
        rounded * denominator <= numerator + denominator,
{
    let quotient: u128 = numerator / denominator;
    let rest: u128 = numerator % denominator;
    assert(quotient * denominator + rest == numerator) by (nonlinear_arith)
        requires
            quotient == numerator / denominator,
            rest == numerator % denominator,
            denominator > 0,
    ;
    assert((quotient + 1) * denominator == quotient * denominator + denominator)
        by (nonlinear_arith);
    if 2 * rest > denominator || (2 * rest == denominator && quotient % 2 == 1) {
        quotient + 1
    } else {
        quotient
    }
}

/// Rounds a size to the nearest double. The result can be 2^64, which is why
/// it is held in more than 64 bits.
fn to_double(bytes: u64) -> (value: u128)
    ensures
        value == nearest_double(bytes as nat),
        value <= 0x1_0000_0000_0000_1000,
{
    let mut rest: u64 = bytes;
    let mut step: u64 = 1;
    while rest >= DOUBLE_EXACT
        invariant
            1 <= step < 4096,
            rest * step <= bytes,
            double_step(bytes as nat) == step * double_step(rest as nat),
        decreases rest,
    {
        assert(step < 2048) by (nonlinear_arith)
            requires
                rest * step <= bytes,
                rest >= 0x20_0000_0000_0000,
                bytes < 0x1_0000_0000_0000_0000,
        ;
        assert((rest / 2) * (step * 2) <= rest * step) by (nonlinear_arith)
            requires
                step >= 1,
        ;
        assert(step * (2 * double_step((rest / 2) as nat)) == (step * 2) * double_step(
            (rest / 2) as nat,
        )) by (nonlinear_arith);
        rest = rest / 2;
        step = step * 2;
    }
    assert(double_step(rest as nat) == 1);
    assert(double_step(bytes as nat) == step) by (nonlinear_arith)
        requires
            double_step(bytes as nat) == step * double_step(rest as nat),
            double_step(rest as nat) == 1,
    ;
    let mantissa: u128 = rounded_quotient(bytes as u128, step as u128);
    mantissa * (step as u128)
}

/// Formats a size in bytes for reading: `500 B`, `1.5 KiB`, `1.0 MiB`.
pub fn format_size(bytes: u64) -> (text: String)
    ensures
        text@ == size_text(bytes as nat),
{
    let value: u128 = to_double(bytes);
    let mut text = String::new();
    if value < KIB as u128 {
        push_decimal(&mut text, value);
        text.append(" B");
        return text;
    }
    let unit: u64 = if value < MIB as u128 {
        KIB
    } else if value < GIB as u128 {
        MIB
    } else if value < TIB as u128 {
        GIB
    } else {
        TIB
    };
    let tenths: u128 = rounded_quotient(value * 10, unit as u128);
    push_decimal(&mut text, tenths / 10);
    text.append(".");
    text.append(digit_str((tenths % 10) as u8));
    if value < MIB as u128 {
        text.append(" KiB");
    } else if value < GIB as u128 {
        text.append(" MiB");
    } else if value < TIB as u128 {
        text.append(" GiB");
    } else {
        text.append(" TiB");
    }
    assert(text@ =~= size_text(bytes as nat));
    text
}

/// The letter for permission bit `i`, counted from the owner's read bit
/// down to the others' execute bit: `r`, `w` or `x` where the bit is set,
/// and `-` where it is not.
pub open spec fn permission_char(mode: u32, i: u32) -> char {
    if mode & (0o400u32 >> i) == 0 {
        '-'
    } else if i % 3 == 0 {
        'r'
    } else if i % 3 == 1 {
        'w'
    } else {
        'x'
    }
}

/// The nine permission letters of `mode`, as `ls -l` shows them: `r-xr-x---`.
pub open spec fn permissions_text(mode: u32) -> Seq<char> {
    Seq::new(9, |i: int| permission_char(mode, i as u32))
}

/// Formats the low nine bits of a Unix mode as `rwxrwxrwx`, with `-` for
/// each bit that is not set.
pub fn format_permissions(mode: u32) -> (text: String)
    ensures
        text@ == permissions_text(mode),
{
    let mut text = String::new();
    let mut i: u32 = 0;
    while i < 9
        invariant
            i <= 9,
            text@.len() == i,
            forall|k: int| 0 <= k < i ==> text@[k] == permission_char(mode, k as u32),
        decreases 9 - i,
    {
        let letter: &str = if mode & (0o400u32 >> i) == 0 {
            "-"
        } else if i % 3 == 0 {
            "r"
        } else if i % 3 == 1 {
            "w"
        } else {
            "x"
        };
        proof {
            reveal_strlit("-");
            reveal_strlit("r");
            reveal_strlit("w");
            reveal_strlit("x");
        }
        text.append(letter);
        i += 1;
    }
    assert(text@ =~= permissions_text(mode));
    text
}

} // verus!
