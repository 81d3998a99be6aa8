//! Integers as text: decimal numerals, and numerals in base sixteen, eight
//! and two with an optional prefix and zero fill.

use vstd::prelude::*;
use crate::convert::{right_aligned, Convert, BLANK, MINUS, ZERO};
use crate::digits::{decimal, digits, lemma_decimal_len, lemma_digits_shape, pow10, signed_decimal};
use crate::formatter::Formatter;
use crate::padding::{padded, Padding};
use crate::sink::{uWrite, wrote};

verus! {

/// The most digits that a numeral in base sixteen, eight or two may have;
/// a longer one is replaced by the overflow text.
pub const RADIX_DIGITS: usize = 32;

/// The text that stands for a numeral that is too long.
pub open spec fn overflow_text() -> Seq<char> {
    seq![' ', 'o', 'v', 'f', 'l']
}

/// The base that a command letter selects: `o` is eight, `b` is two and
/// every other letter is sixteen.
pub open spec fn radix_base(cmd: char) -> nat {
    if cmd == 'o' {
        8
    } else if cmd == 'b' {
        2
    } else {
        16
    }
}

/// The two characters that announce the base, or nothing.
pub open spec fn radix_prefix(prefix: bool, cmd: char) -> Seq<char> {
    if prefix {
        seq![
            '0',
            if cmd == 'o' {
                'o'
            } else if cmd == 'b' {
                'b'
            } else {
                'x'
            },
        ]
    } else {
        Seq::<char>::empty()
    }
}

/// The number of leading places that zero fill adds to the digits: with the
/// fill character `0`, the field width less three with a prefix and less one
/// without; else none.
pub open spec fn zero_fill(prefix: bool, padding: Padding, pad_char: char) -> nat {
    let taken: nat = if prefix {
        3
    } else {
        1
    };
    if pad_char == '0' && padding.width() > taken {
        (padding.width() - taken) as nat
    } else {
        0
    }
}

/// The digits of `n` for the command `cmd`, with zeros in front up to
/// `least` digits, or the overflow text where that is too long.
pub open spec fn radix_digits(n: nat, cmd: char, least: nat) -> Seq<char> {
    let d = right_aligned(digits(n, radix_base(cmd), cmd == 'X'), '0', least);
    if d.len() > RADIX_DIGITS {
        overflow_text()
    } else {
        d
    }
}

/// The text of `n` in base sixteen, eight or two. With zero fill the digits
/// themselves fill the field, behind the prefix, and the alignment plays no
/// part; without it the numeral is padded like any other text.
pub open spec fn radix_text(n: nat, prefix: bool, cmd: char, padding: Padding, pad_char: char) -> Seq<
    char,
> {
    let fill = zero_fill(prefix, padding, pad_char);
    let s = radix_prefix(prefix, cmd) + radix_digits(n, cmd, fill + 1);
    if fill == 0 {
        padded(s, pad_char, padding)
    } else {
        s
    }
}

/// The number that the bits of the signed `i` stand for when they are read
/// as an unsigned number of the same width, which holds the numbers below
/// `modulus`.
pub open spec fn as_unsigned(i: int, modulus: int) -> nat {
    if i < 0 {
        (i + modulus) as nat
    } else {
        i as nat
    }
}

/// With zero fill a numeral that is no longer than its field fills it to the
/// last place: the two characters of the prefix count toward the width, and
/// the rest of the field holds the digits with zeros in front.
pub proof fn lemma_zero_fill_width(n: nat, prefix: bool, cmd: char, padding: Padding)
    requires
        zero_fill(prefix, padding, '0') > 0,
        digits(n, radix_base(cmd), cmd == 'X').len() <= zero_fill(prefix, padding, '0') + 1
            <= RADIX_DIGITS,
    ensures
        radix_text(n, prefix, cmd, padding, '0').len() == padding.width(),
        radix_text(n, prefix, cmd, padding, '0') == radix_prefix(prefix, cmd) + right_aligned(
            digits(n, radix_base(cmd), cmd == 'X'),
            '0',
            (padding.width() - radix_prefix(prefix, cmd).len()) as nat,
        ),
{
}

/// Every 128-bit number has at most 39 decimal digits.
pub proof fn lemma_decimal_fits(n: u128)
    ensures
        decimal(n as nat).len() <= 39,
{
    assert(pow10(39) == 1000000000000000000000000000000000000000) by {
        reveal_with_fuel(pow10, 40);
    }
    lemma_decimal_len(n as nat, 39);
}

/// Every 32-bit number has at most 10 decimal digits.
pub proof fn lemma_decimal_fits_32(n: u32)
    ensures
        decimal(n as nat).len() <= 10,
{
    assert(pow10(10) == 10_000_000_000) by {
        reveal_with_fuel(pow10, 11);
    }
    lemma_decimal_len(n as nat, 10);
}

/// The numeral of `n` in a buffer.
fn unsigned_numeral(n: u128) -> (c: Convert<39>)
    ensures
        c@ == decimal(n as nat),
{
    let mut c = Convert::<39>::new(BLANK).unwrap();
    proof {
        lemma_decimal_fits(n);
    }
    let done = c.radix(n, 10, false);
    assert(c@ =~= decimal(n as nat));
    c
}

/// Writes the decimal numeral of `n`.
pub fn fmt_unsigned<W: uWrite + ?Sized>(f: &mut Formatter<'_, W>, n: u128) -> (r: Result<
    (),
    W::Error,
>)
    ensures
        wrote(old(f).sink(), final(f).sink(), r is Ok, decimal(n as nat)),
        &*final(final(f).writer) == &*final(old(f).writer),
{
    let c = unsigned_numeral(n);
    f.write_str(c.as_str())
}

/// Writes the decimal numeral of `n` in a padded field.
pub fn fmt_unsigned_padded<W: uWrite + ?Sized>(
    f: &mut Formatter<'_, W>,
    n: u128,
    padding: Padding,
    pad_char: char,
) -> (r: Result<(), W::Error>)
    ensures
        wrote(old(f).sink(), final(f).sink(), r is Ok, padded(decimal(n as nat), pad_char, padding)),
        &*final(final(f).writer) == &*final(old(f).writer),
{
    let c = unsigned_numeral(n);
    f.write_padded(c.as_str(), pad_char, padding)
}

/// The numeral of a number of at most 32 bits in a buffer of its size.
fn short_numeral(n: u32) -> (c: Convert<10>)
    ensures
        c@ == decimal(n as nat),
{
    proof {
        lemma_decimal_fits_32(n);
    }
    Convert::<10>::from_u32(n).unwrap()
}

/// The numeral of a signed number of at most 32 bits in a buffer of its
/// size.
fn short_signed_numeral(i: i32) -> (c: Convert<11>)
    ensures
        c@ == signed_decimal(i as int),
{
    proof {
        if i < 0 {
            lemma_decimal_fits_32((-i) as u32);
        } else {
            lemma_decimal_fits_32(i as u32);
        }
    }
    Convert::<11>::from_i32(i).unwrap()
}

/// Writes the decimal numeral of a number of at most 32 bits.
pub fn fmt_u32<W: uWrite + ?Sized>(f: &mut Formatter<'_, W>, n: u32) -> (r: Result<(), W::Error>)
    ensures
        wrote(old(f).sink(), final(f).sink(), r is Ok, decimal(n as nat)),
        &*final(final(f).writer) == &*final(old(f).writer),
{
    let c = short_numeral(n);
    f.write_str(c.as_str())
}

/// Writes the decimal numeral of a number of at most 32 bits in a padded
/// field.
pub fn fmt_u32_padded<W: uWrite + ?Sized>(
    f: &mut Formatter<'_, W>,
    n: u32,
    padding: Padding,
    pad_char: char,
) -> (r: Result<(), W::Error>)
    ensures
        wrote(old(f).sink(), final(f).sink(), r is Ok, padded(decimal(n as nat), pad_char, padding)),
        &*final(final(f).writer) == &*final(old(f).writer),
{
    let c = short_numeral(n);
    f.write_padded(c.as_str(), pad_char, padding)
}

/// Writes the decimal numeral of a signed number of at most 32 bits, with
/// its sign if it is negative.
pub fn fmt_i32<W: uWrite + ?Sized>(f: &mut Formatter<'_, W>, i: i32) -> (r: Result<(), W::Error>)
    ensures
        wrote(old(f).sink(), final(f).sink(), r is Ok, signed_decimal(i as int)),
        &*final(final(f).writer) == &*final(old(f).writer),
{
    let c = short_signed_numeral(i);
    f.write_str(c.as_str())
}

/// Writes the decimal numeral of a signed number of at most 32 bits, sign
/// included, in a padded field.
pub fn fmt_i32_padded<W: uWrite + ?Sized>(
    f: &mut Formatter<'_, W>,
    i: i32,
    padding: Padding,
    pad_char: char,
) -> (r: Result<(), W::Error>)
    ensures
        wrote(
            old(f).sink(),
            final(f).sink(),
            r is Ok,
            padded(signed_decimal(i as int), pad_char, padding),
        ),
        &*final(final(f).writer) == &*final(old(f).writer),
{
    let c = short_signed_numeral(i);
    f.write_padded(c.as_str(), pad_char, padding)
}

/// The numeral of `i` in a buffer.
fn signed_numeral(i: i128) -> (c: Convert<40>)
    ensures
        c@ == signed_decimal(i as int),
{
    let negative = i < 0;
    // The least value has no positive counterpart of its own width.
    let u: u128 = if negative {
        if i == i128::MIN {
            u128::MAX / 2 + 1
        } else {
            (-i) as u128
        }
    } else {
        i as u128
    };
    let mut c = Convert::<40>::new(BLANK).unwrap();
    proof {
        lemma_decimal_fits(u);
    }
    let done = c.radix(u, 10, false);
    assert(c@ =~= decimal(u as nat));
    if negative {
        let sign = c.write_char(MINUS);
    }
    c
}

/// Writes the decimal numeral of `i`, with its sign if it is negative.
pub fn fmt_signed<W: uWrite + ?Sized>(f: &mut Formatter<'_, W>, i: i128) -> (r: Result<
    (),
    W::Error,
>)
    ensures
        wrote(old(f).sink(), final(f).sink(), r is Ok, signed_decimal(i as int)),
        &*final(final(f).writer) == &*final(old(f).writer),
{
    let c = signed_numeral(i);
    f.write_str(c.as_str())
}

/// Writes the decimal numeral of `i`, sign included, in a padded field.
pub fn fmt_signed_padded<W: uWrite + ?Sized>(
    f: &mut Formatter<'_, W>,
    i: i128,
    padding: Padding,
    pad_char: char,
) -> (r: Result<(), W::Error>)
    ensures
        wrote(
            old(f).sink(),
            final(f).sink(),
            r is Ok,
            padded(signed_decimal(i as int), pad_char, padding),
        ),
        &*final(final(f).writer) == &*final(old(f).writer),
{
    let c = signed_numeral(i);
    f.write_padded(c.as_str(), pad_char, padding)
}

/// The digits of `n` for the command `cmd`, with zeros in front up to
/// `fill + 1` digits, or the overflow text where that is too long.
fn radix_field(n: u128, cmd: char, fill: usize) -> (out: Convert<34>)
    ensures
        out@ == radix_digits(n as nat, cmd, (fill + 1) as nat),
        out@.len() <= RADIX_DIGITS,
{
    let base: u8 = if cmd == 'o' {
        8
    } else if cmd == 'b' {
        2
    } else {
        16
    };
    let upper = cmd == 'X';
    let ghost numeral = digits(n as nat, radix_base(cmd), upper);
    let ghost wide = right_aligned(numeral, '0', (fill + 1) as nat);
    proof {
        lemma_digits_shape(n as nat, radix_base(cmd), upper);
        assert(wide.len() == if numeral.len() > fill + 1 {
            numeral.len()
        } else {
            (fill + 1) as nat
        });
    }
    let mut out = Convert::<34>::new(ZERO).unwrap();
    if fill < RADIX_DIGITS {
        match out.radix_pad(n, base, upper, fill + 1) {
            Ok(()) => {
                assert(out@ =~= wide);
                if out.len() <= RADIX_DIGITS {
                    return out;
                }
            },
            Err(_) => {
                assert(wide.len() > RADIX_DIGITS);
            },
        }
    }
    assert(wide.len() > RADIX_DIGITS);
    let mut out = Convert::<34>::new(ZERO).unwrap();
    proof {
        reveal_strlit(" ovfl");
        assert(" ovfl"@ =~= overflow_text());
    }
    let sentinel = out.write_str(" ovfl");
    assert(out@ =~= overflow_text());
    out
}

/// Writes `n` in base sixteen, eight or two, as `cmd` says (`x`, `X`, `o`,
/// `b`; any other letter counts as `x`), with the base's prefix if `prefix`
/// is set. With the fill character `0` the digits are filled with zeros up
/// to the field width; with any other the numeral is padded as text is. A
/// numeral of more than 32 digits is replaced by the overflow text.
pub fn fmt_radix<W: uWrite + ?Sized>(
    f: &mut Formatter<'_, W>,
    n: u128,
    prefix: bool,
    cmd: char,
    padding: Padding,
    pad_char: char,
) -> (r: Result<(), W::Error>)
    ensures
        wrote(
            old(f).sink(),
            final(f).sink(),
            r is Ok,
            radix_text(n as nat, prefix, cmd, padding, pad_char),
        ),
        &*final(final(f).writer) == &*final(old(f).writer),
{
    let width = padding.min_width();
    let taken: usize = if prefix {
        3
    } else {
        1
    };
    let fill: usize = if pad_char == '0' && width > taken {
        width - taken
    } else {
        0
    };
    assert(fill == zero_fill(prefix, padding, pad_char));
    let mut out = radix_field(n, cmd, fill);
    let ghost field = out@;
    if prefix {
        let letter: u8 = if cmd == 'o' {
            111
        } else if cmd == 'b' {
            98
        } else {
            120
        };
        let first = out.write_char(letter);
        let second = out.write_char(ZERO);
        assert(out@ =~= radix_prefix(prefix, cmd) + field);
    } else {
        assert(out@ =~= radix_prefix(prefix, cmd) + field);
    }
    if fill == 0 {
        f.write_padded(out.as_str(), pad_char, padding)
    } else {
        f.write_str(out.as_str())
    }
}

} // verus!
