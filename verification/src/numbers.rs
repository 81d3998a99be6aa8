//! The integer types as text: decimal for `{}` and padded fields, and base
//! sixteen, eight or two for the numeral directives. A signed number is
//! written in another base as the unsigned number with the same bits.

use vstd::prelude::*;
use crate::digits::{
    decimal, decimal_value, lemma_decimal_len, lemma_decimal_round_trip,
    lemma_signed_decimal_round_trip, pow10, signed_decimal, signed_decimal_value,
};
use crate::formatter::Formatter;
use crate::integer::{
    as_unsigned, fmt_i32, fmt_i32_padded, fmt_radix, fmt_signed, fmt_signed_padded, fmt_u32,
    fmt_u32_padded, fmt_unsigned, fmt_unsigned_padded, lemma_decimal_fits, radix_text,
};
use crate::padding::{padded, Padding};
use crate::sink::uWrite;
use crate::traits::{uDisplay, uDisplayHex, uDisplayPadded};

verus! {

impl uDisplay for u8 {
    open spec fn text(&self) -> Option<Seq<char>> {
        Some(decimal(*self as nat))
    }

    fn fmt<W>(&self, f: &mut Formatter<'_, W>) -> (r: Result<(), W::Error>) where
        W: uWrite + ?Sized,
     {
        fmt_u32(f, *self as u32)
    }
}

impl uDisplayPadded for u8 {
    open spec fn padded_text(&self, padding: Padding, pad_char: char) -> Option<Seq<char>> {
        Some(padded(decimal(*self as nat), pad_char, padding))
    }

    fn fmt_padded<W>(&self, f: &mut Formatter<'_, W>, padding: Padding, pad_char: char) -> (r:
        Result<(), W::Error>) where W: uWrite + ?Sized {
        fmt_u32_padded(f, *self as u32, padding, pad_char)
    }
}

impl uDisplayHex for u8 {
    open spec fn hex_text(&self, prefix: bool, cmd: char, padding: Padding, pad_char: char) -> Option<
        Seq<char>,
    > {
        Some(radix_text(*self as nat, prefix, cmd, padding, pad_char))
    }

    fn fmt_hex<W>(
        &self,
        f: &mut Formatter<'_, W>,
        prefix: bool,
        cmd: char,
        padding: Padding,
        pad_char: char,
    ) -> (r: Result<(), W::Error>) where W: uWrite + ?Sized {
        fmt_radix(f, *self as u128, prefix, cmd, padding, pad_char)
    }
}

impl uDisplay for u16 {
    open spec fn text(&self) -> Option<Seq<char>> {
        Some(decimal(*self as nat))
    }

    fn fmt<W>(&self, f: &mut Formatter<'_, W>) -> (r: Result<(), W::Error>) where
        W: uWrite + ?Sized,
     {
        fmt_u32(f, *self as u32)
    }
}

impl uDisplayPadded for u16 {
    open spec fn padded_text(&self, padding: Padding, pad_char: char) -> Option<Seq<char>> {
        Some(padded(decimal(*self as nat), pad_char, padding))
    }

    fn fmt_padded<W>(&self, f: &mut Formatter<'_, W>, padding: Padding, pad_char: char) -> (r:
        Result<(), W::Error>) where W: uWrite + ?Sized {
        fmt_u32_padded(f, *self as u32, padding, pad_char)
    }
}

impl uDisplayHex for u16 {
    open spec fn hex_text(&self, prefix: bool, cmd: char, padding: Padding, pad_char: char) -> Option<
        Seq<char>,
    > {
        Some(radix_text(*self as nat, prefix, cmd, padding, pad_char))
    }

    fn fmt_hex<W>(
        &self,
        f: &mut Formatter<'_, W>,
        prefix: bool,
        cmd: char,
        padding: Padding,
        pad_char: char,
    ) -> (r: Result<(), W::Error>) where W: uWrite + ?Sized {
        fmt_radix(f, *self as u128, prefix, cmd, padding, pad_char)
    }
}

impl uDisplay for u32 {
    open spec fn text(&self) -> Option<Seq<char>> {
        Some(decimal(*self as nat))
    }

    fn fmt<W>(&self, f: &mut Formatter<'_, W>) -> (r: Result<(), W::Error>) where
        W: uWrite + ?Sized,
     {
        fmt_u32(f, *self)
    }
}

impl uDisplayPadded for u32 {
    open spec fn padded_text(&self, padding: Padding, pad_char: char) -> Option<Seq<char>> {
        Some(padded(decimal(*self as nat), pad_char, padding))
    }

    fn fmt_padded<W>(&self, f: &mut Formatter<'_, W>, padding: Padding, pad_char: char) -> (r:
        Result<(), W::Error>) where W: uWrite + ?Sized {
        fmt_u32_padded(f, *self, padding, pad_char)
    }
}

impl uDisplayHex for u32 {
    open spec fn hex_text(&self, prefix: bool, cmd: char, padding: Padding, pad_char: char) -> Option<
        Seq<char>,
    > {
        Some(radix_text(*self as nat, prefix, cmd, padding, pad_char))
    }

    fn fmt_hex<W>(
        &self,
        f: &mut Formatter<'_, W>,
        prefix: bool,
        cmd: char,
        padding: Padding,
        pad_char: char,
    ) -> (r: Result<(), W::Error>) where W: uWrite + ?Sized {
        fmt_radix(f, *self as u128, prefix, cmd, padding, pad_char)
    }
}

impl uDisplay for u64 {
    open spec fn text(&self) -> Option<Seq<char>> {
        Some(decimal(*self as nat))
    }

    fn fmt<W>(&self, f: &mut Formatter<'_, W>) -> (r: Result<(), W::Error>) where
        W: uWrite + ?Sized,
     {
        fmt_unsigned(f, *self as u128)
    }
}

impl uDisplayPadded for u64 {
    open spec fn padded_text(&self, padding: Padding, pad_char: char) -> Option<Seq<char>> {
        Some(padded(decimal(*self as nat), pad_char, padding))
    }

    fn fmt_padded<W>(&self, f: &mut Formatter<'_, W>, padding: Padding, pad_char: char) -> (r:
        Result<(), W::Error>) where W: uWrite + ?Sized {
        fmt_unsigned_padded(f, *self as u128, padding, pad_char)
    }
}

impl uDisplayHex for u64 {
    open spec fn hex_text(&self, prefix: bool, cmd: char, padding: Padding, pad_char: char) -> Option<
        Seq<char>,
    > {
        Some(radix_text(*self as nat, prefix, cmd, padding, pad_char))
    }

    fn fmt_hex<W>(
        &self,
        f: &mut Formatter<'_, W>,
        prefix: bool,
        cmd: char,
        padding: Padding,
        pad_char: char,
    ) -> (r: Result<(), W::Error>) where W: uWrite + ?Sized {
        fmt_radix(f, *self as u128, prefix, cmd, padding, pad_char)
    }
}

impl uDisplay for u128 {
    open spec fn text(&self) -> Option<Seq<char>> {
        Some(decimal(*self as nat))
    }

    fn fmt<W>(&self, f: &mut Formatter<'_, W>) -> (r: Result<(), W::Error>) where
        W: uWrite + ?Sized,
     {
        fmt_unsigned(f, *self)
    }
}

impl uDisplayPadded for u128 {
    open spec fn padded_text(&self, padding: Padding, pad_char: char) -> Option<Seq<char>> {
        Some(padded(decimal(*self as nat), pad_char, padding))
    }

    fn fmt_padded<W>(&self, f: &mut Formatter<'_, W>, padding: Padding, pad_char: char) -> (r:
        Result<(), W::Error>) where W: uWrite + ?Sized {
        fmt_unsigned_padded(f, *self, padding, pad_char)
    }
}

impl uDisplayHex for u128 {
    open spec fn hex_text(&self, prefix: bool, cmd: char, padding: Padding, pad_char: char) -> Option<
        Seq<char>,
    > {
        Some(radix_text(*self as nat, prefix, cmd, padding, pad_char))
    }

    fn fmt_hex<W>(
        &self,
        f: &mut Formatter<'_, W>,
        prefix: bool,
        cmd: char,
        padding: Padding,
        pad_char: char,
    ) -> (r: Result<(), W::Error>) where W: uWrite + ?Sized {
        fmt_radix(f, *self, prefix, cmd, padding, pad_char)
    }
}

impl uDisplay for usize {
    open spec fn text(&self) -> Option<Seq<char>> {
        Some(decimal(*self as nat))
    }

    fn fmt<W>(&self, f: &mut Formatter<'_, W>) -> (r: Result<(), W::Error>) where
        W: uWrite + ?Sized,
     {
        fmt_unsigned(f, *self as u128)
    }
}

impl uDisplayPadded for usize {
    open spec fn padded_text(&self, padding: Padding, pad_char: char) -> Option<Seq<char>> {
        Some(padded(decimal(*self as nat), pad_char, padding))
    }

    fn fmt_padded<W>(&self, f: &mut Formatter<'_, W>, padding: Padding, pad_char: char) -> (r:
        Result<(), W::Error>) where W: uWrite + ?Sized {
        fmt_unsigned_padded(f, *self as u128, padding, pad_char)
    }
}

impl uDisplayHex for usize {
    open spec fn hex_text(&self, prefix: bool, cmd: char, padding: Padding, pad_char: char) -> Option<
        Seq<char>,
    > {
        Some(radix_text(*self as nat, prefix, cmd, padding, pad_char))
    }

    fn fmt_hex<W>(
        &self,
        f: &mut Formatter<'_, W>,
        prefix: bool,
        cmd: char,
        padding: Padding,
        pad_char: char,
    ) -> (r: Result<(), W::Error>) where W: uWrite + ?Sized {
        fmt_radix(f, *self as u128, prefix, cmd, padding, pad_char)
    }
}

/// The unsigned number with the bits of `i`.
pub fn unsigned_i8(i: i8) -> (u: u128)
    ensures
        u == as_unsigned(i as int, 0x100),
{
    if i < 0 {
        (i as i128 + 0x100) as u128
    } else {
        i as u128
    }
}

impl uDisplay for i8 {
    open spec fn text(&self) -> Option<Seq<char>> {
        Some(signed_decimal(*self as int))
    }

    fn fmt<W>(&self, f: &mut Formatter<'_, W>) -> (r: Result<(), W::Error>) where
        W: uWrite + ?Sized,
     {
        fmt_i32(f, *self as i32)
    }
}

impl uDisplayPadded for i8 {
    open spec fn padded_text(&self, padding: Padding, pad_char: char) -> Option<Seq<char>> {
        Some(padded(signed_decimal(*self as int), pad_char, padding))
    }

    fn fmt_padded<W>(&self, f: &mut Formatter<'_, W>, padding: Padding, pad_char: char) -> (r:
        Result<(), W::Error>) where W: uWrite + ?Sized {
        fmt_i32_padded(f, *self as i32, padding, pad_char)
    }
}

impl uDisplayHex for i8 {
    open spec fn hex_text(&self, prefix: bool, cmd: char, padding: Padding, pad_char: char) -> Option<
        Seq<char>,
    > {
        Some(radix_text(as_unsigned(*self as int, 0x100), prefix, cmd, padding, pad_char))
    }

    fn fmt_hex<W>(
        &self,
        f: &mut Formatter<'_, W>,
        prefix: bool,
        cmd: char,
        padding: Padding,
        pad_char: char,
    ) -> (r: Result<(), W::Error>) where W: uWrite + ?Sized {
        fmt_radix(f, unsigned_i8(*self), prefix, cmd, padding, pad_char)
    }
}

/// The unsigned number with the bits of `i`.
pub fn unsigned_i16(i: i16) -> (u: u128)
    ensures
        u == as_unsigned(i as int, 0x1_0000),
{
    if i < 0 {
        (i as i128 + 0x1_0000) as u128
    } else {
        i as u128
    }
}

impl uDisplay for i16 {
    open spec fn text(&self) -> Option<Seq<char>> {
        Some(signed_decimal(*self as int))
    }

    fn fmt<W>(&self, f: &mut Formatter<'_, W>) -> (r: Result<(), W::Error>) where
        W: uWrite + ?Sized,
     {
        fmt_i32(f, *self as i32)
    }
}

impl uDisplayPadded for i16 {
    open spec fn padded_text(&self, padding: Padding, pad_char: char) -> Option<Seq<char>> {
        Some(padded(signed_decimal(*self as int), pad_char, padding))
    }

    fn fmt_padded<W>(&self, f: &mut Formatter<'_, W>, padding: Padding, pad_char: char) -> (r:
        Result<(), W::Error>) where W: uWrite + ?Sized {
        fmt_i32_padded(f, *self as i32, padding, pad_char)
    }
}

impl uDisplayHex for i16 {
    open spec fn hex_text(&self, prefix: bool, cmd: char, padding: Padding, pad_char: char) -> Option<
        Seq<char>,
    > {
        Some(radix_text(as_unsigned(*self as int, 0x1_0000), prefix, cmd, padding, pad_char))
    }

    fn fmt_hex<W>(
        &self,
        f: &mut Formatter<'_, W>,
        prefix: bool,
        cmd: char,
        padding: Padding,
        pad_char: char,
    ) -> (r: Result<(), W::Error>) where W: uWrite + ?Sized {
        fmt_radix(f, unsigned_i16(*self), prefix, cmd, padding, pad_char)
    }
}

/// The unsigned number with the bits of `i`.
pub fn unsigned_i32(i: i32) -> (u: u128)
    ensures
        u == as_unsigned(i as int, 0x1_0000_0000),
{
    if i < 0 {
        (i as i128 + 0x1_0000_0000) as u128
    } else {
        i as u128
    }
}

impl uDisplay for i32 {
    open spec fn text(&self) -> Option<Seq<char>> {
        Some(signed_decimal(*self as int))
    }

    fn fmt<W>(&self, f: &mut Formatter<'_, W>) -> (r: Result<(), W::Error>) where
        W: uWrite + ?Sized,
     {
        fmt_i32(f, *self)
    }
}

impl uDisplayPadded for i32 {
    open spec fn padded_text(&self, padding: Padding, pad_char: char) -> Option<Seq<char>> {
        Some(padded(signed_decimal(*self as int), pad_char, padding))
    }

    fn fmt_padded<W>(&self, f: &mut Formatter<'_, W>, padding: Padding, pad_char: char) -> (r:
        Result<(), W::Error>) where W: uWrite + ?Sized {
        fmt_i32_padded(f, *self, padding, pad_char)
    }
}

impl uDisplayHex for i32 {
    open spec fn hex_text(&self, prefix: bool, cmd: char, padding: Padding, pad_char: char) -> Option<
        Seq<char>,
    > {
        Some(radix_text(as_unsigned(*self as int, 0x1_0000_0000), prefix, cmd, padding, pad_char))
    }

    fn fmt_hex<W>(
        &self,
        f: &mut Formatter<'_, W>,
        prefix: bool,
        cmd: char,
        padding: Padding,
        pad_char: char,
    ) -> (r: Result<(), W::Error>) where W: uWrite + ?Sized {
        fmt_radix(f, unsigned_i32(*self), prefix, cmd, padding, pad_char)
    }
}

/// The unsigned number with the bits of `i`.
pub fn unsigned_i64(i: i64) -> (u: u128)
    ensures
        u == as_unsigned(i as int, 0x1_0000_0000_0000_0000),
{
    if i < 0 {
        (i as i128 + 0x1_0000_0000_0000_0000) as u128
    } else {
        i as u128
    }
}

impl uDisplay for i64 {
    open spec fn text(&self) -> Option<Seq<char>> {
        Some(signed_decimal(*self as int))
    }

    fn fmt<W>(&self, f: &mut Formatter<'_, W>) -> (r: Result<(), W::Error>) where
        W: uWrite + ?Sized,
     {
        fmt_signed(f, *self as i128)
    }
}

impl uDisplayPadded for i64 {
    open spec fn padded_text(&self, padding: Padding, pad_char: char) -> Option<Seq<char>> {
        Some(padded(signed_decimal(*self as int), pad_char, padding))
    }

    fn fmt_padded<W>(&self, f: &mut Formatter<'_, W>, padding: Padding, pad_char: char) -> (r:
        Result<(), W::Error>) where W: uWrite + ?Sized {
        fmt_signed_padded(f, *self as i128, padding, pad_char)
    }
}

impl uDisplayHex for i64 {
    open spec fn hex_text(&self, prefix: bool, cmd: char, padding: Padding, pad_char: char) -> Option<
        Seq<char>,
    > {
        Some(radix_text(as_unsigned(*self as int, 0x1_0000_0000_0000_0000), prefix, cmd, padding, pad_char))
    }

    fn fmt_hex<W>(
        &self,
        f: &mut Formatter<'_, W>,
        prefix: bool,
        cmd: char,
        padding: Padding,
        pad_char: char,
    ) -> (r: Result<(), W::Error>) where W: uWrite + ?Sized {
        fmt_radix(f, unsigned_i64(*self), prefix, cmd, padding, pad_char)
    }
}

/// The unsigned number with the bits of `i`.
pub fn unsigned_i128(i: i128) -> (u: u128)
    ensures
        u == as_unsigned(i as int, 0x1_0000_0000_0000_0000_0000_0000_0000_0000int),
{
    if i < 0 {
        u128::MAX - ((-(i + 1)) as u128)
    } else {
        i as u128
    }
}

impl uDisplay for i128 {
    open spec fn text(&self) -> Option<Seq<char>> {
        Some(signed_decimal(*self as int))
    }

    fn fmt<W>(&self, f: &mut Formatter<'_, W>) -> (r: Result<(), W::Error>) where
        W: uWrite + ?Sized,
     {
        fmt_signed(f, *self)
    }
}

impl uDisplayPadded for i128 {
    open spec fn padded_text(&self, padding: Padding, pad_char: char) -> Option<Seq<char>> {
        Some(padded(signed_decimal(*self as int), pad_char, padding))
    }

    fn fmt_padded<W>(&self, f: &mut Formatter<'_, W>, padding: Padding, pad_char: char) -> (r:
        Result<(), W::Error>) where W: uWrite + ?Sized {
        fmt_signed_padded(f, *self, padding, pad_char)
    }
}

impl uDisplayHex for i128 {
    open spec fn hex_text(&self, prefix: bool, cmd: char, padding: Padding, pad_char: char) -> Option<
        Seq<char>,
    > {
        Some(radix_text(as_unsigned(*self as int, 0x1_0000_0000_0000_0000_0000_0000_0000_0000int), prefix, cmd, padding, pad_char))
    }

    fn fmt_hex<W>(
        &self,
        f: &mut Formatter<'_, W>,
        prefix: bool,
        cmd: char,
        padding: Padding,
        pad_char: char,
    ) -> (r: Result<(), W::Error>) where W: uWrite + ?Sized {
        fmt_radix(f, unsigned_i128(*self), prefix, cmd, padding, pad_char)
    }
}

/// The unsigned number with the bits of `i`.
pub fn unsigned_isize(i: isize) -> (u: u128)
    ensures
        u == as_unsigned(i as int, usize::MAX + 1),
{
    if i < 0 {
        (usize::MAX - ((-(i + 1)) as usize)) as u128
    } else {
        i as u128
    }
}

impl uDisplay for isize {
    open spec fn text(&self) -> Option<Seq<char>> {
        Some(signed_decimal(*self as int))
    }

    fn fmt<W>(&self, f: &mut Formatter<'_, W>) -> (r: Result<(), W::Error>) where
        W: uWrite + ?Sized,
     {
        fmt_signed(f, *self as i128)
    }
}

impl uDisplayPadded for isize {
    open spec fn padded_text(&self, padding: Padding, pad_char: char) -> Option<Seq<char>> {
        Some(padded(signed_decimal(*self as int), pad_char, padding))
    }

    fn fmt_padded<W>(&self, f: &mut Formatter<'_, W>, padding: Padding, pad_char: char) -> (r:
        Result<(), W::Error>) where W: uWrite + ?Sized {
        fmt_signed_padded(f, *self as i128, padding, pad_char)
    }
}

impl uDisplayHex for isize {
    open spec fn hex_text(&self, prefix: bool, cmd: char, padding: Padding, pad_char: char) -> Option<
        Seq<char>,
    > {
        Some(radix_text(as_unsigned(*self as int, usize::MAX + 1), prefix, cmd, padding, pad_char))
    }

    fn fmt_hex<W>(
        &self,
        f: &mut Formatter<'_, W>,
        prefix: bool,
        cmd: char,
        padding: Padding,
        pad_char: char,
    ) -> (r: Result<(), W::Error>) where W: uWrite + ?Sized {
        fmt_radix(f, unsigned_isize(*self), prefix, cmd, padding, pad_char)
    }
}

/// Reading the text of an integer gives back the integer, for every integer
/// of every width, the least and the greatest included.
pub proof fn lemma_text_round_trips(
    a: u8,
    b: u16,
    c: u32,
    d: u64,
    e: u128,
    f: usize,
    g: i8,
    h: i16,
    i: i32,
    j: i64,
    k: i128,
    l: isize,
)
    ensures
        a.text() matches Some(t) && decimal_value(t) == a,
        b.text() matches Some(t) && decimal_value(t) == b,
        c.text() matches Some(t) && decimal_value(t) == c,
        d.text() matches Some(t) && decimal_value(t) == d,
        e.text() matches Some(t) && decimal_value(t) == e,
        f.text() matches Some(t) && decimal_value(t) == f,
        g.text() matches Some(t) && signed_decimal_value(t) == g,
        h.text() matches Some(t) && signed_decimal_value(t) == h,
        i.text() matches Some(t) && signed_decimal_value(t) == i,
        j.text() matches Some(t) && signed_decimal_value(t) == j,
        k.text() matches Some(t) && signed_decimal_value(t) == k,
        l.text() matches Some(t) && signed_decimal_value(t) == l,
{
    lemma_decimal_round_trip(a as nat);
    lemma_decimal_round_trip(b as nat);
    lemma_decimal_round_trip(c as nat);
    lemma_decimal_round_trip(d as nat);
    lemma_decimal_round_trip(e as nat);
    lemma_decimal_round_trip(f as nat);
    lemma_signed_decimal_round_trip(g as int);
    lemma_signed_decimal_round_trip(h as int);
    lemma_signed_decimal_round_trip(i as int);
    lemma_signed_decimal_round_trip(j as int);
    lemma_signed_decimal_round_trip(k as int);
    lemma_signed_decimal_round_trip(l as int);
}

/// The text of an integer is no longer than its width allows: three
/// characters for eight bits without a sign, five for sixteen, ten for
/// thirty-two, twenty for sixty-four and thirty-nine for a hundred and
/// twenty-eight, and one more for a signed number.
pub proof fn lemma_text_lengths(
    a: u8,
    b: u16,
    c: u32,
    d: u64,
    e: u128,
    f: usize,
    g: i8,
    h: i16,
    i: i32,
    j: i64,
    k: i128,
    l: isize,
)
    ensures
        a.text() matches Some(t) && t.len() <= 3,
        b.text() matches Some(t) && t.len() <= 5,
        c.text() matches Some(t) && t.len() <= 10,
        d.text() matches Some(t) && t.len() <= 20,
        e.text() matches Some(t) && t.len() <= 39,
        f.text() matches Some(t) && t.len() <= 20,
        g.text() matches Some(t) && t.len() <= 4,
        h.text() matches Some(t) && t.len() <= 6,
        i.text() matches Some(t) && t.len() <= 11,
        j.text() matches Some(t) && t.len() <= 21,
        k.text() matches Some(t) && t.len() <= 40,
        l.text() matches Some(t) && t.len() <= 21,
{
    assert(pow10(3) == 1_000 && pow10(5) == 100_000 && pow10(10) == 10_000_000_000) by {
        reveal_with_fuel(pow10, 11);
    }
    assert(pow10(20) == 100_000_000_000_000_000_000) by {
        reveal_with_fuel(pow10, 21);
    }
    lemma_decimal_len(a as nat, 3);
    lemma_decimal_len(b as nat, 5);
    lemma_decimal_len(c as nat, 10);
    lemma_decimal_len(d as nat, 20);
    lemma_decimal_fits(e);
    lemma_decimal_len(f as nat, 20);
    lemma_decimal_len(magnitude(g as int), 3);
    lemma_decimal_len(magnitude(h as int), 5);
    lemma_decimal_len(magnitude(i as int), 10);
    lemma_decimal_len(magnitude(j as int), 20);
    lemma_decimal_fits(magnitude(k as int) as u128);
    lemma_decimal_len(magnitude(l as int), 20);
}

/// The magnitude of an integer.
pub open spec fn magnitude(i: int) -> nat {
    if i < 0 {
        (-i) as nat
    } else {
        i as nat
    }
}

} // verus!
