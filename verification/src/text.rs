//! Truth values, characters and strings as text.

use vstd::prelude::*;
use crate::formatter::Formatter;
use crate::padding::{padded, Padding};
use crate::sink::uWrite;
use crate::traits::{uDisplay, uDisplayPadded};

verus! {

/// The text of a truth value.
pub open spec fn bool_text(b: bool) -> Seq<char> {
    if b {
        seq!['t', 'r', 'u', 'e']
    } else {
        seq!['f', 'a', 'l', 's', 'e']
    }
}

/// The padding of a text: left-aligned where the directive names no
/// alignment.
pub open spec fn text_padding(padding: Padding) -> Padding {
    match padding {
        Padding::Usual(w) => Padding::LeftAligned(w),
        _ => padding,
    }
}

/// The padding of a text: left-aligned where the directive names no
/// alignment.
pub fn usual_to_left(padding: Padding) -> (p: Padding)
    ensures
        p == text_padding(padding),
{
    match padding {
        Padding::Usual(w) => Padding::LeftAligned(w),
        _ => padding,
    }
}

/// `true` or `false`.
pub fn bool_str(b: bool) -> (s: &'static str)
    ensures
        s@ == bool_text(b),
{
    proof {
        reveal_strlit("true");
        reveal_strlit("false");
    }
    if b {
        assert("true"@ =~= bool_text(true));
        "true"
    } else {
        assert("false"@ =~= bool_text(false));
        "false"
    }
}

impl uDisplay for bool {
    open spec fn text(&self) -> Option<Seq<char>> {
        Some(bool_text(*self))
    }

    fn fmt<W>(&self, f: &mut Formatter<'_, W>) -> (r: Result<(), W::Error>) where
        W: uWrite + ?Sized,
     {
        f.write_str(bool_str(*self))
    }
}

impl uDisplayPadded for bool {
    open spec fn padded_text(&self, padding: Padding, pad_char: char) -> Option<Seq<char>> {
        Some(padded(bool_text(*self), pad_char, text_padding(padding)))
    }

    fn fmt_padded<W>(&self, f: &mut Formatter<'_, W>, padding: Padding, pad_char: char) -> (r:
        Result<(), W::Error>) where W: uWrite + ?Sized {
        f.write_padded(bool_str(*self), pad_char, usual_to_left(padding))
    }
}

impl uDisplay for char {
    open spec fn text(&self) -> Option<Seq<char>> {
        Some(seq![*self])
    }

    fn fmt<W>(&self, f: &mut Formatter<'_, W>) -> (r: Result<(), W::Error>) where
        W: uWrite + ?Sized,
     {
        f.write_char(*self)
    }
}

impl uDisplayPadded for char {
    open spec fn padded_text(&self, padding: Padding, pad_char: char) -> Option<Seq<char>> {
        Some(padded(seq![*self], pad_char, text_padding(padding)))
    }

    fn fmt_padded<W>(&self, f: &mut Formatter<'_, W>, padding: Padding, pad_char: char) -> (r:
        Result<(), W::Error>) where W: uWrite + ?Sized {
        f.write_padded_char(*self, pad_char, usual_to_left(padding))
    }
}

impl uDisplay for str {
    open spec fn text(&self) -> Option<Seq<char>> {
        Some(self@)
    }

    fn fmt<W>(&self, f: &mut Formatter<'_, W>) -> (r: Result<(), W::Error>) where
        W: uWrite + ?Sized,
     {
        f.write_str(self)
    }
}

impl uDisplayPadded for &str {
    open spec fn padded_text(&self, padding: Padding, pad_char: char) -> Option<Seq<char>> {
        Some(padded(self@, pad_char, text_padding(padding)))
    }

    fn fmt_padded<W>(&self, f: &mut Formatter<'_, W>, padding: Padding, pad_char: char) -> (r:
        Result<(), W::Error>) where W: uWrite + ?Sized {
        f.write_padded(*self, pad_char, usual_to_left(padding))
    }
}

impl uDisplay for String {
    open spec fn text(&self) -> Option<Seq<char>> {
        Some(self@)
    }

    fn fmt<W>(&self, f: &mut Formatter<'_, W>) -> (r: Result<(), W::Error>) where
        W: uWrite + ?Sized,
     {
        f.write_str(self.as_str())
    }
}

impl uDisplayPadded for String {
    open spec fn padded_text(&self, padding: Padding, pad_char: char) -> Option<Seq<char>> {
        Some(padded(self@, pad_char, text_padding(padding)))
    }

    fn fmt_padded<W>(&self, f: &mut Formatter<'_, W>, padding: Padding, pad_char: char) -> (r:
        Result<(), W::Error>) where W: uWrite + ?Sized {
        f.write_padded(self.as_str(), pad_char, usual_to_left(padding))
    }
}

impl<T: uDisplay + ?Sized> uDisplay for &T {
    open spec fn text(&self) -> Option<Seq<char>> {
        (**self).text()
    }

    fn fmt<W>(&self, f: &mut Formatter<'_, W>) -> (r: Result<(), W::Error>) where
        W: uWrite + ?Sized,
     {
        (**self).fmt(f)
    }
}

impl<T: uDisplay + ?Sized> uDisplay for &mut T {
    open spec fn text(&self) -> Option<Seq<char>> {
        (**self).text()
    }

    fn fmt<W>(&self, f: &mut Formatter<'_, W>) -> (r: Result<(), W::Error>) where
        W: uWrite + ?Sized,
     {
        (**self).fmt(f)
    }
}

} // verus!
