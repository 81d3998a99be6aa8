//! The ways a value can be rendered: plainly, in a padded field, as a
//! numeral in another base, as a number with decimal places, or by a
//! formatter of its own.

use vstd::prelude::*;
use crate::formatter::Formatter;
use crate::padding::Padding;
use crate::sink::{uWrite, wrote};

verus! {

/// A value with a plain text form, written for `{}`.
#[allow(non_camel_case_types)]
pub trait uDisplay {
    /// The text that stands for the value, if the type says what it is.
    open spec fn text(&self) -> Option<Seq<char>> {
        None
    }

    /// Writes the value through the formatter.
    fn fmt<W>(&self, f: &mut Formatter<'_, W>) -> (r: Result<(), W::Error>) where
        W: uWrite + ?Sized,

        ensures
            self.text() matches Some(text) ==> wrote(old(f).sink(), final(f).sink(), r is Ok, text),
            &*final(final(f).writer) == &*final(old(f).writer),
    ;
}

/// A value that can be written in a padded field, for `{:8}`, `{:<8}`,
/// `{:>8}`, `{:^8}` and their zero-filled forms.
#[allow(non_camel_case_types)]
pub trait uDisplayPadded {
    /// The text of the value in its field, if the type says what it is.
    open spec fn padded_text(&self, padding: Padding, pad_char: char) -> Option<Seq<char>> {
        None
    }

    /// Writes the value, padded, through the formatter.
    fn fmt_padded<W>(&self, f: &mut Formatter<'_, W>, padding: Padding, pad_char: char) -> (r:
        Result<(), W::Error>) where W: uWrite + ?Sized

        ensures
            self.padded_text(padding, pad_char) matches Some(text) ==> wrote(
                old(f).sink(),
                final(f).sink(),
                r is Ok,
                text,
            ),
            &*final(final(f).writer) == &*final(old(f).writer),
    ;
}

/// A value that can be written as a numeral with decimal places, for
/// `{:.3}` and `{:10.3}`.
#[allow(non_camel_case_types)]
pub trait uDisplayFloat {
    /// The text of the value with `behind` decimal places, in its field, if
    /// the type says what it is.
    open spec fn float_text(&self, padding: Padding, pad_char: char, behind: usize) -> Option<
        Seq<char>,
    > {
        None
    }

    /// Writes the value with `behind` decimal places through the formatter.
    fn fmt_float<W>(
        &self,
        f: &mut Formatter<'_, W>,
        padding: Padding,
        pad_char: char,
        behind: usize,
    ) -> (r: Result<(), W::Error>) where W: uWrite + ?Sized

        ensures
            self.float_text(padding, pad_char, behind) matches Some(text) ==> wrote(
                old(f).sink(),
                final(f).sink(),
                r is Ok,
                text,
            ),
            &*final(final(f).writer) == &*final(old(f).writer),
    ;
}

/// A value that can be written in base sixteen, eight or two, for `{:x}`,
/// `{:X}`, `{:#x}`, `{:08x}` and the like.
#[allow(non_camel_case_types)]
pub trait uDisplayHex {
    /// The text of the value as the command letter `cmd` asks for it, if the
    /// type says what it is.
    open spec fn hex_text(&self, prefix: bool, cmd: char, padding: Padding, pad_char: char) -> Option<
        Seq<char>,
    > {
        None
    }

    /// Writes the value through the formatter as `cmd` asks for it.
    fn fmt_hex<W>(
        &self,
        f: &mut Formatter<'_, W>,
        prefix: bool,
        cmd: char,
        padding: Padding,
        pad_char: char,
    ) -> (r: Result<(), W::Error>) where W: uWrite + ?Sized

        ensures
            self.hex_text(prefix, cmd, padding, pad_char) matches Some(text) ==> wrote(
                old(f).sink(),
                final(f).sink(),
                r is Ok,
                text,
            ),
            &*final(final(f).writer) == &*final(old(f).writer),
    ;
}

/// A value with a formatter of its own, which is handed every part of the
/// directive: the prefix flag, the command letter (`*` where the directive
/// has none), the padding, the fill character and the number behind the
/// command letter.
///
/// | directive  | prefix | cmd | padding            | pad_char | behind |
/// |------------|--------|-----|--------------------|----------|--------|
/// | `{:17N}`   | false  | `N` | `Usual(17)`        | `' '`    | 0      |
/// | `{:<17N}`  | false  | `N` | `LeftAligned(17)`  | `' '`    | 0      |
/// | `{:017N3}` | false  | `N` | `Usual(17)`        | `'0'`    | 3      |
/// | `{:#10E}`  | true   | `E` | `Usual(10)`        | `' '`    | 0      |
#[allow(non_camel_case_types)]
pub trait uDisplayFormatted {
    /// The text of the value for the given directive, if the type says what
    /// it is.
    open spec fn formatted_text(
        &self,
        prefix: bool,
        cmd: char,
        padding: Padding,
        pad_char: char,
        behind: usize,
    ) -> Option<Seq<char>> {
        None
    }

    /// Writes the value through the formatter as the directive asks for it.
    fn fmt_formatted<W>(
        &self,
        f: &mut Formatter<'_, W>,
        prefix: bool,
        cmd: char,
        padding: Padding,
        pad_char: char,
        behind: usize,
    ) -> (r: Result<(), W::Error>) where W: uWrite + ?Sized

        ensures
            self.formatted_text(prefix, cmd, padding, pad_char, behind) matches Some(text)
                ==> wrote(old(f).sink(), final(f).sink(), r is Ok, text),
            &*final(final(f).writer) == &*final(old(f).writer),
    ;
}

} // verus!
