//! The engine: a template's pieces and a list of values become text in a
//! sink.
//!
//! Each directive takes the next value. Before anything is written the
//! values are counted and each is held against its directive; after that
//! the pieces are written in order, and the first write that the sink
//! refuses ends the work.

use vstd::prelude::*;
use crate::digits::decimal;
use crate::float::{Float32, Float64};
use crate::formatter::Formatter;
use crate::integer::{fmt_radix, fmt_unsigned, radix_text};
use crate::padding::Padding;
use crate::parser::{get_alignment, padding_of, parse, parsed, ParseError, Piece, PieceView};
use crate::sink::{lemma_wrote_nothing, lemma_wrote_stop, lemma_wrote_then, uWrite, wrote};
use crate::traits::{uDisplay, uDisplayFloat, uDisplayHex, uDisplayPadded};

verus! {

/// A value for a directive.
#[derive(Debug, PartialEq, Clone, Copy)]
pub enum Argument<'a> {
    /// A truth value.
    Bool(bool),
    /// A character.
    Char(char),
    /// A string.
    Str(&'a str),
    /// A `u8`.
    U8(u8),
    /// A `u16`.
    U16(u16),
    /// A `u32`.
    U32(u32),
    /// A `u64`.
    U64(u64),
    /// A `u128`.
    U128(u128),
    /// A `usize`.
    Usize(usize),
    /// A `i8`.
    I8(i8),
    /// A `i16`.
    I16(i16),
    /// A `i32`.
    I32(i32),
    /// A `i64`.
    I64(i64),
    /// A `i128`.
    I128(i128),
    /// A `isize`.
    Isize(isize),
    /// A single-precision floating-point number.
    Single(Float32),
    /// A double-precision floating-point number.
    Double(Float64),
    /// An address.
    Pointer(usize),
}

impl<'a> Argument<'a> {
    /// The text of the value for `{}`. An address has none.
    pub open spec fn display_text(self) -> Option<Seq<char>> {
        match self {
            Argument::Bool(v) => v.text(),
            Argument::Char(v) => v.text(),
            Argument::Str(v) => Some(v@),
            Argument::U8(v) => v.text(),
            Argument::U16(v) => v.text(),
            Argument::U32(v) => v.text(),
            Argument::U64(v) => v.text(),
            Argument::U128(v) => v.text(),
            Argument::Usize(v) => v.text(),
            Argument::I8(v) => v.text(),
            Argument::I16(v) => v.text(),
            Argument::I32(v) => v.text(),
            Argument::I64(v) => v.text(),
            Argument::I128(v) => v.text(),
            Argument::Isize(v) => v.text(),
            Argument::Single(v) => v.text(),
            Argument::Double(v) => v.text(),
            Argument::Pointer(_) => None,
        }
    }

    /// The text of the value for `{:?}` and `{:#?}`: that of `{}`, and for an
    /// address its numeral in base sixteen behind `0x`.
    pub open spec fn debug_text(self) -> Option<Seq<char>> {
        match self {
            Argument::Pointer(v) => Some(radix_text(v as nat, true, 'x', Padding::Usual(0), ' ')),
            _ => self.display_text(),
        }
    }

    /// The text of the value in a padded field. Truth values, characters,
    /// strings and integers have one.
    pub open spec fn padded_text(self, padding: Padding, pad_char: char) -> Option<Seq<char>> {
        match self {
            Argument::Bool(v) => v.padded_text(padding, pad_char),
            Argument::Char(v) => v.padded_text(padding, pad_char),
            Argument::Str(v) => v.padded_text(padding, pad_char),
            Argument::U8(v) => v.padded_text(padding, pad_char),
            Argument::U16(v) => v.padded_text(padding, pad_char),
            Argument::U32(v) => v.padded_text(padding, pad_char),
            Argument::U64(v) => v.padded_text(padding, pad_char),
            Argument::U128(v) => v.padded_text(padding, pad_char),
            Argument::Usize(v) => v.padded_text(padding, pad_char),
            Argument::I8(v) => v.padded_text(padding, pad_char),
            Argument::I16(v) => v.padded_text(padding, pad_char),
            Argument::I32(v) => v.padded_text(padding, pad_char),
            Argument::I64(v) => v.padded_text(padding, pad_char),
            Argument::I128(v) => v.padded_text(padding, pad_char),
            Argument::Isize(v) => v.padded_text(padding, pad_char),
            _ => None,
        }
    }

    /// The text of the value in base sixteen, eight or two. Integers have
    /// one.
    pub open spec fn hex_text(self, prefix: bool, cmd: char, padding: Padding, pad_char: char) -> Option<
        Seq<char>,
    > {
        match self {
            Argument::U8(v) => v.hex_text(prefix, cmd, padding, pad_char),
            Argument::U16(v) => v.hex_text(prefix, cmd, padding, pad_char),
            Argument::U32(v) => v.hex_text(prefix, cmd, padding, pad_char),
            Argument::U64(v) => v.hex_text(prefix, cmd, padding, pad_char),
            Argument::U128(v) => v.hex_text(prefix, cmd, padding, pad_char),
            Argument::Usize(v) => v.hex_text(prefix, cmd, padding, pad_char),
            Argument::I8(v) => v.hex_text(prefix, cmd, padding, pad_char),
            Argument::I16(v) => v.hex_text(prefix, cmd, padding, pad_char),
            Argument::I32(v) => v.hex_text(prefix, cmd, padding, pad_char),
            Argument::I64(v) => v.hex_text(prefix, cmd, padding, pad_char),
            Argument::I128(v) => v.hex_text(prefix, cmd, padding, pad_char),
            Argument::Isize(v) => v.hex_text(prefix, cmd, padding, pad_char),
            _ => None,
        }
    }

    /// The text of the value with decimal places. Floating-point numbers
    /// have one.
    pub open spec fn float_text(self, padding: Padding, pad_char: char, behind: usize) -> Option<
        Seq<char>,
    > {
        match self {
            Argument::Single(v) => v.float_text(padding, pad_char, behind),
            Argument::Double(v) => v.float_text(padding, pad_char, behind),
            _ => None,
        }
    }

    /// The text of the value for the directive `piece`, if the value can
    /// be written that way. No value here has a formatter of its own, so
    /// none can be written for a directive with a command letter other than
    /// `x`, `X` and the point.
    pub open spec fn text_for(self, piece: PieceView) -> Option<Seq<char>> {
        match piece {
            PieceView::Str(_) => None,
            PieceView::Display => self.display_text(),
            PieceView::Debug(_) => self.debug_text(),
            PieceView::Padded { pad_length, pad_char, alignment } => self.padded_text(
                padding_of(alignment, pad_length),
                pad_char,
            ),
            PieceView::Hex { prefix, cmd, pad_length, pad_char, alignment } => self.hex_text(
                prefix,
                cmd,
                padding_of(alignment, pad_length),
                pad_char,
            ),
            PieceView::Float { pad_length, pad_char, alignment, behind } => self.float_text(
                padding_of(alignment, pad_length),
                pad_char,
                behind,
            ),
            PieceView::Formatted { .. } => None,
        }
    }

    /// Whether the value can be written for `{}`.
    fn has_display(&self) -> (b: bool)
        ensures
            b == self.display_text() is Some,
    {
        match self {
            Argument::Pointer(_) => false,
            _ => true,
        }
    }

    /// Whether the value can be written in a padded field.
    fn has_padded(&self) -> (b: bool)
        ensures
            b == self.padded_text(Padding::Usual(0), ' ') is Some,
            forall|padding: Padding, pad_char: char|
                b == #[trigger] self.padded_text(padding, pad_char) is Some,
    {
        match self {
            Argument::Single(_) => false,
            Argument::Double(_) => false,
            Argument::Pointer(_) => false,
            _ => true,
        }
    }

    /// Whether the value is an integer.
    fn has_hex(&self) -> (b: bool)
        ensures
            forall|prefix: bool, cmd: char, padding: Padding, pad_char: char|
                b == #[trigger] self.hex_text(prefix, cmd, padding, pad_char) is Some,
    {
        match self {
            Argument::Bool(_) => false,
            Argument::Char(_) => false,
            Argument::Str(_) => false,
            Argument::Single(_) => false,
            Argument::Double(_) => false,
            Argument::Pointer(_) => false,
            _ => true,
        }
    }

    /// Whether the value is a floating-point number.
    fn has_float(&self) -> (b: bool)
        ensures
            forall|padding: Padding, pad_char: char, behind: usize|
                b == #[trigger] self.float_text(padding, pad_char, behind) is Some,
    {
        match self {
            Argument::Single(_) => true,
            Argument::Double(_) => true,
            _ => false,
        }
    }

    /// Whether the value can be written for the directive `piece`.
    pub fn supports(&self, piece: &Piece) -> (b: bool)
        ensures
            b == self.text_for(piece@) is Some,
    {
        match piece {
            Piece::Str(_) => false,
            Piece::Display => self.has_display(),
            Piece::Debug(_) => true,
            Piece::Padded { .. } => self.has_padded(),
            Piece::Hex { .. } => self.has_hex(),
            Piece::Float { .. } => self.has_float(),
            Piece::Formatted { .. } => false,
        }
    }

    /// Writes the value for `{}`.
    fn fmt_display<W: uWrite + ?Sized>(&self, f: &mut Formatter<'_, W>) -> (r: Result<
        (),
        W::Error,
    >)
        requires
            self.display_text() is Some,
        ensures
            wrote(old(f).sink(), final(f).sink(), r is Ok, self.display_text()->0),
            &*final(final(f).writer) == &*final(old(f).writer),
    {
        match self {
            Argument::Bool(v) => v.fmt(f),
            Argument::Char(v) => v.fmt(f),
            Argument::Str(v) => f.write_str(*v),
            Argument::U8(v) => v.fmt(f),
            Argument::U16(v) => v.fmt(f),
            Argument::U32(v) => v.fmt(f),
            Argument::U64(v) => v.fmt(f),
            Argument::U128(v) => v.fmt(f),
            Argument::Usize(v) => v.fmt(f),
            Argument::I8(v) => v.fmt(f),
            Argument::I16(v) => v.fmt(f),
            Argument::I32(v) => v.fmt(f),
            Argument::I64(v) => v.fmt(f),
            Argument::I128(v) => v.fmt(f),
            Argument::Isize(v) => v.fmt(f),
            Argument::Single(v) => v.fmt(f),
            Argument::Double(v) => v.fmt(f),
            Argument::Pointer(_) => Ok(()),
        }
    }

    /// Writes the value for `{:?}`.
    fn fmt_debug<W: uWrite + ?Sized>(&self, f: &mut Formatter<'_, W>) -> (r: Result<
        (),
        W::Error,
    >)
        ensures
            wrote(old(f).sink(), final(f).sink(), r is Ok, self.debug_text()->0),
            &*final(final(f).writer) == &*final(old(f).writer),
    {
        match self {
            Argument::Pointer(v) => fmt_radix(f, *v as u128, true, 'x', Padding::Usual(0), ' '),
            _ => self.fmt_display(f),
        }
    }

    /// Writes the value in a padded field.
    fn fmt_padded<W: uWrite + ?Sized>(
        &self,
        f: &mut Formatter<'_, W>,
        padding: Padding,
        pad_char: char,
    ) -> (r: Result<(), W::Error>)
        requires
            self.padded_text(padding, pad_char) is Some,
        ensures
            wrote(
                old(f).sink(),
                final(f).sink(),
                r is Ok,
                self.padded_text(padding, pad_char)->0,
            ),
            &*final(final(f).writer) == &*final(old(f).writer),
    {
        match self {
            Argument::Bool(v) => v.fmt_padded(f, padding, pad_char),
            Argument::Char(v) => v.fmt_padded(f, padding, pad_char),
            Argument::Str(v) => v.fmt_padded(f, padding, pad_char),
            Argument::U8(v) => v.fmt_padded(f, padding, pad_char),
            Argument::U16(v) => v.fmt_padded(f, padding, pad_char),
            Argument::U32(v) => v.fmt_padded(f, padding, pad_char),
            Argument::U64(v) => v.fmt_padded(f, padding, pad_char),
            Argument::U128(v) => v.fmt_padded(f, padding, pad_char),
            Argument::Usize(v) => v.fmt_padded(f, padding, pad_char),
            Argument::I8(v) => v.fmt_padded(f, padding, pad_char),
            Argument::I16(v) => v.fmt_padded(f, padding, pad_char),
            Argument::I32(v) => v.fmt_padded(f, padding, pad_char),
            Argument::I64(v) => v.fmt_padded(f, padding, pad_char),
            Argument::I128(v) => v.fmt_padded(f, padding, pad_char),
            Argument::Isize(v) => v.fmt_padded(f, padding, pad_char),
            _ => Ok(()),
        }
    }

    /// Writes the value in base sixteen, eight or two.
    fn fmt_hex<W: uWrite + ?Sized>(
        &self,
        f: &mut Formatter<'_, W>,
        prefix: bool,
        cmd: char,
        padding: Padding,
        pad_char: char,
    ) -> (r: Result<(), W::Error>)
        requires
            self.hex_text(prefix, cmd, padding, pad_char) is Some,
        ensures
            wrote(
                old(f).sink(),
                final(f).sink(),
                r is Ok,
                self.hex_text(prefix, cmd, padding, pad_char)->0,
            ),
            &*final(final(f).writer) == &*final(old(f).writer),
    {
        match self {
            Argument::U8(v) => v.fmt_hex(f, prefix, cmd, padding, pad_char),
            Argument::U16(v) => v.fmt_hex(f, prefix, cmd, padding, pad_char),
            Argument::U32(v) => v.fmt_hex(f, prefix, cmd, padding, pad_char),
            Argument::U64(v) => v.fmt_hex(f, prefix, cmd, padding, pad_char),
            Argument::U128(v) => v.fmt_hex(f, prefix, cmd, padding, pad_char),
            Argument::Usize(v) => v.fmt_hex(f, prefix, cmd, padding, pad_char),
            Argument::I8(v) => v.fmt_hex(f, prefix, cmd, padding, pad_char),
            Argument::I16(v) => v.fmt_hex(f, prefix, cmd, padding, pad_char),
            Argument::I32(v) => v.fmt_hex(f, prefix, cmd, padding, pad_char),
            Argument::I64(v) => v.fmt_hex(f, prefix, cmd, padding, pad_char),
            Argument::I128(v) => v.fmt_hex(f, prefix, cmd, padding, pad_char),
            Argument::Isize(v) => v.fmt_hex(f, prefix, cmd, padding, pad_char),
            _ => Ok(()),
        }
    }

    /// Writes the value with decimal places.
    fn fmt_float<W: uWrite + ?Sized>(
        &self,
        f: &mut Formatter<'_, W>,
        padding: Padding,
        pad_char: char,
        behind: usize,
    ) -> (r: Result<(), W::Error>)
        requires
            self.float_text(padding, pad_char, behind) is Some,
        ensures
            wrote(
                old(f).sink(),
                final(f).sink(),
                r is Ok,
                self.float_text(padding, pad_char, behind)->0,
            ),
            &*final(final(f).writer) == &*final(old(f).writer),
    {
        match self {
            Argument::Single(v) => v.fmt_float(f, padding, pad_char, behind),
            Argument::Double(v) => v.fmt_float(f, padding, pad_char, behind),
            _ => Ok(()),
        }
    }

    /// Writes the value for the directive `piece`.
    fn fmt_for<W: uWrite + ?Sized>(&self, f: &mut Formatter<'_, W>, piece: &Piece) -> (r:
        Result<(), W::Error>)
        requires
            self.text_for(piece@) is Some,
        ensures
            wrote(old(f).sink(), final(f).sink(), r is Ok, self.text_for(piece@)->0),
            &*final(final(f).writer) == &*final(old(f).writer),
    {
        match piece {
            Piece::Display => self.fmt_display(f),
            Piece::Debug(_) => self.fmt_debug(f),
            Piece::Padded { pad_length, pad_char, alignment } => self.fmt_padded(
                f,
                get_alignment(*alignment, *pad_length),
                *pad_char,
            ),
            Piece::Hex { prefix, cmd, pad_length, pad_char, alignment } => self.fmt_hex(
                f,
                *prefix,
                *cmd,
                get_alignment(*alignment, *pad_length),
                *pad_char,
            ),
            Piece::Float { pad_length, pad_char, alignment, behind } => self.fmt_float(
                f,
                get_alignment(*alignment, *pad_length),
                *pad_char,
                *behind,
            ),
            _ => Ok(()),
        }
    }
}

/// Why a list of values does not go with a template.
#[derive(Debug, PartialEq, Eq, Structural, Clone, Copy)]
pub enum ArgumentError {
    /// The template has more directives than there are values.
    TooFew { required: usize, supplied: usize },
    /// The value at `index`, and any behind it, has no directive.
    Unused { index: usize },
    /// The value at `index` cannot be written as its directive asks.
    Unsupported { index: usize },
}

/// Why a template and its values were not written.
#[derive(Debug, PartialEq)]
pub enum FormatError<E> {
    /// The template is not well formed.
    Parse(ParseError),
    /// The values do not go with the template.
    Arguments(ArgumentError),
    /// The sink refused a write.
    Sink(E),
}

/// The number of directives among the first `i` pieces.
pub open spec fn args_before(pieces: Seq<PieceView>, i: int) -> nat
    decreases i,
{
    if i <= 0 {
        0
    } else {
        args_before(pieces, i - 1) + if pieces[i - 1] is Str {
            0nat
        } else {
            1nat
        }
    }
}

/// The number of values that a template takes: one for each directive.
pub open spec fn required_args(pieces: Seq<PieceView>) -> nat {
    args_before(pieces, pieces.len() as int)
}

/// The text of the piece at `i`: a literal as it is, a directive with the
/// next value, if there is one and it can be written that way.
#[verifier::opaque]
pub open spec fn piece_text(pieces: Seq<PieceView>, args: Seq<Argument>, i: int) -> Option<
    Seq<char>,
> {
    match pieces[i] {
        PieceView::Str(s) => Some(s),
        piece => if args_before(pieces, i) < args.len() {
            args[args_before(pieces, i) as int].text_for(piece)
        } else {
            None
        },
    }
}

/// The texts of the pieces from `from` up to `to`, one after the other.
pub open spec fn text_between(pieces: Seq<PieceView>, args: Seq<Argument>, from: int, to: int) -> Seq<
    char,
>
    decreases to - from,
{
    if to <= from {
        Seq::<char>::empty()
    } else {
        text_between(pieces, args, from, to - 1) + match piece_text(pieces, args, to - 1) {
            Some(t) => t,
            None => Seq::<char>::empty(),
        }
    }
}

/// The place among the values of the first value at or behind the piece
/// `from` that cannot be written as its directive asks.
pub open spec fn first_unsupported(pieces: Seq<PieceView>, args: Seq<Argument>, from: int) -> Option<
    nat,
>
    decreases pieces.len() - from,
{
    if from < 0 || from >= pieces.len() {
        None
    } else if piece_text(pieces, args, from) is None {
        Some(args_before(pieces, from))
    } else {
        first_unsupported(pieces, args, from + 1)
    }
}

/// The text that a template and its values stand for, or what is wrong
/// with them: too few values, a value too many, or a value that its
/// directive cannot write.
pub open spec fn rendered(pieces: Seq<PieceView>, args: Seq<Argument>) -> Result<
    Seq<char>,
    ArgumentError,
> {
    let required = required_args(pieces);
    if args.len() < required {
        Err(ArgumentError::TooFew { required: required as usize, supplied: args.len() as usize })
    } else if args.len() > required {
        Err(ArgumentError::Unused { index: required as usize })
    } else {
        match first_unsupported(pieces, args, 0) {
            Some(index) => Err(ArgumentError::Unsupported { index: index as usize }),
            None => Ok(text_between(pieces, args, 0, pieces.len() as int)),
        }
    }
}

/// There are no more directives than pieces.
pub proof fn lemma_args_before(pieces: Seq<PieceView>, i: int, j: int)
    requires
        0 <= i <= j,
    ensures
        args_before(pieces, i) <= args_before(pieces, j) <= j,
    decreases j,
{
    if i < j {
        lemma_args_before(pieces, i, j - 1);
    } else if j > 0 {
        lemma_args_before(pieces, i - 1, j - 1);
    }
}

/// Where no value is unsupported, every piece has a text.
pub proof fn lemma_all_supported(pieces: Seq<PieceView>, args: Seq<Argument>, from: int, i: int)
    requires
        0 <= from <= i < pieces.len(),
        first_unsupported(pieces, args, from) is None,
    ensures
        piece_text(pieces, args, i) is Some,
    decreases i - from,
{
    if from < i {
        lemma_all_supported(pieces, args, from + 1, i);
    }
}

/// The texts of a run of pieces are those of its first part followed by
/// those of the rest.
pub proof fn lemma_text_between_splits(
    pieces: Seq<PieceView>,
    args: Seq<Argument>,
    from: int,
    mid: int,
    to: int,
)
    requires
        from <= mid <= to,
    ensures
        text_between(pieces, args, from, to) == text_between(pieces, args, from, mid)
            + text_between(pieces, args, mid, to),
    decreases to - mid,
{
    if mid < to {
        lemma_text_between_splits(pieces, args, from, mid, to - 1);
        let last = match piece_text(pieces, args, to - 1) {
            Some(t) => t,
            None => Seq::<char>::empty(),
        };
        assert(text_between(pieces, args, from, mid) + text_between(pieces, args, mid, to - 1)
            + last =~= text_between(pieces, args, from, mid) + (text_between(
            pieces,
            args,
            mid,
            to - 1,
        ) + last));
    } else {
        assert(text_between(pieces, args, from, mid) + Seq::<char>::empty() =~= text_between(
            pieces,
            args,
            from,
            mid,
        ));
    }
}

/// Holds the number of values against the number of directives.
pub fn check_args(pieces: &Vec<Piece>, supplied: usize) -> (r: Result<(), ArgumentError>)
    ensures
        match r {
            Ok(()) => supplied == required_args(pieces.deep_view()),
            Err(e) => if supplied < required_args(pieces.deep_view()) {
                e == (ArgumentError::TooFew {
                    required: required_args(pieces.deep_view()) as usize,
                    supplied,
                })
            } else {
                supplied > required_args(pieces.deep_view()) && e == (ArgumentError::Unused {
                    index: required_args(pieces.deep_view()) as usize,
                })
            },
        },
{
    let mut required: usize = 0;
    let mut i: usize = 0;
    while i < pieces.len()
        invariant
            i <= pieces.len(),
            required == args_before(pieces.deep_view(), i as int),
            required <= i,
        decreases pieces.len() - i,
    {
        if !pieces[i].is_str() {
            required = required + 1;
        }
        i = i + 1;
    }
    if supplied < required {
        Err(ArgumentError::TooFew { required, supplied })
    } else if supplied > required {
        Err(ArgumentError::Unused { index: required })
    } else {
        Ok(())
    }
}

/// Holds the values against the template: their number, and each against
/// its directive.
pub fn validate(pieces: &Vec<Piece>, args: &[Argument]) -> (r: Result<(), ArgumentError>)
    ensures
        match r {
            Ok(()) => rendered(pieces.deep_view(), args@) is Ok,
            Err(e) => rendered(pieces.deep_view(), args@) == Err::<Seq<char>, ArgumentError>(e),
        },
{
    match check_args(pieces, args.len()) {
        Ok(()) => {},
        Err(e) => {
            return Err(e);
        },
    }
    let ghost views = pieces.deep_view();
    let mut i: usize = 0;
    let mut j: usize = 0;
    while i < pieces.len()
        invariant
            i <= pieces.len(),
            views == pieces.deep_view(),
            j == args_before(views, i as int),
            args@.len() == required_args(views),
            first_unsupported(views, args@, 0) == first_unsupported(views, args@, i as int),
        decreases pieces.len() - i,
    {
        proof {
            reveal(piece_text);
            lemma_args_before(views, i + 1, views.len() as int);
        }
        if !pieces[i].is_str() {
            if !args[j].supports(&pieces[i]) {
                return Err(ArgumentError::Unsupported { index: j });
            }
            j = j + 1;
        }
        i = i + 1;
    }
    Ok(())
}

/// Writes a template's pieces with their values through the formatter.
///
/// Nothing is written unless the values go with the template. The pieces
/// are then written in order, and the first write that the sink refuses
/// ends the call.
pub fn render<W: uWrite + ?Sized>(f: &mut Formatter<'_, W>, pieces: &Vec<Piece>, args: &[Argument]) -> (r:
    Result<(), FormatError<W::Error>>)
    ensures
        match r {
            Ok(()) => rendered(pieces.deep_view(), args@) matches Ok(text) && wrote(
                old(f).sink(),
                final(f).sink(),
                true,
                text,
            ),
            Err(FormatError::Sink(_)) => rendered(pieces.deep_view(), args@) matches Ok(text)
                && wrote(old(f).sink(), final(f).sink(), false, text),
            Err(FormatError::Arguments(e)) => rendered(pieces.deep_view(), args@) == Err::<
                Seq<char>,
                ArgumentError,
            >(e) && final(f).sink() == old(f).sink(),
            Err(FormatError::Parse(_)) => false,
        },
        &*final(final(f).writer) == &*final(old(f).writer),
{
    match validate(pieces, args) {
        Ok(()) => {},
        Err(e) => {
            return Err(FormatError::Arguments(e));
        },
    }
    let ghost views = pieces.deep_view();
    let ghost all = text_between(views, args@, 0, views.len() as int);
    let mut i: usize = 0;
    let mut j: usize = 0;
    proof {
        lemma_wrote_nothing(f.sink());
    }
    while i < pieces.len()
        invariant
            i <= pieces.len(),
            views == pieces.deep_view(),
            j == args_before(views, i as int),
            args@.len() == required_args(views),
            first_unsupported(views, args@, 0) is None,
            all == text_between(views, args@, 0, views.len() as int),
            wrote(old(f).sink(), f.sink(), true, text_between(views, args@, 0, i as int)),
            &*final(f.writer) == &*final(old(f).writer),
        decreases pieces.len() - i,
    {
        let ghost mid = f.sink();
        let ghost done = text_between(views, args@, 0, i as int);
        let ghost this = piece_text(views, args@, i as int)->0;
        proof {
            reveal(piece_text);
            lemma_args_before(views, i + 1, views.len() as int);
            lemma_all_supported(views, args@, 0, i as int);
            lemma_text_between_splits(views, args@, 0, i + 1, views.len() as int);
        }
        let step = match &pieces[i] {
            Piece::Str(s) => f.write_str(s.as_str()),
            piece => {
                let r = args[j].fmt_for(f, piece);
                j = j + 1;
                r
            },
        };
        proof {
            lemma_wrote_then(old(f).sink(), mid, f.sink(), step is Ok, done, this);
        }
        match step {
            Ok(()) => {},
            Err(e) => {
                proof {
                    lemma_wrote_stop(
                        old(f).sink(),
                        f.sink(),
                        done + this,
                        text_between(views, args@, i + 1, views.len() as int),
                    );
                }
                return Err(FormatError::Sink(e));
            },
        }
        i = i + 1;
    }
    Ok(())
}

/// What writing the template `template` with the values `args` into a sink
/// comes to, where the sink was `before` and is `after` and the call
/// returned `r`.
///
/// A template that is not well formed, and values that do not go with it,
/// leave the sink as it was and are reported as such. Else the text that
/// they stand for is written, all of it if the call succeeds and a leading
/// part of it if the sink refuses a write.
pub open spec fn written_as<W: uWrite + ?Sized>(
    template: Seq<char>,
    args: Seq<Argument>,
    before: &W,
    after: &W,
    r: Result<(), FormatError<W::Error>>,
) -> bool {
    match parsed(template) {
        Err(fault) => r matches Err(FormatError::Parse(e)) && e == fault && after == before,
        Ok(pieces) => match rendered(pieces, args) {
            Err(fault) => r matches Err(FormatError::Arguments(e)) && e == fault && after
                == before,
            Ok(text) => (r is Ok || r matches Err(FormatError::Sink(_))) && wrote(
                before,
                after,
                r is Ok,
                text,
            ),
        },
    }
}

/// Writes the template `template` with the values `args` into `writer`.
pub fn uwrite<W: uWrite + ?Sized>(writer: &mut W, template: &str, args: &[Argument]) -> (r: Result<
    (),
    FormatError<W::Error>,
>)
    ensures
        written_as(template@, args@, &*old(writer), &*final(writer), r),
{
    let pieces = match parse(template) {
        Ok(pieces) => pieces,
        Err(e) => {
            return Err(FormatError::Parse(e));
        },
    };
    let mut f = Formatter::new(writer);
    render(&mut f, &pieces, args)
}

/// Writes the template `template` with the values `args` into `writer`,
/// and a line feed behind them. The line feed is the end of the template:
/// a template that ends inside a directive is still not well formed.
pub fn uwriteln<W: uWrite + ?Sized>(writer: &mut W, template: &str, args: &[Argument]) -> (r:
    Result<(), FormatError<W::Error>>)
    ensures
        written_as(template@.push('\n'), args@, &*old(writer), &*final(writer), r),
{
    let mut line = String::new();
    line.append(template);
    proof {
        reveal_strlit("\n");
    }
    line.append("\n");
    assert(line@ =~= template@.push('\n'));
    uwrite(writer, line.as_str(), args)
}

/// The text of the template `template` with the values `args`.
pub fn uformat(template: &str, args: &[Argument]) -> (r: Result<String, FormatError<()>>)
    ensures
        match r {
            Ok(text) => parsed(template@) matches Ok(pieces) && rendered(pieces, args@) == Ok::<
                Seq<char>,
                ArgumentError,
            >(text@),
            Err(FormatError::Parse(e)) => parsed(template@) == Err::<Seq<PieceView>, ParseError>(
                e,
            ),
            Err(FormatError::Arguments(e)) => parsed(template@) matches Ok(pieces) && rendered(
                pieces,
                args@,
            ) == Err::<Seq<char>, ArgumentError>(e),
            Err(FormatError::Sink(_)) => false,
        },
{
    let mut text = String::new();
    match uwrite(&mut text, template, args) {
        Ok(()) => {
            proof {
                let t = rendered(parsed(template@)->Ok_0, args@)->Ok_0;
                assert(Seq::<char>::empty() + t =~= t);
            }
            Ok(text)
        },
        Err(FormatError::Parse(e)) => Err(FormatError::Parse(e)),
        Err(FormatError::Arguments(e)) => Err(FormatError::Arguments(e)),
        Err(FormatError::Sink(e)) => Err(FormatError::Sink(e)),
    }
}

/// What is wrong with a template, in words.
pub open spec fn parse_fault_text(e: ParseError) -> Seq<char> {
    match e {
        ParseError::InvalidFormat => "invalid format string"@,
        ParseError::UnmatchedRightBrace => "format string contains an unmatched right brace"@,
    }
}

/// What is wrong with the values, in words.
pub open spec fn argument_fault_text(e: ArgumentError) -> Seq<char> {
    match e {
        ArgumentError::TooFew { required, supplied } => "format string requires "@ + decimal(
            required as nat,
        ) + " arguments but "@ + decimal(supplied as nat) + (if supplied == 1 {
            " was"@
        } else {
            " were"@
        }) + " supplied"@,
        ArgumentError::Unused { index } => "argument never used"@,
        ArgumentError::Unsupported { index } => "argument does not fit its directive"@,
    }
}

impl ParseError {
    /// What is wrong with the template, in words.
    pub fn message(&self) -> (text: &'static str)
        ensures
            text@ == parse_fault_text(*self),
    {
        match self {
            ParseError::InvalidFormat => "invalid format string",
            ParseError::UnmatchedRightBrace => "format string contains an unmatched right brace",
        }
    }
}

impl ArgumentError {
    /// What is wrong with the values, in words.
    pub fn message(&self) -> (text: String)
        ensures
            text@ == argument_fault_text(*self),
    {
        let mut text = String::new();
        match self {
            ArgumentError::TooFew { required, supplied } => {
                let mut f = Formatter::new(&mut text);
                let a = f.write_str("format string requires ");
                let b = fmt_unsigned(&mut f, *required as u128);
                let c = f.write_str(" arguments but ");
                let d = fmt_unsigned(&mut f, *supplied as u128);
                let e = if *supplied == 1 {
                    f.write_str(" was")
                } else {
                    f.write_str(" were")
                };
                let g = f.write_str(" supplied");
                assert(text@ =~= argument_fault_text(*self));
            },
            ArgumentError::Unused { .. } => {
                text.append("argument never used");
                assert(text@ =~= argument_fault_text(*self));
            },
            ArgumentError::Unsupported { .. } => {
                text.append("argument does not fit its directive");
                assert(text@ =~= argument_fault_text(*self));
            },
        }
        text
    }
}

} // verus!
