//! Format templates: the pieces of a template and the parser that finds
//! them.
//!
//! A template is literal text with directives in braces: `{}`, `{:?}`,
//! `{:#?}` and `{:` *fill* *alignment* `#` *width* *command* *number* `}`,
//! every part of which may be left out. `{{` and `}}` stand for single
//! braces.

use vstd::prelude::*;
use crate::digits::{decimal, decimal_value};
use crate::integer::fmt_unsigned;
use crate::formatter::Formatter;
use crate::formatter::encode_char;
use crate::padding::Padding;

verus! {

/// Where a value stands in its field.
#[derive(Debug, PartialEq, Eq, Structural, Clone, Copy)]
pub enum Alignment {
    /// At the left end (`<`).
    Left,
    /// At the right end (`>`).
    Right,
    /// In the middle (`^`).
    Center,
    /// Where the kind of value usually stands: no alignment was named.
    Usual,
}

/// One piece of a template: literal text or a directive.
#[derive(Debug, PartialEq)]
pub enum Piece {
    /// `{}`: the value as it is.
    Display,
    /// `{:?}` and `{:#?}`: the value in its debug form, on several lines if
    /// the flag is set.
    Debug(bool),
    /// Literal text, with escaped braces resolved.
    Str(String),
    /// `{:.N}`: a number with `behind` decimal places.
    Float { pad_length: usize, pad_char: char, alignment: Alignment, behind: usize },
    /// A directive with a command letter of the value's own.
    Formatted {
        prefix: bool,
        cmd: char,
        pad_length: usize,
        pad_char: char,
        alignment: Alignment,
        behind: usize,
    },
    /// `{:x}` and `{:X}`: a numeral in base sixteen.
    Hex { prefix: bool, cmd: char, pad_length: usize, pad_char: char, alignment: Alignment },
    /// A directive without a command letter: the value in a padded field.
    Padded { pad_length: usize, pad_char: char, alignment: Alignment },
}

/// A piece with its text as a sequence of characters.
pub enum PieceView {
    Display,
    Debug(bool),
    Str(Seq<char>),
    Float { pad_length: usize, pad_char: char, alignment: Alignment, behind: usize },
    Formatted {
        prefix: bool,
        cmd: char,
        pad_length: usize,
        pad_char: char,
        alignment: Alignment,
        behind: usize,
    },
    Hex { prefix: bool, cmd: char, pad_length: usize, pad_char: char, alignment: Alignment },
    Padded { pad_length: usize, pad_char: char, alignment: Alignment },
}

impl View for Piece {
    type V = PieceView;

    open spec fn view(&self) -> PieceView {
        match self {
            Piece::Display => PieceView::Display,
            Piece::Debug(pretty) => PieceView::Debug(*pretty),
            Piece::Str(s) => PieceView::Str(s@),
            Piece::Float { pad_length, pad_char, alignment, behind } => PieceView::Float {
                pad_length: *pad_length,
                pad_char: *pad_char,
                alignment: *alignment,
                behind: *behind,
            },
            Piece::Formatted {
                prefix,
                cmd,
                pad_length,
                pad_char,
                alignment,
                behind,
            } => PieceView::Formatted {
                prefix: *prefix,
                cmd: *cmd,
                pad_length: *pad_length,
                pad_char: *pad_char,
                alignment: *alignment,
                behind: *behind,
            },
            Piece::Hex { prefix, cmd, pad_length, pad_char, alignment } => PieceView::Hex {
                prefix: *prefix,
                cmd: *cmd,
                pad_length: *pad_length,
                pad_char: *pad_char,
                alignment: *alignment,
            },
            Piece::Padded { pad_length, pad_char, alignment } => PieceView::Padded {
                pad_length: *pad_length,
                pad_char: *pad_char,
                alignment: *alignment,
            },
        }
    }
}

impl DeepView for Piece {
    type V = PieceView;

    open spec fn deep_view(&self) -> PieceView {
        self@
    }
}

impl Piece {
    /// Whether the piece is literal text, which takes no argument.
    pub fn is_str(&self) -> (b: bool)
        ensures
            b == (self@ is Str),
    {
        match self {
            Piece::Str(_) => true,
            _ => false,
        }
    }
}

/// Why a template is refused.
#[derive(Debug, PartialEq, Eq, Structural, Clone, Copy)]
pub enum ParseError {
    /// A `{` that opens no directive, or a directive that is not well formed.
    InvalidFormat,
    /// A `}` that closes nothing and is not doubled.
    UnmatchedRightBrace,
}

/// The padding that an alignment and a field width stand for.
pub fn get_alignment(alignment: Alignment, pad_length: usize) -> (p: Padding)
    ensures
        p == padding_of(alignment, pad_length),
{
    match alignment {
        Alignment::Left => Padding::LeftAligned(pad_length),
        Alignment::Right => Padding::RightAligned(pad_length),
        Alignment::Center => Padding::CenterAligned(pad_length),
        Alignment::Usual => Padding::Usual(pad_length),
    }
}

/// The padding that an alignment and a field width stand for.
pub open spec fn padding_of(alignment: Alignment, pad_length: usize) -> Padding {
    match alignment {
        Alignment::Left => Padding::LeftAligned(pad_length),
        Alignment::Right => Padding::RightAligned(pad_length),
        Alignment::Center => Padding::CenterAligned(pad_length),
        Alignment::Usual => Padding::Usual(pad_length),
    }
}

/// The characters of a string.
pub fn to_chars(s: &str) -> (v: Vec<char>)
    ensures
        v@ == s@,
{
    let mut v: Vec<char> = Vec::new();
    for c in it: s.chars()
        invariant
            it.seq() == s@,
            v@ == s@.take(it.index() as int),
    {
        v.push(c);
    }
    assert(v@ =~= s@);
    v
}

/// Appends one character to a string.
pub fn push_char(s: &mut String, c: char)
    ensures
        final(s)@ == old(s)@.push(c),
{
    let mut buf = [0u8; 4];
    let chunk = encode_char(c, &mut buf);
    s.append(chunk);
    assert(old(s)@ + seq![c] =~= old(s)@.push(c));
}

/// The text between `from` and `to` with every `}}` turned into `}`, or
/// nothing if a `}` stands alone there.
pub open spec fn unescape_range(s: Seq<char>, from: int, to: int) -> Option<Seq<char>>
    decreases to - from,
{
    if from >= to {
        Some(Seq::<char>::empty())
    } else if s[from] == '}' {
        if from + 1 < to && s[from + 1] == '}' {
            match unescape_range(s, from + 2, to) {
                Some(rest) => Some(seq!['}'] + rest),
                None => None,
            }
        } else {
            None
        }
    } else {
        match unescape_range(s, from + 1, to) {
            Some(rest) => Some(seq![s[from]] + rest),
            None => None,
        }
    }
}

/// The text `s` with every `}}` turned into `}`, or nothing if a `}` stands
/// alone in it.
pub open spec fn unescaped(s: Seq<char>) -> Option<Seq<char>> {
    unescape_range(s, 0, s.len() as int)
}

/// Appends to `out` the text between `from` and `to` with every `}}` turned
/// into `}`. If a `}` stands alone there, the call fails and `out` holds
/// what came before it.
fn unescape_into(s: &Vec<char>, from: usize, to: usize, out: &mut String) -> (r: Result<
    (),
    ParseError,
>)
    requires
        from <= to <= s@.len(),
    ensures
        r is Ok <==> unescape_range(s@, from as int, to as int) is Some,
        r matches Ok(_) ==> final(out)@ == old(out)@ + unescape_range(
            s@,
            from as int,
            to as int,
        )->0,
        r matches Err(e) ==> e == ParseError::UnmatchedRightBrace,
{
    let mut i = from;
    let ghost mut done = Seq::<char>::empty();
    proof {
        assert(out@ =~= old(out)@ + done);
    }
    while i < to
        invariant
            from <= i <= to <= s@.len(),
            out@ == old(out)@ + done,
            unescape_range(s@, from as int, to as int) == match unescape_range(
                s@,
                i as int,
                to as int,
            ) {
                Some(rest) => Some(done + rest),
                None => None::<Seq<char>>,
            },
        decreases to - i,
    {
        let c = s[i];
        let ghost before = done;
        if c == '}' {
            if i + 1 < to && s[i + 1] == '}' {
                push_char(out, '}');
                proof {
                    done = before.push('}');
                    assert(out@ =~= old(out)@ + done);
                    match unescape_range(s@, i + 2, to as int) {
                        Some(rest) => {
                            assert(before + (seq!['}'] + rest) =~= done + rest);
                        },
                        None => {},
                    }
                }
                i = i + 2;
            } else {
                return Err(ParseError::UnmatchedRightBrace);
            }
        } else {
            push_char(out, c);
            proof {
                done = before.push(c);
                assert(out@ =~= old(out)@ + done);
                match unescape_range(s@, i + 1, to as int) {
                    Some(rest) => {
                        assert(before + (seq![c] + rest) =~= done + rest);
                    },
                    None => {},
                }
            }
            i = i + 1;
        }
    }
    proof {
        assert(done + Seq::<char>::empty() =~= done);
    }
    Ok(())
}

/// Resolves the escaped right braces of a literal: every `}}` becomes `}`.
/// A `}` that stands alone is an error.
pub fn unescape(literal: &str) -> (r: Result<String, ParseError>)
    ensures
        r is Ok <==> unescaped(literal@) is Some,
        r matches Ok(text) ==> text@ == unescaped(literal@)->0,
        r matches Err(e) ==> e == ParseError::UnmatchedRightBrace,
{
    let s = to_chars(literal);
    let mut out = String::new();
    match unescape_into(&s, 0, s.len(), &mut out) {
        Ok(()) => {
            assert(Seq::<char>::empty() + unescaped(literal@)->0 =~= unescaped(literal@)->0);
            Ok(out)
        },
        Err(e) => Err(e),
    }
}

/// Whether `c` is a decimal digit.
pub open spec fn is_digit(c: char) -> bool {
    '0' <= c <= '9'
}

/// Whether `c` is an ASCII letter.
pub open spec fn is_letter(c: char) -> bool {
    ('A' <= c <= 'Z') || ('a' <= c <= 'z')
}

/// Whether `c` names an alignment.
pub open spec fn is_align(c: char) -> bool {
    c == '<' || c == '>' || c == '^'
}

/// The alignment that `c` names.
pub open spec fn align_of(c: char) -> Alignment {
    if c == '<' {
        Alignment::Left
    } else if c == '>' {
        Alignment::Right
    } else if c == '^' {
        Alignment::Center
    } else {
        Alignment::Usual
    }
}

/// The end of the row of digits that starts at `from`: the first place at
/// or behind `from` that holds no digit.
pub open spec fn digits_end(s: Seq<char>, from: int) -> int
    decreases s.len() - from,
{
    if from < 0 || from >= s.len() || !is_digit(s[from]) {
        from
    } else {
        digits_end(s, from + 1)
    }
}

/// The number that the digits between `from` and `to` stand for; no digits
/// stand for zero.
pub open spec fn number(s: Seq<char>, from: int, to: int) -> nat {
    decimal_value(s.subrange(from, to))
}

/// The piece that the parts of a directive make up, if they go together: a
/// point takes at most six decimal places and no prefix, `x` and `X` take no
/// number behind them, and a directive without a command letter takes no
/// prefix.
pub open spec fn piece_of(
    cmd: char,
    prefix: bool,
    pad_length: usize,
    pad_char: char,
    alignment: Alignment,
    behind: usize,
) -> Option<PieceView> {
    if cmd == '.' {
        if behind < 7 && !prefix {
            Some(PieceView::Float { pad_length, pad_char, alignment, behind })
        } else {
            None
        }
    } else if cmd == 'x' || cmd == 'X' {
        if behind == 0 {
            Some(PieceView::Hex { prefix, cmd, pad_length, pad_char, alignment })
        } else {
            None
        }
    } else if cmd == '*' {
        if behind == 0 && !prefix {
            Some(PieceView::Padded { pad_length, pad_char, alignment })
        } else {
            None
        }
    } else {
        Some(PieceView::Formatted { prefix, cmd, pad_length, pad_char, alignment, behind })
    }
}

/// The flags at the head of a directive.
pub struct Flags {
    /// The fill character: `0` if zero fill was asked for, else a blank.
    pub pad_char: char,
    /// The alignment.
    pub alignment: Alignment,
    /// Whether a prefix was asked for.
    pub prefix: bool,
    /// The place behind the flags.
    pub end: int,
}

/// The flags of the directive whose inside starts at `start`: in this order,
/// and each of them optional, `0` for zero fill, an alignment, and `#` for a
/// prefix. The `0` for zero fill may also stand directly behind the `#`.
pub open spec fn flags_at(s: Seq<char>, start: int) -> Flags {
    let zero_end = if start < s.len() && s[start] == '0' {
        start + 1
    } else {
        start
    };
    let align_end = if zero_end < s.len() && is_align(s[zero_end]) {
        zero_end + 1
    } else {
        zero_end
    };
    let prefix = align_end < s.len() && s[align_end] == '#';
    let flags_end = if !prefix {
        align_end
    } else if align_end + 1 < s.len() && s[align_end + 1] == '0' {
        align_end + 2
    } else {
        align_end + 1
    };
    Flags {
        pad_char: if zero_end > start || flags_end > align_end + 1 {
            '0'
        } else {
            ' '
        },
        alignment: if align_end > zero_end {
            align_of(s[zero_end])
        } else {
            Alignment::Usual
        },
        prefix,
        end: flags_end,
    }
}

/// The place behind the command of a directive, where `at` is the place
/// behind its field width: a point or a letter is a command.
pub open spec fn command_end(s: Seq<char>, at: int) -> int {
    if at < s.len() && (s[at] == '.' || is_letter(s[at])) {
        at + 1
    } else {
        at
    }
}

/// The directive whose inside starts at `start`, behind `{:`, and the place
/// behind its closing brace. Behind the flags a directive holds, each of
/// them optional: the field width, a command (a point or a letter), and a
/// number. A directive without a command has the command `*`.
pub open spec fn directive_at(s: Seq<char>, start: int) -> Result<(PieceView, int), ParseError> {
    let flags = flags_at(s, start);
    let width_end = digits_end(s, flags.end);
    let pad_length = number(s, flags.end, width_end);
    let cmd_end = command_end(s, width_end);
    let cmd = if cmd_end > width_end {
        s[width_end]
    } else {
        '*'
    };
    let close = digits_end(s, cmd_end);
    let behind = number(s, cmd_end, close);
    if close >= s.len() || s[close] != '}' || pad_length > usize::MAX || behind > usize::MAX {
        Err(ParseError::InvalidFormat)
    } else {
        match piece_of(
            cmd,
            flags.prefix,
            pad_length as usize,
            flags.pad_char,
            flags.alignment,
            behind as usize,
        ) {
            Some(piece) => Ok((piece, close + 1)),
            None => Err(ParseError::InvalidFormat),
        }
    }
}

/// A row of digits ends at or behind its start and inside the text.
pub proof fn lemma_digits_end(s: Seq<char>, from: int)
    requires
        0 <= from <= s.len(),
    ensures
        from <= digits_end(s, from) <= s.len(),
        forall|k: int| from <= k < digits_end(s, from) ==> is_digit(#[trigger] s[k]),
        digits_end(s, from) < s.len() ==> !is_digit(s[digits_end(s, from)]),
    decreases s.len() - from,
{
    if from < s.len() && is_digit(s[from]) {
        lemma_digits_end(s, from + 1);
    }
}

/// A directive that is well formed ends behind its start.
pub proof fn lemma_directive_advances(s: Seq<char>, start: int)
    requires
        0 <= start <= s.len(),
    ensures
        directive_at(s, start) matches Ok((_, after)) ==> start < after <= s.len(),
{
    let flags = flags_at(s, start);
    lemma_digits_end(s, flags.end);
    let width_end = digits_end(s, flags.end);
    lemma_digits_end(s, command_end(s, width_end));
}

/// Reads the row of digits that starts at `from`: where it ends, and the
/// number it stands for if that number can be held.
fn parse_number(s: &Vec<char>, from: usize) -> (r: (Option<usize>, usize))
    requires
        from <= s@.len(),
    ensures
        r.1 == digits_end(s@, from as int),
        from <= r.1 <= s@.len(),
        r.0 is Some <==> number(s@, from as int, r.1 as int) <= usize::MAX,
        r.0 matches Some(v) ==> v == number(s@, from as int, r.1 as int),
{
    let mut i = from;
    let mut value: Option<usize> = Some(0);
    proof {
        assert(s@.subrange(from as int, i as int) =~= Seq::<char>::empty());
    }
    while i < s.len() && '0' <= s[i] && s[i] <= '9'
        invariant
            from <= i <= s@.len(),
            digits_end(s@, from as int) == digits_end(s@, i as int),
            value is Some <==> number(s@, from as int, i as int) <= usize::MAX,
            value matches Some(v) ==> v == number(s@, from as int, i as int),
        decreases s@.len() - i,
    {
        let c = s[i];
        let d = (c as u32 - '0' as u32) as usize;
        proof {
            let longer = s@.subrange(from as int, i + 1);
            assert(longer.drop_last() =~= s@.subrange(from as int, i as int));
            assert(longer.last() == c);
            assert(number(s@, from as int, i + 1) == number(s@, from as int, i as int) * 10 + d);
        }
        value = match value {
            Some(v) => if v <= (usize::MAX - d) / 10 {
                Some(v * 10 + d)
            } else {
                None
            },
            None => None,
        };
        i = i + 1;
    }
    (value, i)
}

/// Reads the flags of the directive whose inside starts at `start`: the
/// fill character, the alignment, the prefix flag, and the place behind
/// them.
fn parse_flags(s: &Vec<char>, start: usize) -> (r: (char, Alignment, bool, usize))
    requires
        start <= s@.len(),
    ensures
        flags_at(s@, start as int) == (Flags {
            pad_char: r.0,
            alignment: r.1,
            prefix: r.2,
            end: r.3 as int,
        }),
        start <= r.3 <= s@.len(),
{
    let len = s.len();
    let mut p = start;
    let mut pad_char = ' ';
    if p < len && s[p] == '0' {
        pad_char = '0';
        p = p + 1;
    }
    let mut alignment = Alignment::Usual;
    if p < len {
        let c = s[p];
        if c == '<' {
            alignment = Alignment::Left;
            p = p + 1;
        } else if c == '>' {
            alignment = Alignment::Right;
            p = p + 1;
        } else if c == '^' {
            alignment = Alignment::Center;
            p = p + 1;
        }
    }
    let mut prefix = false;
    if p < len && s[p] == '#' {
        prefix = true;
        p = p + 1;
        if p < len && s[p] == '0' {
            pad_char = '0';
            p = p + 1;
        }
    }
    (pad_char, alignment, prefix, p)
}

/// Reads the command at `at`, if there is one: the command, `*` standing
/// for none, and the place behind it.
fn parse_command(s: &Vec<char>, at: usize) -> (r: (char, usize))
    requires
        at <= s@.len(),
    ensures
        r.1 == command_end(s@, at as int),
        r.0 == if r.1 > at {
            s@[at as int]
        } else {
            '*'
        },
        at <= r.1 <= s@.len(),
{
    if at < s.len() {
        let c = s[at];
        if c == '.' || ('A' <= c && c <= 'Z') || ('a' <= c && c <= 'z') {
            return (c, at + 1);
        }
    }
    ('*', at)
}

/// Puts the parts of a directive together, if they go together.
fn make_piece(
    cmd: char,
    prefix: bool,
    pad_length: usize,
    pad_char: char,
    alignment: Alignment,
    behind: usize,
) -> (r: Option<Piece>)
    ensures
        match r {
            Some(piece) => piece_of(cmd, prefix, pad_length, pad_char, alignment, behind) == Some(
                piece@,
            ),
            None => piece_of(cmd, prefix, pad_length, pad_char, alignment, behind) is None,
        },
{
    if cmd == '.' {
        if behind < 7 && !prefix {
            Some(Piece::Float { pad_length, pad_char, alignment, behind })
        } else {
            None
        }
    } else if cmd == 'x' || cmd == 'X' {
        if behind == 0 {
            Some(Piece::Hex { prefix, cmd, pad_length, pad_char, alignment })
        } else {
            None
        }
    } else if cmd == '*' {
        if behind == 0 && !prefix {
            Some(Piece::Padded { pad_length, pad_char, alignment })
        } else {
            None
        }
    } else {
        Some(Piece::Formatted { prefix, cmd, pad_length, pad_char, alignment, behind })
    }
}

/// Reads the directive whose inside starts at `start`, behind `{:`. Gives
/// the piece and the place behind the closing brace.
fn parse_colon(s: &Vec<char>, start: usize) -> (r: Result<(Piece, usize), ParseError>)
    requires
        start <= s@.len(),
    ensures
        match r {
            Ok((piece, after)) => directive_at(s@, start as int) == Ok::<
                (PieceView, int),
                ParseError,
            >((piece@, after as int)),
            Err(e) => directive_at(s@, start as int) == Err::<(PieceView, int), ParseError>(e),
        },
{
    let (pad_char, alignment, prefix, flags_end) = parse_flags(s, start);
    let (width, width_end) = parse_number(s, flags_end);
    let (cmd, cmd_end) = parse_command(s, width_end);
    let (number_behind, close) = parse_number(s, cmd_end);
    if close >= s.len() || s[close] != '}' {
        return Err(ParseError::InvalidFormat);
    }
    let (pad_length, behind) = match (width, number_behind) {
        (Some(w), Some(b)) => (w, b),
        _ => {
            return Err(ParseError::InvalidFormat);
        },
    };
    match make_piece(cmd, prefix, pad_length, pad_char, alignment, behind) {
        Some(piece) => Ok((piece, close + 1)),
        None => Err(ParseError::InvalidFormat),
    }
}

/// The first place at or behind `from` that holds `c`, or the end of the
/// text if there is none.
pub open spec fn first_at(s: Seq<char>, c: char, from: int) -> int
    decreases s.len() - from,
{
    if from < 0 || from >= s.len() || s[from] == c {
        from
    } else {
        first_at(s, c, from + 1)
    }
}

/// The first `c` at or behind `from` lies between `from` and the end, and
/// no `c` stands before it.
pub proof fn lemma_first_at(s: Seq<char>, c: char, from: int)
    requires
        0 <= from <= s.len(),
    ensures
        from <= first_at(s, c, from) <= s.len(),
        first_at(s, c, from) < s.len() ==> s[first_at(s, c, from)] == c,
        forall|k: int| from <= k < first_at(s, c, from) ==> #[trigger] s[k] != c,
    decreases s.len() - from,
{
    if from < s.len() && s[from] != c {
        lemma_first_at(s, c, from + 1);
    }
}

/// The piece for a literal text; an empty text makes no piece.
pub open spec fn text_piece(t: Seq<char>) -> Seq<PieceView> {
    if t.len() == 0 {
        Seq::<PieceView>::empty()
    } else {
        seq![PieceView::Str(t)]
    }
}

/// The pieces `front` followed by the pieces of the rest of the template,
/// if the rest is well formed.
pub open spec fn followed_by(front: Seq<PieceView>, rest: Result<Seq<PieceView>, ParseError>) -> Result<
    Seq<PieceView>,
    ParseError,
> {
    match rest {
        Ok(pieces) => Ok(front + pieces),
        Err(e) => Err(e),
    }
}

/// The debug directive whose colon stands at `colon`, if there is one
/// (`:?}` or `:#?}`): its flag and the place behind its closing brace.
pub open spec fn debug_at(s: Seq<char>, colon: int) -> Option<(bool, int)> {
    if colon + 2 < s.len() && s[colon + 1] == '?' && s[colon + 2] == '}' {
        Some((false, colon + 3))
    } else if colon + 3 < s.len() && s[colon + 1] == '#' && s[colon + 2] == '?' && s[colon + 3]
        == '}' {
        Some((true, colon + 4))
    } else {
        None
    }
}

/// The directive whose colon stands at `colon`, and the place behind its
/// closing brace.
pub open spec fn colon_at(s: Seq<char>, colon: int) -> Result<(PieceView, int), ParseError> {
    match debug_at(s, colon) {
        Some((pretty, after)) => Ok((PieceView::Debug(pretty), after)),
        None => directive_at(s, colon + 1),
    }
}

/// The pieces of the template from `pos` on, where `buf` is literal text
/// that was read before `pos` and belongs to no piece yet.
///
/// Up to the next `{` the template is literal text. A `{` is followed by a
/// second `{`, and the two stand for one brace in the text; or by `}`, which
/// makes `{}`; or by `:`, which opens a directive. Literal text is one piece
/// from one directive to the next.
pub open spec fn parse_from(s: Seq<char>, pos: int, buf: Seq<char>) -> Result<
    Seq<PieceView>,
    ParseError,
>
    decreases s.len() - pos,
{
    if pos < 0 || pos > s.len() {
        Err(ParseError::InvalidFormat)
    } else {
        let open = first_at(s, '{', pos);
        let next = open + 1;
        proof {
            lemma_first_at(s, '{', pos);
        }
        if open >= s.len() {
            match unescape_range(s, pos, s.len() as int) {
                None => Err(ParseError::UnmatchedRightBrace),
                Some(text) => Ok(text_piece(buf + text)),
            }
        } else if next >= s.len() || !(s[next] == '{' || s[next] == '}' || s[next] == ':') {
            Err(ParseError::InvalidFormat)
        } else {
            match unescape_range(s, pos, open) {
                None => Err(ParseError::UnmatchedRightBrace),
                Some(text) => {
                    if s[next] == '{' {
                        parse_from(s, next + 1, buf + text + seq!['{'])
                    } else if s[next] == '}' {
                        followed_by(
                            text_piece(buf + text).push(PieceView::Display),
                            parse_from(s, next + 1, Seq::<char>::empty()),
                        )
                    } else {
                        match colon_at(s, next) {
                            Err(e) => Err(e),
                            Ok((piece, after)) => {
                                proof {
                                    lemma_directive_advances(s, next + 1);
                                }
                                followed_by(
                                    text_piece(buf + text).push(piece),
                                    parse_from(s, after, Seq::<char>::empty()),
                                )
                            },
                        }
                    }
                },
            }
        }
    }
}

/// The pieces of a template.
pub open spec fn parsed(s: Seq<char>) -> Result<Seq<PieceView>, ParseError> {
    parse_from(s, 0, Seq::<char>::empty())
}

/// Finds the first `c` at or behind `from`.
fn find(s: &Vec<char>, c: char, from: usize) -> (at: usize)
    requires
        from <= s@.len(),
    ensures
        at == first_at(s@, c, from as int),
        from <= at <= s@.len(),
{
    let mut i = from;
    while i < s.len() && s[i] != c
        invariant
            from <= i <= s@.len(),
            first_at(s@, c, from as int) == first_at(s@, c, i as int),
        decreases s@.len() - i,
    {
        i = i + 1;
    }
    i
}

/// Ends the literal text in `buf`: if there is any, it becomes a piece.
fn flush(pieces: &mut Vec<Piece>, buf: String)
    ensures
        final(pieces).deep_view() == old(pieces).deep_view() + text_piece(buf@),
{
    if !buf.as_str().is_empty() {
        pieces.push(Piece::Str(buf));
    }
    assert(pieces.deep_view() =~= old(pieces).deep_view() + text_piece(buf@));
}

/// Adds a piece.
fn push_piece(pieces: &mut Vec<Piece>, piece: Piece)
    ensures
        final(pieces).deep_view() == old(pieces).deep_view().push(piece@),
{
    pieces.push(piece);
    assert(pieces.deep_view() =~= old(pieces).deep_view().push(piece@));
}

/// Reads the directive whose colon stands at `colon`.
fn parse_directive(s: &Vec<char>, colon: usize) -> (r: Result<(Piece, usize), ParseError>)
    requires
        colon < s@.len(),
    ensures
        match r {
            Ok((piece, after)) => colon_at(s@, colon as int) == Ok::<(PieceView, int), ParseError>(
                (piece@, after as int),
            ) && colon < after <= s@.len(),
            Err(e) => colon_at(s@, colon as int) == Err::<(PieceView, int), ParseError>(e),
        },
{
    let len = s.len();
    proof {
        lemma_directive_advances(s@, colon + 1);
    }
    if len - colon > 2 && s[colon + 1] == '?' && s[colon + 2] == '}' {
        Ok((Piece::Debug(false), colon + 3))
    } else if len - colon > 3 && s[colon + 1] == '#' && s[colon + 2] == '?' && s[colon + 3]
        == '}' {
        Ok((Piece::Debug(true), colon + 4))
    } else {
        parse_colon(s, colon + 1)
    }
}

/// Splits a template into its pieces.
///
/// The call fails with `UnmatchedRightBrace` on a `}` that stands alone in
/// literal text, and with `InvalidFormat` on a `{` that opens nothing and on
/// a directive that is not well formed.
pub fn parse(literal: &str) -> (r: Result<Vec<Piece>, ParseError>)
    ensures
        match r {
            Ok(pieces) => parsed(literal@) == Ok::<Seq<PieceView>, ParseError>(
                pieces.deep_view(),
            ),
            Err(e) => parsed(literal@) == Err::<Seq<PieceView>, ParseError>(e),
        },
{
    let s = to_chars(literal);
    let len = s.len();
    let mut pieces: Vec<Piece> = Vec::new();
    let mut buf = String::new();
    let mut pos: usize = 0;
    proof {
        assert(pieces.deep_view() =~= Seq::<PieceView>::empty());
        match parse_from(s@, 0, Seq::<char>::empty()) {
            Ok(rest) => {
                assert(Seq::<PieceView>::empty() + rest =~= rest);
            },
            Err(_) => {},
        }
    }
    loop
        invariant
            s@ == literal@,
            len == s@.len(),
            pos <= len,
            parsed(s@) == followed_by(pieces.deep_view(), parse_from(s@, pos as int, buf@)),
        decreases len - pos,
    {
        let ghost front = pieces.deep_view();
        let ghost held = buf@;
        let open = find(&s, '{', pos);
        if open >= len {
            match unescape_into(&s, pos, len, &mut buf) {
                Ok(()) => {},
                Err(e) => {
                    return Err(e);
                },
            }
            flush(&mut pieces, buf);
            return Ok(pieces);
        }
        let next = open + 1;
        if next >= len {
            return Err(ParseError::InvalidFormat);
        }
        let c = s[next];
        if !(c == '{' || c == '}' || c == ':') {
            return Err(ParseError::InvalidFormat);
        }
        match unescape_into(&s, pos, open, &mut buf) {
            Ok(()) => {},
            Err(e) => {
                return Err(e);
            },
        }
        let ghost text = unescape_range(s@, pos as int, open as int)->0;
        if c == '{' {
            push_char(&mut buf, '{');
            proof {
                assert(buf@ =~= held + text + seq!['{']);
            }
            pos = next + 1;
        } else {
            flush(&mut pieces, buf);
            buf = String::new();
            let ghost literal_piece = text_piece(held + text);
            let ghost flushed = pieces.deep_view();
            let after = if c == '}' {
                push_piece(&mut pieces, Piece::Display);
                next + 1
            } else {
                match parse_directive(&s, next) {
                    Ok((piece, after)) => {
                        push_piece(&mut pieces, piece);
                        after
                    },
                    Err(e) => {
                        return Err(e);
                    },
                }
            };
            proof {
                let last = pieces.deep_view().last();
                let added = literal_piece.push(last);
                assert(flushed == front + literal_piece);
                assert(pieces.deep_view() == flushed.push(last));
                assert(pieces.deep_view() =~= front + added);
                if c == '}' {
                    assert(last == PieceView::Display);
                } else {
                    assert(colon_at(s@, next as int) == Ok::<(PieceView, int), ParseError>(
                        (last, after as int),
                    ));
                }
                assert(parse_from(s@, pos as int, held) == followed_by(
                    added,
                    parse_from(s@, after as int, Seq::<char>::empty()),
                ));
                match parse_from(s@, after as int, Seq::<char>::empty()) {
                    Ok(rest) => {
                        assert(front + (added + rest) =~= (front + added) + rest);
                    },
                    Err(_) => {},
                }
            }
            pos = after;
        }
    }
}

/// The name under which the value at `i` is known where a template is
/// turned into code: two underscores and the number.
pub open spec fn ident_text(i: usize) -> Seq<char> {
    seq!['_', '_'] + decimal(i as nat)
}

/// The name under which the value at `i` is known where a template is
/// turned into code.
pub fn ident_name(i: usize) -> (name: String)
    ensures
        name@ == ident_text(i),
{
    let mut name = String::new();
    proof {
        reveal_strlit("__");
        assert("__"@ =~= seq!['_', '_']);
    }
    name.append("__");
    let mut f = Formatter::new(&mut name);
    let r = fmt_unsigned(&mut f, i as u128);
    name
}

} // verus!
