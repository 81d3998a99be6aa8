//! Field padding: how a text span is placed in a field of a minimum width.

use vstd::prelude::*;
use vstd::utf8::encode_utf8;

verus! {

/// How a field is padded: the alignment together with the field's minimum
/// width in bytes. A width of zero asks for no padding.
#[derive(PartialEq, Eq, Structural, Clone, Copy, Debug)]
pub enum Padding {
    /// The default direction for the kind of value.
    Usual(usize),
    /// The text first, then the fill.
    LeftAligned(usize),
    /// The fill first, then the text.
    RightAligned(usize),
    /// Fill on both sides; an odd remainder goes behind the text.
    CenterAligned(usize),
}

impl Padding {
    /// The minimum width of the field.
    pub open spec fn width(self) -> nat {
        match self {
            Padding::Usual(w) => w as nat,
            Padding::LeftAligned(w) => w as nat,
            Padding::RightAligned(w) => w as nat,
            Padding::CenterAligned(w) => w as nat,
        }
    }

    /// The minimum width of the field.
    pub fn min_width(self) -> (w: usize)
        ensures
            w == self.width(),
    {
        match self {
            Padding::Usual(w) => w,
            Padding::LeftAligned(w) => w,
            Padding::RightAligned(w) => w,
            Padding::CenterAligned(w) => w,
        }
    }
}

/// The length of a text in bytes, which is what a field width counts.
pub open spec fn text_len(s: Seq<char>) -> nat {
    encode_utf8(s).len()
}

/// The number of fill characters a text of `len` bytes needs in all.
pub open spec fn fill_total(len: nat, padding: Padding) -> nat {
    if padding.width() > len {
        (padding.width() - len) as nat
    } else {
        0
    }
}

/// The number of fill characters in front of a text of `len` bytes.
pub open spec fn fill_before(len: nat, padding: Padding) -> nat {
    match padding {
        Padding::LeftAligned(_) => 0,
        Padding::Usual(_) | Padding::RightAligned(_) => fill_total(len, padding),
        Padding::CenterAligned(_) => fill_total(len, padding) / 2,
    }
}

/// The number of fill characters behind a text of `len` bytes.
pub open spec fn fill_after(len: nat, padding: Padding) -> nat {
    (fill_total(len, padding) - fill_before(len, padding)) as nat
}

/// `n` copies of `c`.
pub open spec fn repeat(c: char, n: nat) -> Seq<char> {
    Seq::new(n, |i: int| c)
}

/// The text `s` placed in its field: fill, text, fill.
pub open spec fn padded(s: Seq<char>, fill: char, padding: Padding) -> Seq<char> {
    repeat(fill, fill_before(text_len(s), padding)) + s + repeat(
        fill,
        fill_after(text_len(s), padding),
    )
}

/// A text at least as long as its field comes out as it is: nothing is added
/// and nothing is cut, whatever the fill and the alignment.
pub proof fn lemma_wide_text_is_unpadded(s: Seq<char>, fill: char, padding: Padding)
    requires
        text_len(s) >= padding.width(),
    ensures
        padded(s, fill, padding) == s,
{
    assert(repeat(fill, 0) =~= Seq::<char>::empty());
    assert(padded(s, fill, padding) =~= s);
}

/// A field of width zero never pads.
pub proof fn lemma_zero_width_is_unpadded(s: Seq<char>, fill: char, padding: Padding)
    requires
        padding.width() == 0,
    ensures
        padded(s, fill, padding) == s,
{
    lemma_wide_text_is_unpadded(s, fill, padding);
}

/// The fill on the two sides adds up to what the field lacks, and centring
/// puts the odd character, if there is one, behind the text.
pub proof fn lemma_fill_split(len: nat, padding: Padding)
    ensures
        fill_before(len, padding) + fill_after(len, padding) == fill_total(len, padding),
        padding is CenterAligned ==> fill_before(len, padding) <= fill_after(len, padding)
            <= fill_before(len, padding) + 1,
        padding is CenterAligned && fill_total(len, padding) % 2 == 1 ==> fill_after(len, padding)
            == fill_before(len, padding) + 1,
        padding is LeftAligned ==> fill_before(len, padding) == 0,
        padding is RightAligned || padding is Usual ==> fill_after(len, padding) == 0,
{
}

/// The length of two texts in a row is the sum of their lengths.
pub proof fn lemma_text_len_adds(a: Seq<char>, b: Seq<char>)
    ensures
        text_len(a + b) == text_len(a) + text_len(b),
    decreases a.len(),
{
    if a.len() == 0 {
        assert(a + b =~= b);
    } else {
        lemma_text_len_adds(a.drop_first(), b);
        assert((a + b).drop_first() =~= a.drop_first() + b);
    }
}

} // verus!
