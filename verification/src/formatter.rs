//! The formatter: a thin layer over a sink that writes strings, single
//! characters and padded fields.

use vstd::prelude::*;
use crate::padding::{fill_after, fill_before, lemma_fill_split, padded, repeat, text_len, Padding};
use crate::sink::{lemma_wrote_nothing, lemma_wrote_stop, lemma_wrote_then, uWrite, wrote};

verus! {

/// A handle on a sink through which formatted text is written.
pub struct Formatter<'w, W: uWrite + ?Sized> {
    /// The sink that takes the text.
    pub writer: &'w mut W,
}

/// `char::encode_utf8`: the returned slice of `buf` holds the UTF-8 encoding
/// of `c`, so as text it is the single character `c`. Four bytes are enough
/// for every character, so the call does not panic.
#[verifier::external_body]
pub(crate) fn encode_char<'a>(c: char, buf: &'a mut [u8; 4]) -> (r: &'a str)
    ensures
        r@ == seq![c],
{
    c.encode_utf8(buf)
}

impl<'w, W: uWrite + ?Sized> Formatter<'w, W> {
    /// The sink behind this formatter, as it is now.
    pub open spec fn sink(&self) -> &W {
        &*self.writer
    }

    /// Creates a formatter over `writer`.
    pub fn new(writer: &'w mut W) -> (f: Self)
        ensures
            f.sink() == &*old(writer),
            &*final(f.writer) == &*final(writer),
    {
        Formatter { writer }
    }

    /// Writes a string slice to the sink.
    pub fn write_str(&mut self, s: &str) -> (r: Result<(), W::Error>)
        ensures
            wrote(old(self).sink(), final(self).sink(), r is Ok, s@),
            &*final(final(self).writer) == &*final(old(self).writer),
    {
        let r = self.writer.write_str(s);
        proof {
            if r is Err && old(self).sink().written() is Some {
                let had = old(self).sink().written()->0;
                assert(s@.subrange(0, 0) =~= Seq::<char>::empty());
                assert(had + s@.subrange(0, 0) =~= had);
            }
        }
        r
    }

    /// Writes a single character to the sink.
    pub fn write_char(&mut self, c: char) -> (r: Result<(), W::Error>)
        ensures
            wrote(old(self).sink(), final(self).sink(), r is Ok, seq![c]),
            &*final(final(self).writer) == &*final(old(self).writer),
    {
        let mut buf = [0u8; 4];
        let s = encode_char(c, &mut buf);
        self.write_str(s)
    }

    /// Writes `n` copies of the one-character chunk `fill`.
    fn write_fill(&mut self, fill: &str, n: usize) -> (r: Result<(), W::Error>)
        requires
            fill@.len() == 1,
        ensures
            wrote(old(self).sink(), final(self).sink(), r is Ok, repeat(fill@[0], n as nat)),
            &*final(final(self).writer) == &*final(old(self).writer),
    {
        let ghost c = fill@[0];
        let mut i: usize = 0;
        proof {
            lemma_wrote_nothing(self.sink());
            assert(repeat(c, 0) =~= Seq::<char>::empty());
        }
        while i < n
            invariant
                i <= n,
                fill@.len() == 1,
                c == fill@[0],
                wrote(old(self).sink(), self.sink(), true, repeat(c, i as nat)),
                &*final(self.writer) == &*final(old(self).writer),
            decreases n - i,
        {
            let ghost mid = self.sink();
            let r = self.write_str(fill);
            proof {
                assert(fill@ =~= seq![c]);
                assert(repeat(c, i as nat) + seq![c] =~= repeat(c, (i + 1) as nat));
                lemma_wrote_then(old(self).sink(), mid, self.sink(), r is Ok, repeat(c, i as nat), fill@);
            }
            match r {
                Ok(()) => {},
                Err(e) => {
                    proof {
                        assert(repeat(c, n as nat) =~= repeat(c, (i + 1) as nat) + repeat(
                            c,
                            (n - i - 1) as nat,
                        ));
                        lemma_wrote_stop(
                            old(self).sink(),
                            self.sink(),
                            repeat(c, (i + 1) as nat),
                            repeat(c, (n - i - 1) as nat),
                        );
                    }
                    return Err(e);
                },
            }
            i = i + 1;
        }
        Ok(())
    }

    /// Writes `s` in a field: the text and as many copies of `pad_char` as
    /// the width of `padding` asks for, placed by its alignment. The width
    /// counts bytes. A text longer than the field is written whole.
    /// `Padding::Usual` is treated as `Padding::RightAligned`.
    pub fn write_padded(&mut self, s: &str, pad_char: char, padding: Padding) -> (r: Result<
        (),
        W::Error,
    >)
        ensures
            wrote(old(self).sink(), final(self).sink(), r is Ok, padded(s@, pad_char, padding)),
            &*final(final(self).writer) == &*final(old(self).writer),
    {
        // Turning a char into a chunk is costly, so it is done once.
        let mut buf = [0u8; 4];
        let pad_c = encode_char(pad_char, &mut buf);
        let len = s.as_bytes().len();
        let width = padding.min_width();
        let total = if width > len {
            width - len
        } else {
            0
        };
        let before = match padding {
            Padding::LeftAligned(_) => 0,
            Padding::Usual(_) | Padding::RightAligned(_) => total,
            Padding::CenterAligned(_) => total / 2,
        };
        let after = total - before;
        let ghost lead = repeat(pad_char, before as nat);
        let ghost trail = repeat(pad_char, after as nat);
        proof {
            lemma_fill_split(text_len(s@), padding);
            assert(before == fill_before(text_len(s@), padding));
            assert(after == fill_after(text_len(s@), padding));
            assert(padded(s@, pad_char, padding) == lead + s@ + trail);
            assert(lead + s@ + trail =~= lead + (s@ + trail));
        }
        let r1 = self.write_fill(pad_c, before);
        let ghost s1 = self.sink();
        match r1 {
            Ok(()) => {},
            Err(e) => {
                proof {
                    lemma_wrote_stop(old(self).sink(), s1, lead, s@ + trail);
                }
                return Err(e);
            },
        }
        let r2 = self.write_str(s);
        let ghost s2 = self.sink();
        proof {
            lemma_wrote_then(old(self).sink(), s1, s2, r2 is Ok, lead, s@);
        }
        match r2 {
            Ok(()) => {},
            Err(e) => {
                proof {
                    lemma_wrote_stop(old(self).sink(), s2, lead + s@, trail);
                }
                return Err(e);
            },
        }
        let r3 = self.write_fill(pad_c, after);
        proof {
            lemma_wrote_then(old(self).sink(), s2, self.sink(), r3 is Ok, lead + s@, trail);
        }
        r3
    }

    /// Writes the character `c` in a field, as `write_padded` writes a
    /// string.
    pub fn write_padded_char(&mut self, c: char, pad_char: char, padding: Padding) -> (r: Result<
        (),
        W::Error,
    >)
        ensures
            wrote(
                old(self).sink(),
                final(self).sink(),
                r is Ok,
                padded(seq![c], pad_char, padding),
            ),
            &*final(final(self).writer) == &*final(old(self).writer),
    {
        let mut buf = [0u8; 4];
        let s = encode_char(c, &mut buf);
        self.write_padded(s, pad_char, padding)
    }
}

/// A formatter is a sink itself: what is written to it goes to its sink.
impl<'w, W: uWrite + ?Sized> uWrite for Formatter<'w, W> {
    type Error = W::Error;

    open spec fn written(&self) -> Option<Seq<char>> {
        self.sink().written()
    }

    open spec fn unfailing(&self) -> bool {
        self.sink().unfailing()
    }

    fn write_str(&mut self, s: &str) -> (r: Result<(), W::Error>)
        ensures
            &*final(final(self).writer) == &*final(old(self).writer),
    {
        self.writer.write_str(s)
    }
}

} // verus!
