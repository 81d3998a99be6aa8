//! The conversion buffer: a fixed-capacity byte buffer that is filled from
//! the right, one character at a time, and read as text.

use vstd::prelude::*;
use vstd::slice::slice_subrange;
use vstd::utf8::{
    decode_utf8, encode_utf8, encode_utf8_decode_utf8, encode_utf8_valid_utf8, is_ascii_chars,
    is_ascii_chars_encode_utf8, valid_utf8,
};
use crate::digits::{
    decimal, digit_char, digits, drop_digits, fixed_decimal, lemma_digits_shape,
    lemma_fixed_decimal_next, lemma_fixed_decimal_shape, lemma_quotient_is_smaller,
    signed_decimal,
};
use crate::padding::repeat;

verus! {

/// Converts numbers to text in a buffer of `CAP` bytes.
///
/// The buffer is written right to left: the text it holds is the part from
/// the cursor to the end, and each new character goes in front of it. What
/// lies before the cursor holds the fill byte that the buffer was made with.
pub struct Convert<const CAP: usize> {
    buf: [u8; CAP],
    idx: usize,
    fill: u8,
}

/// The byte of the character `0`.
pub const ZERO: u8 = 48;

/// The byte of the character `-`.
pub const MINUS: u8 = 45;

/// The byte of the character `.`.
pub const POINT: u8 = 46;

/// The byte of a blank.
pub const BLANK: u8 = 32;

/// The byte of the letter `A`.
pub const UPPER_A: u8 = 65;

/// The byte of the letter `a`.
pub const LOWER_A: u8 = 97;

/// What is left of `s` in a buffer of `cap` characters that is filled from
/// the right: all of it if it fits, else its last `cap` characters.
pub open spec fn keep_right(s: Seq<char>, cap: nat) -> Seq<char> {
    if s.len() <= cap {
        s
    } else {
        s.subrange(s.len() - cap, s.len() as int)
    }
}

/// `s` moved to the right end of a field of `width` characters by `fill`
/// characters in front; a longer `s` is left as it is.
pub open spec fn right_aligned(s: Seq<char>, fill: char, width: nat) -> Seq<char> {
    repeat(
        fill,
        if width > s.len() {
            (width - s.len()) as nat
        } else {
            0
        },
    ) + s
}

/// `core::str::from_utf8`: succeeds exactly on well-formed UTF-8, and the
/// string it returns is the text that the bytes encode.
#[verifier::external_body]
fn str_from_utf8(bytes: &[u8]) -> (r: Option<&str>)
    ensures
        r is Some <==> valid_utf8(bytes@),
        r matches Some(s) ==> s@ == decode_utf8(bytes@),
{
    match core::str::from_utf8(bytes) {
        Ok(s) => Some(s),
        Err(_) => None,
    }
}

/// The text of a number given as its whole part, the digits of its fraction
/// and its sign: `-` if negative, the whole part, and, where `places` is not
/// zero, a point and the last `places` digits of `right`.
pub open spec fn point_text(left: nat, right: nat, places: nat, is_neg: bool) -> Seq<char> {
    (if is_neg {
        seq!['-']
    } else {
        Seq::<char>::empty()
    }) + decimal(left) + (if places > 0 {
        seq!['.'] + fixed_decimal(right, places)
    } else {
        Seq::<char>::empty()
    })
}

/// A text that keeps only its tail once the buffer is full is not changed by
/// more text in front.
pub proof fn lemma_keep_right_full(a: Seq<char>, s: Seq<char>, cap: nat)
    requires
        s.len() >= cap,
    ensures
        keep_right(a + s, cap) == keep_right(s, cap),
{
    assert(keep_right(a + s, cap) =~= keep_right(s, cap));
}

impl<const CAP: usize> View for Convert<CAP> {
    type V = Seq<char>;

    /// The text in the buffer.
    closed spec fn view(&self) -> Seq<char> {
        Seq::new((CAP - self.idx) as nat, |i: int| self.buf@[self.idx + i] as char)
    }
}

impl<const CAP: usize> Convert<CAP> {
    #[verifier::type_invariant]
    spec fn well_formed(&self) -> bool {
        &&& self.idx <= CAP
        &&& self.fill < 128
        &&& forall|i: int| 0 <= i < CAP ==> self.buf@[i] < 128
        &&& forall|i: int| 0 <= i < self.idx ==> self.buf@[i] == self.fill
    }

    /// The character that the unused part of the buffer holds.
    pub closed spec fn fill(&self) -> char {
        self.fill as char
    }

    /// The text in a buffer is ASCII and no longer than the buffer.
    proof fn lemma_text_shape(&self)
        requires
            self.well_formed(),
        ensures
            self@.len() <= CAP,
            is_ascii_chars(self@),
    {
    }

    /// An empty buffer whose unused part holds `fill`, which has to be ASCII.
    pub fn new(fill: u8) -> (r: Result<Self, ()>)
        ensures
            r is Ok <==> fill < 128,
            r matches Ok(c) ==> c@ == Seq::<char>::empty() && c.fill() == fill as char,
    {
        if fill >= 128 {
            return Err(());
        }
        let buf = [fill;CAP];
        proof {
            vstd::array::axiom_spec_array_fill_for_copy_type::<u8, CAP>(fill);
            assert(forall|i: int| 0 <= i < CAP ==> buf@[i] == fill);
        }
        let c = Convert { buf, idx: CAP, fill };
        assert(c@ =~= Seq::<char>::empty());
        Ok(c)
    }

    /// The text in the buffer.
    pub fn as_str(&self) -> (r: &str)
        ensures
            r@ == self@,
            is_ascii_chars(r@),
            r@.len() <= CAP,
    {
        proof {
            use_type_invariant(self);
        }
        let bytes = slice_subrange(self.buf.as_slice(), self.idx, CAP);
        proof {
            is_ascii_chars_encode_utf8(self@);
            assert(encode_utf8(self@) =~= bytes@);
            encode_utf8_valid_utf8(self@);
        }
        let r = str_from_utf8(bytes).unwrap();
        proof {
            encode_utf8_decode_utf8(self@);
        }
        r
    }

    /// The length of the text in the buffer.
    pub fn len(&self) -> (n: usize)
        ensures
            n == self@.len(),
            n <= CAP,
    {
        proof {
            use_type_invariant(self);
        }
        CAP - self.idx
    }

    /// Puts one ASCII character in front of the text.
    pub(crate) fn write_char(&mut self, c: u8) -> (r: Result<(), ()>)
        requires
            c < 128,
        ensures
            r is Ok <==> old(self)@.len() < CAP,
            r is Ok ==> final(self)@ == seq![c as char] + old(self)@,
            r is Err ==> final(self)@ == old(self)@,
            final(self).fill() == old(self).fill(),
    {
        proof {
            use_type_invariant(&*self);
        }
        if self.idx > 0 {
            self.idx -= 1;
            self.buf[self.idx] = c;
            assert(self@ =~= seq![c as char] + old(self)@);
            Ok(())
        } else {
            Err(())
        }
    }

    /// Puts the decimal numeral of `u` in front of the text. Where the buffer
    /// is too small, the digits that fit are written, from the right, and the
    /// call fails.
    pub fn u32(&mut self, u: u32) -> (r: Result<(), ()>)
        ensures
            r is Ok <==> decimal(u as nat).len() + old(self)@.len() <= CAP,
            final(self)@ == keep_right(decimal(u as nat) + old(self)@, CAP as nat),
            final(self).fill() == old(self).fill(),
    {
        let mut n = u;
        let ghost mut low = Seq::<char>::empty();
        proof {
            assert(self@ =~= low + old(self)@);
            assert(decimal(u as nat) =~= decimal(n as nat) + low);
        }
        loop
            invariant_except_break
                decimal(u as nat) == decimal(n as nat) + low,
            invariant
                self@ == low + old(self)@,
                self.fill() == old(self).fill(),
            ensures
                decimal(u as nat) == low,
            decreases n,
        {
            let d = (n % 10) as u8 + ZERO;
            let ghost before = low;
            proof {
                use_type_invariant(&*self);
                self.lemma_text_shape();
                lemma_digits_shape(n as nat, 10, false);
            }
            match self.write_char(d) {
                Ok(()) => {},
                Err(_) => {
                    proof {
                        assert(keep_right(decimal(u as nat) + old(self)@, CAP as nat) =~= low
                            + old(self)@);
                    }
                    return Err(());
                },
            }
            proof {
                low = seq![d as char] + before;
                assert(d as char == digit_char((n % 10) as int, false));
                assert(self@ =~= low + old(self)@);
                if n >= 10 {
                    assert(decimal(u as nat) =~= decimal((n / 10) as nat) + low);
                } else {
                    assert(decimal(u as nat) =~= low);
                }
            }
            n = n / 10;
            if n == 0 {
                break;
            }
        }
        proof {
            use_type_invariant(&*self);
            self.lemma_text_shape();
        }
        Ok(())
    }

    /// Puts the decimal numeral of `i` in front of the text, with its sign if
    /// it is negative. Where the buffer is too small, what fits is written,
    /// from the right, and the call fails.
    pub fn i32(&mut self, i: i32) -> (r: Result<(), ()>)
        ensures
            r is Ok <==> signed_decimal(i as int).len() + old(self)@.len() <= CAP,
            final(self)@ == keep_right(signed_decimal(i as int) + old(self)@, CAP as nat),
            final(self).fill() == old(self).fill(),
    {
        let negative = i < 0;
        // The least value has no positive counterpart of its own width.
        let u: u32 = if negative {
            if i == i32::MIN {
                u32::MAX / 2 + 1
            } else {
                (-i) as u32
            }
        } else {
            i as u32
        };
        let ghost num = decimal(u as nat);
        proof {
            if negative {
                assert(signed_decimal(i as int) + old(self)@ =~= seq!['-'] + (num + old(self)@));
            }
        }
        match self.u32(u) {
            Ok(()) => {},
            Err(_) => {
                proof {
                    if negative {
                        lemma_keep_right_full(seq!['-'], num + old(self)@, CAP as nat);
                    }
                }
                return Err(());
            },
        }
        if negative {
            match self.write_char(MINUS) {
                Ok(()) => {
                    proof {
                        use_type_invariant(&*self);
                        self.lemma_text_shape();
                    }
                },
                Err(_) => {
                    proof {
                        lemma_keep_right_full(seq!['-'], num + old(self)@, CAP as nat);
                    }
                    return Err(());
                },
            }
        }
        Ok(())
    }

    /// Moves the cursor back to `next_idx`, which adds to the text the fill
    /// bytes that lie between. A cursor that is already there or further
    /// stays where it is.
    fn widen_to(&mut self, next_idx: usize)
        ensures
            final(self).idx == if old(self).idx > next_idx {
                next_idx
            } else {
                old(self).idx
            },
            final(self).buf == old(self).buf,
            final(self).fill == old(self).fill,
    {
        proof {
            use_type_invariant(&*self);
        }
        if self.idx > next_idx {
            self.idx = next_idx;
        }
    }

    /// Puts the decimal numeral of `u` in front of the text, in a field of
    /// `len` characters: the fill stands in front of the digits. A numeral
    /// longer than the field is written whole. A field that does not fit in
    /// the buffer is refused before anything is written.
    pub fn u32_pad(&mut self, u: u32, len: usize) -> (r: Result<(), ()>)
        ensures
            r is Ok <==> len + old(self)@.len() <= CAP && decimal(u as nat).len() + old(
                self,
            )@.len() <= CAP,
            r is Ok ==> final(self)@ == right_aligned(
                decimal(u as nat),
                old(self).fill(),
                len as nat,
            ) + old(self)@,
            r is Err ==> final(self)@ == if len + old(self)@.len() > CAP {
                old(self)@
            } else {
                keep_right(decimal(u as nat) + old(self)@, CAP as nat)
            },
            final(self).fill() == old(self).fill(),
    {
        let held = self.len();
        if len > CAP - held {
            return Err(());
        }
        match self.u32(u) {
            Ok(()) => {},
            Err(_) => {
                return Err(());
            },
        }
        self.fill_up(held + len);
        proof {
            let text = decimal(u as nat);
            assert(right_aligned(text + old(self)@, old(self).fill(), (held + len) as nat)
                =~= right_aligned(text, old(self).fill(), len as nat) + old(self)@);
        }
        Ok(())
    }

    /// Puts the decimal numeral of `i`, sign included, in front of the text,
    /// in a field of `len` characters: the fill stands in front of the
    /// numeral. A numeral longer than the field is written whole. A field
    /// that does not fit in the buffer is refused before anything is written.
    pub fn i32_pad(&mut self, i: i32, len: usize) -> (r: Result<(), ()>)
        ensures
            r is Ok <==> len + old(self)@.len() <= CAP && signed_decimal(i as int).len() + old(
                self,
            )@.len() <= CAP,
            r is Ok ==> final(self)@ == right_aligned(
                signed_decimal(i as int),
                old(self).fill(),
                len as nat,
            ) + old(self)@,
            r is Err ==> final(self)@ == if len + old(self)@.len() > CAP {
                old(self)@
            } else {
                keep_right(signed_decimal(i as int) + old(self)@, CAP as nat)
            },
            final(self).fill() == old(self).fill(),
    {
        let held = self.len();
        if len > CAP - held {
            return Err(());
        }
        match self.i32(i) {
            Ok(()) => {},
            Err(_) => {
                return Err(());
            },
        }
        self.fill_up(held + len);
        proof {
            let text = signed_decimal(i as int);
            assert(right_aligned(text + old(self)@, old(self).fill(), (held + len) as nat)
                =~= right_aligned(text, old(self).fill(), len as nat) + old(self)@);
        }
        Ok(())
    }

    /// The decimal numeral of `u` in a fresh buffer, whose unused part holds
    /// blanks.
    pub fn from_u32(u: u32) -> (r: Result<Self, ()>)
        ensures
            r is Ok <==> decimal(u as nat).len() <= CAP,
            r matches Ok(c) ==> c@ == decimal(u as nat) && c.fill() == ' ',
    {
        let mut fbuf = Convert::new(BLANK).unwrap();
        match fbuf.u32(u) {
            Ok(()) => {
                assert(decimal(u as nat) + Seq::<char>::empty() =~= decimal(u as nat));
                Ok(fbuf)
            },
            Err(_) => Err(()),
        }
    }

    /// The decimal numeral of `i`, sign included, in a fresh buffer, whose
    /// unused part holds blanks.
    pub fn from_i32(i: i32) -> (r: Result<Self, ()>)
        ensures
            r is Ok <==> signed_decimal(i as int).len() <= CAP,
            r matches Ok(c) ==> c@ == signed_decimal(i as int) && c.fill() == ' ',
    {
        let mut fbuf = Convert::new(BLANK).unwrap();
        match fbuf.i32(i) {
            Ok(()) => {
                assert(signed_decimal(i as int) + Seq::<char>::empty() =~= signed_decimal(
                    i as int,
                ));
                Ok(fbuf)
            },
            Err(_) => Err(()),
        }
    }

    /// Puts the ASCII text `s` in front of the text. Where the buffer is too
    /// small, the end of `s` that fits is written and the call fails.
    pub(crate) fn write_str(&mut self, s: &str) -> (r: Result<(), ()>)
        requires
            is_ascii_chars(s@),
        ensures
            r is Ok <==> s@.len() + old(self)@.len() <= CAP,
            final(self)@ == keep_right(s@ + old(self)@, CAP as nat),
            final(self).fill() == old(self).fill(),
    {
        let bytes = s.as_bytes();
        let mut i = bytes.len();
        proof {
            is_ascii_chars_encode_utf8(s@);
            assert(self@ =~= s@.subrange(i as int, s@.len() as int) + old(self)@);
        }
        while i > 0
            invariant
                i <= bytes@.len(),
                bytes@ == encode_utf8(s@),
                bytes@.len() == s@.len(),
                is_ascii_chars(s@),
                forall|k: int| 0 <= k < s@.len() ==> s@[k] as u8 == #[trigger] bytes@[k],
                self@ == s@.subrange(i as int, s@.len() as int) + old(self)@,
                self.fill() == old(self).fill(),
            decreases i,
        {
            i = i - 1;
            let b = bytes[i];
            let ghost tail = s@.subrange(i + 1, s@.len() as int);
            proof {
                use_type_invariant(&*self);
                self.lemma_text_shape();
                assert(b == s@[i as int] as u8);
                assert('\0' <= s@[i as int] <= '\u{7f}');
                assert(b as char == s@[i as int]);
            }
            match self.write_char(b) {
                Ok(()) => {},
                Err(_) => {
                    proof {
                        assert(s@ + old(self)@ =~= s@.subrange(0, i + 1) + (tail + old(self)@));
                        lemma_keep_right_full(
                            s@.subrange(0, i + 1),
                            tail + old(self)@,
                            CAP as nat,
                        );
                    }
                    return Err(());
                },
            }
            proof {
                assert(seq![b as char] + tail =~= s@.subrange(i as int, s@.len() as int));
                assert(self@ =~= s@.subrange(i as int, s@.len() as int) + old(self)@);
            }
        }
        proof {
            use_type_invariant(&*self);
            self.lemma_text_shape();
            assert(s@.subrange(0, s@.len() as int) =~= s@);
        }
        Ok(())
    }

    /// Puts the last `places` decimal digits of `right` in front of the text.
    fn fraction(&mut self, right: u32, places: usize)
        requires
            places + old(self)@.len() <= CAP,
        ensures
            final(self)@ == fixed_decimal(right as nat, places as nat) + old(self)@,
            final(self).fill() == old(self).fill(),
    {
        let mut rest = right;
        let mut k: usize = 0;
        proof {
            assert(self@ =~= fixed_decimal(right as nat, 0) + old(self)@);
        }
        while k < places
            invariant
                k <= places,
                places + old(self)@.len() <= CAP,
                rest == drop_digits(right as nat, k as nat),
                self@ == fixed_decimal(right as nat, k as nat) + old(self)@,
                self.fill() == old(self).fill(),
            decreases places - k,
        {
            let d = (rest % 10) as u8 + ZERO;
            proof {
                lemma_fixed_decimal_shape(right as nat, k as nat);
                lemma_fixed_decimal_next(right as nat, k as nat);
                assert(d as char == digit_char((rest % 10) as int, false));
            }
            let r = self.write_char(d);
            rest = rest / 10;
            k = k + 1;
            proof {
                assert(self@ =~= fixed_decimal(right as nat, k as nat) + old(self)@);
            }
        }
    }

    /// Puts a number with a decimal point in front of the text: `left` is its
    /// whole part, the last `decimal_places` digits of `right` are its
    /// fraction, and `is_neg` asks for a sign. Without decimal places no
    /// point is written. A fraction that does not fit in the buffer is refused
    /// before anything is written; where the rest does not fit, what fits is
    /// written, from the right, and the call fails.
    pub fn float_as_str(
        &mut self,
        left: u32,
        right: u32,
        decimal_places: usize,
        is_neg: bool,
    ) -> (r: Result<(), ()>)
        ensures
            r is Ok <==> point_text(left as nat, right as nat, decimal_places as nat, is_neg).len()
                + old(self)@.len() <= CAP,
            final(self)@ == if decimal_places + old(self)@.len() > CAP {
                old(self)@
            } else {
                keep_right(
                    point_text(left as nat, right as nat, decimal_places as nat, is_neg) + old(
                        self,
                    )@,
                    CAP as nat,
                )
            },
            final(self).fill() == old(self).fill(),
    {
        let ghost sign = if is_neg {
            seq!['-']
        } else {
            Seq::<char>::empty()
        };
        let ghost whole = decimal(left as nat);
        let ghost frac = if decimal_places > 0 {
            seq!['.'] + fixed_decimal(right as nat, decimal_places as nat)
        } else {
            Seq::<char>::empty()
        };
        let ghost text = point_text(left as nat, right as nat, decimal_places as nat, is_neg);
        proof {
            use_type_invariant(&*self);
            self.lemma_text_shape();
            lemma_digits_shape(left as nat, 10, false);
            lemma_fixed_decimal_shape(right as nat, decimal_places as nat);
            assert(text == sign + whole + frac);
        }
        if decimal_places > 0 {
            if decimal_places > self.idx {
                return Err(());
            }
            self.fraction(right, decimal_places);
            let ghost digits_only = fixed_decimal(right as nat, decimal_places as nat) + old(
                self,
            )@;
            match self.write_char(POINT) {
                Ok(()) => {
                    proof {
                        assert(self@ =~= frac + old(self)@);
                    }
                },
                Err(_) => {
                    proof {
                        assert(text + old(self)@ =~= (sign + whole + seq!['.']) + digits_only);
                        lemma_keep_right_full(sign + whole + seq!['.'], digits_only, CAP as nat);
                    }
                    return Err(());
                },
            }
        } else {
            proof {
                assert(self@ =~= frac + old(self)@);
            }
        }
        let ghost tail = frac + old(self)@;
        proof {
            assert(text + old(self)@ =~= sign + (whole + tail));
            assert(whole + tail =~= whole + frac + old(self)@);
        }
        match self.u32(left) {
            Ok(()) => {},
            Err(_) => {
                proof {
                    lemma_keep_right_full(sign, whole + tail, CAP as nat);
                }
                return Err(());
            },
        }
        if is_neg {
            match self.write_char(MINUS) {
                Ok(()) => {},
                Err(_) => {
                    proof {
                        lemma_keep_right_full(sign, whole + tail, CAP as nat);
                    }
                    return Err(());
                },
            }
        }
        proof {
            use_type_invariant(&*self);
            self.lemma_text_shape();
            assert(self@ =~= text + old(self)@);
        }
        Ok(())
    }

    /// Puts the numeral of `n` in the given base in front of the text, with
    /// capital letters for the digits above nine if `upper` is set. Where the
    /// buffer is too small, the digits that fit are written, from the right,
    /// and the call fails.
    pub(crate) fn radix(&mut self, n: u128, base: u8, upper: bool) -> (r: Result<(), ()>)
        requires
            2 <= base <= 36,
        ensures
            r is Ok <==> digits(n as nat, base as nat, upper).len() + old(self)@.len() <= CAP,
            final(self)@ == keep_right(
                digits(n as nat, base as nat, upper) + old(self)@,
                CAP as nat,
            ),
            final(self).fill() == old(self).fill(),
    {
        let ghost all = digits(n as nat, base as nat, upper);
        let letter = if upper {
            UPPER_A
        } else {
            LOWER_A
        };
        let mut rest = n;
        let ghost mut low = Seq::<char>::empty();
        proof {
            assert(self@ =~= low + old(self)@);
            assert(all =~= digits(rest as nat, base as nat, upper) + low);
        }
        loop
            invariant_except_break
                all == digits(rest as nat, base as nat, upper) + low,
            invariant
                2 <= base <= 36,
                all == digits(n as nat, base as nat, upper),
                letter == if upper {
                    UPPER_A
                } else {
                    LOWER_A
                },
                self@ == low + old(self)@,
                self.fill() == old(self).fill(),
            ensures
                all == low,
            decreases rest,
        {
            let val = (rest % (base as u128)) as u8;
            let d = if val < 10 {
                ZERO + val
            } else {
                letter + (val - 10)
            };
            let ghost before = low;
            proof {
                use_type_invariant(&*self);
                self.lemma_text_shape();
                lemma_digits_shape(rest as nat, base as nat, upper);
                assert(val < base) by (nonlinear_arith)
                    requires
                        val == rest % (base as u128),
                        base >= 2,
                ;
            }
            match self.write_char(d) {
                Ok(()) => {},
                Err(_) => {
                    proof {
                        assert(keep_right(all + old(self)@, CAP as nat) =~= low + old(self)@);
                    }
                    return Err(());
                },
            }
            proof {
                low = seq![d as char] + before;
                assert(d as char == digit_char((rest % (base as u128)) as int, upper));
                assert(self@ =~= low + old(self)@);
                if rest >= base {
                    lemma_quotient_is_smaller(rest as nat, base as nat);
                    assert(rest / (base as u128) >= 1) by (nonlinear_arith)
                        requires
                            rest >= base,
                            base >= 2,
                    ;
                    assert(all =~= digits((rest / (base as u128)) as nat, base as nat, upper)
                        + low);
                } else {
                    assert(rest / (base as u128) == 0 && rest % (base as u128) == rest)
                        by (nonlinear_arith)
                        requires
                            rest < base,
                            base >= 2,
                    ;
                    assert(all =~= low);
                }
            }
            rest = rest / (base as u128);
            if rest == 0 {
                break;
            }
        }
        proof {
            use_type_invariant(&*self);
            self.lemma_text_shape();
        }
        Ok(())
    }

    /// Puts the numeral of `n` in the given base in front of the text, in a
    /// field of `len` characters: the fill stands in front of the digits. A
    /// numeral longer than the field is written whole. A field that does not
    /// fit in the buffer is refused before anything is written.
    pub(crate) fn radix_pad(&mut self, n: u128, base: u8, upper: bool, len: usize) -> (r: Result<
        (),
        (),
    >)
        requires
            2 <= base <= 36,
        ensures
            r is Ok <==> len + old(self)@.len() <= CAP && digits(
                n as nat,
                base as nat,
                upper,
            ).len() + old(self)@.len() <= CAP,
            r is Ok ==> final(self)@ == right_aligned(
                digits(n as nat, base as nat, upper),
                old(self).fill(),
                len as nat,
            ) + old(self)@,
            r is Err ==> final(self)@ == if len + old(self)@.len() > CAP {
                old(self)@
            } else {
                keep_right(digits(n as nat, base as nat, upper) + old(self)@, CAP as nat)
            },
            final(self).fill() == old(self).fill(),
    {
        let held = self.len();
        if len > CAP - held {
            return Err(());
        }
        match self.radix(n, base, upper) {
            Ok(()) => {},
            Err(_) => {
                return Err(());
            },
        }
        self.fill_up(held + len);
        proof {
            let text = digits(n as nat, base as nat, upper);
            assert(right_aligned(text + old(self)@, old(self).fill(), (held + len) as nat)
                =~= right_aligned(text, old(self).fill(), len as nat) + old(self)@);
        }
        Ok(())
    }

    /// Puts fill characters in front of the text until it is `total`
    /// characters long. A text that is already longer stays as it is.
    pub(crate) fn fill_up(&mut self, total: usize)
        requires
            total <= CAP,
        ensures
            final(self)@ == right_aligned(old(self)@, old(self).fill(), total as nat),
            final(self).fill() == old(self).fill(),
    {
        proof {
            use_type_invariant(&*self);
        }
        let ghost before = *self;
        self.widen_to(CAP - total);
        proof {
            assert(self@ =~= right_aligned(old(self)@, old(self).fill(), total as nat)) by {
                assert forall|k: int| 0 <= k < self@.len() implies self@[k] == right_aligned(
                    old(self)@,
                    old(self).fill(),
                    total as nat,
                )[k] by {
                    if self.idx + k >= before.idx {
                        assert(self@[k] == before@[self.idx + k - before.idx]);
                    }
                }
            }
        }
    }
}

} // verus!
