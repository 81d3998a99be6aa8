//! Binary floating-point numbers as text with a fixed number of decimal
//! places.
//!
//! A number is taken by its bits and worked on in whole numbers only: its
//! magnitude is a mantissa divided by a power of two, and the digits are
//! those of the nearest multiple of the last decimal place, a half counting
//! upward. Numbers beyond a bound are replaced by an overflow text, and what
//! is not a number by `NaN`.

use vstd::prelude::*;
use crate::convert::{keep_right, point_text, right_aligned, Convert};
use crate::digits::{
    decimal, lemma_decimal_len, lemma_digits_shape, lemma_fixed_decimal_shape, pow10,
};
use crate::formatter::Formatter;
use crate::padding::{padded, Padding};
use crate::sink::{lemma_wrote_nothing, uWrite};
use crate::traits::{uDisplay, uDisplayFloat};

verus! {

/// `2` to the power `k`.
pub open spec fn pow2(k: nat) -> nat
    decreases k,
{
    if k == 0 {
        1
    } else {
        2 * pow2((k - 1) as nat)
    }
}

/// Whether the magnitude `mantissa / 2^shift` is greater than `bound`.
pub open spec fn exceeds(mantissa: nat, shift: int, bound: nat) -> bool {
    if shift >= 0 {
        mantissa > bound * pow2(shift as nat)
    } else {
        mantissa * pow2((-shift) as nat) > bound
    }
}

/// The magnitude `mantissa / 2^shift` in units of the last of `places`
/// decimal places, rounded to the nearest unit, a half upward.
pub open spec fn rounded(mantissa: nat, shift: nat, places: nat) -> nat {
    (2 * mantissa * pow10(places) + pow2(shift)) / pow2(shift + 1)
}

/// Powers of two are positive and grow with the exponent.
pub proof fn lemma_pow2_grows(a: nat, b: nat)
    requires
        a <= b,
    ensures
        1 <= pow2(a) <= pow2(b),
    decreases b,
{
    if b > 0 {
        if a < b {
            lemma_pow2_grows(a, (b - 1) as nat);
        } else {
            lemma_pow2_grows((a - 1) as nat, (b - 1) as nat);
        }
    }
}

/// Powers of ten are positive.
pub proof fn lemma_pow10_positive(k: nat)
    ensures
        pow10(k) >= 1,
    decreases k,
{
    if k > 0 {
        lemma_pow10_positive((k - 1) as nat);
    }
}

/// Rounding gives the nearest unit of the last decimal place: the rounded
/// number is no more than half a unit from the magnitude, and a magnitude
/// that lies halfway between two units goes to the upper one.
pub proof fn lemma_rounded_is_nearest(mantissa: nat, shift: nat, places: nat)
    ensures
        2 * mantissa * pow10(places) - pow2(shift) < 2 * rounded(mantissa, shift, places) * pow2(
            shift,
        ) <= 2 * mantissa * pow10(places) + pow2(shift),
{
    let n = 2 * mantissa * pow10(places) + pow2(shift);
    let d = pow2(shift + 1);
    let r = rounded(mantissa, shift, places);
    lemma_pow2_grows(0, shift);
    assert(d == 2 * pow2(shift));
    assert(r == n / d);
    assert(r * d <= n < r * d + d) by (nonlinear_arith)
        requires
            d > 0,
            n >= 0,
            r == n / d,
    ;
    assert(r * d == 2 * r * pow2(shift)) by (nonlinear_arith)
        requires
            d == 2 * pow2(shift),
    ;
}

/// A magnitude within a bound stays within it when it is rounded.
pub proof fn lemma_rounded_bound(mantissa: nat, shift: nat, places: nat, bound: nat)
    requires
        mantissa <= bound * pow2(shift),
    ensures
        rounded(mantissa, shift, places) <= bound * pow10(places),
{
    let s = pow10(places);
    let p = pow2(shift);
    let r = rounded(mantissa, shift, places);
    lemma_rounded_is_nearest(mantissa, shift, places);
    lemma_pow2_grows(0, shift);
    lemma_pow10_positive(places);
    assert(r <= bound * s) by (nonlinear_arith)
        requires
            2 * r * p <= 2 * mantissa * s + p,
            mantissa <= bound * p,
            p >= 1,
            s >= 1,
    ;
}

/// A magnitude whose doubled multiple of the decimal unit lies below the
/// power of two that divides it is rounded to zero.
pub proof fn lemma_rounded_small(mantissa: nat, shift: nat, places: nat)
    requires
        2 * mantissa * pow10(places) < pow2(shift),
    ensures
        rounded(mantissa, shift, places) == 0,
{
    let n = 2 * mantissa * pow10(places) + pow2(shift);
    let d = pow2(shift + 1);
    assert(d == 2 * pow2(shift));
    assert(n / d == 0) by (nonlinear_arith)
        requires
            0 <= n < d,
    ;
}

/// `10` to the power `places`.
fn power_of_ten(places: usize) -> (s: u32)
    requires
        places <= 6,
    ensures
        s == pow10(places as nat),
        1 <= s <= 1_000_000,
{
    proof {
        reveal_with_fuel(pow10, 7);
    }
    if places == 0 {
        1
    } else if places == 1 {
        10
    } else if places == 2 {
        100
    } else if places == 3 {
        1_000
    } else if places == 4 {
        10_000
    } else if places == 5 {
        100_000
    } else {
        1_000_000
    }
}

/// `2^76`, the greatest power of two that the conversion computes.
pub open spec fn top_power() -> nat {
    0x1000_0000_0000_0000_0000
}

/// The power of a sum is the product of the powers.
pub proof fn lemma_pow2_adds(a: nat, b: nat)
    ensures
        pow2(a + b) == pow2(a) * pow2(b),
    decreases a,
{
    if a > 0 {
        let less = (a - 1) as nat;
        lemma_pow2_adds(less, b);
        assert(pow2(a + b) == 2 * pow2(less + b));
        assert(pow2(a) == 2 * pow2(less));
        assert(2 * (pow2(less) * pow2(b)) == (2 * pow2(less)) * pow2(b)) by (nonlinear_arith);
    } else {
        assert(pow2(a) * pow2(b) == pow2(b)) by (nonlinear_arith)
            requires
                pow2(a) == 1,
        ;
    }
}

/// The value of `2^76`.
pub proof fn lemma_top_power()
    ensures
        pow2(76) == top_power(),
{
    assert(pow2(19) == 0x8_0000) by {
        reveal_with_fuel(pow2, 20);
    }
    lemma_pow2_adds(19, 19);
    lemma_pow2_adds(38, 38);
    assert(pow2(38) == 0x40_0000_0000);
    assert(0x40_0000_0000int * 0x40_0000_0000int == 0x1000_0000_0000_0000_0000int);
}

/// `2` to the power `k`.
fn power_of_two(k: usize) -> (p: u128)
    requires
        k <= 76,
    ensures
        p == pow2(k as nat),
        1 <= p <= top_power(),
{
    let mut p: u128 = 1;
    let mut i: usize = 0;
    proof {
        lemma_top_power();
        lemma_pow2_grows(0, 76);
    }
    while i < k
        invariant
            i <= k <= 76,
            p == pow2(i as nat),
            pow2(76) == top_power(),
        decreases k - i,
    {
        proof {
            lemma_pow2_grows((i + 1) as nat, 76);
            lemma_pow2_grows(0, i as nat);
        }
        p = p * 2;
        i = i + 1;
    }
    proof {
        lemma_pow2_grows(k as nat, 76);
    }
    p
}

/// The magnitude `mantissa / 2^shift` in units of the last of `places`
/// decimal places, rounded to the nearest unit, a half upward.
fn round_scaled(mantissa: u64, shift: usize, places: usize) -> (r: u128)
    requires
        mantissa < 0x20_0000_0000_0000,
        places <= 6,
    ensures
        r == rounded(mantissa as nat, shift as nat, places as nat),
{
    let scale = power_of_ten(places) as u128;
    assert(2 * mantissa * scale < 0x40_0000_0000_0000 * 1_000_000) by (nonlinear_arith)
        requires
            mantissa < 0x20_0000_0000_0000,
            scale <= 1_000_000,
    ;
    let num: u128 = 2 * (mantissa as u128) * scale;
    if shift > 76 {
        proof {
            lemma_top_power();
            lemma_pow2_grows(76, shift as nat);
            assert(num < top_power());
            lemma_rounded_small(mantissa as nat, shift as nat, places as nat);
        }
        return 0;
    }
    let p = power_of_two(shift);
    (num + p) / (2 * p)
}

/// The text for what is not a number.
pub open spec fn nan_text() -> Seq<char> {
    seq!['N', 'a', 'N']
}

/// The text for a number beyond the bound.
pub open spec fn beyond_text(negative: bool) -> Seq<char> {
    if negative {
        seq!['-', 'o', 'v', 'f', 'l']
    } else {
        seq!['o', 'v', 'f', 'l']
    }
}

/// The text of the magnitude `mantissa / 2^shift` with `places` decimal
/// places and its sign: the digits of the magnitude rounded to the nearest
/// unit of the last place, a half upward.
pub open spec fn number_text(negative: bool, mantissa: nat, shift: nat, places: nat) -> Seq<char> {
    let r = rounded(mantissa, shift, places);
    point_text(r / pow10(places), r % pow10(places), places, negative)
}

/// The greatest magnitude of a single-precision number that is written as a
/// number: `2^23`.
pub const BOUND_32: u32 = 0x80_0000;

/// The greatest magnitude of a double-precision number that is written as a
/// number: `2^32 - 1`.
pub const BOUND_64: u32 = 0xFFFF_FFFF;

/// The greatest number of decimal places.
pub const MAX_PLACES: usize = 6;

/// A single-precision binary floating-point number, given by its bits.
#[derive(Debug, PartialEq, Eq, Structural, Clone, Copy)]
pub struct Float32 {
    /// The bits of the number: sign, eight bits of exponent, twenty-three
    /// bits of fraction.
    pub bits: u32,
}

/// A double-precision binary floating-point number, given by its bits.
#[derive(Debug, PartialEq, Eq, Structural, Clone, Copy)]
pub struct Float64 {
    /// The bits of the number: sign, eleven bits of exponent, fifty-two bits
    /// of fraction.
    pub bits: u64,
}

impl Float32 {
    /// Whether the sign bit is set.
    pub open spec fn negative(self) -> bool {
        self.bits >= 0x8000_0000
    }

    /// The bits without the sign.
    pub open spec fn magnitude_bits(self) -> nat {
        (self.bits % 0x8000_0000) as nat
    }

    /// Whether the bits stand for no number.
    pub open spec fn is_nan(self) -> bool {
        self.magnitude_bits() > 0x7f80_0000
    }

    /// The exponent as the bits hold it.
    pub open spec fn exponent_field(self) -> nat {
        self.magnitude_bits() / 0x80_0000
    }

    /// The fraction as the bits hold it.
    pub open spec fn fraction_field(self) -> nat {
        self.magnitude_bits() % 0x80_0000
    }

    /// The mantissa: the magnitude is `mantissa / 2^shift`.
    pub open spec fn mantissa(self) -> nat {
        if self.exponent_field() == 0 {
            self.fraction_field()
        } else {
            self.fraction_field() + 0x80_0000
        }
    }

    /// The power of two that divides the mantissa; a negative one multiplies.
    pub open spec fn shift(self) -> int {
        if self.exponent_field() == 0 {
            149
        } else {
            150 - self.exponent_field()
        }
    }

    /// Whether the magnitude is greater than `2^23`.
    pub open spec fn overflows(self) -> bool {
        exceeds(self.mantissa(), self.shift(), BOUND_32 as nat)
    }

    /// The text of the number with `places` decimal places. There is none
    /// for a number within the bound and more than six places.
    pub open spec fn numeral(self, places: nat) -> Option<Seq<char>> {
        if self.is_nan() {
            Some(nan_text())
        } else if self.overflows() {
            Some(beyond_text(self.negative()))
        } else if places > MAX_PLACES {
            None
        } else {
            Some(number_text(self.negative(), self.mantissa(), self.shift() as nat, places))
        }
    }

    /// A number is beyond the bound exactly if its bits, without the sign,
    /// are greater than those of `2^23`; a number within the bound has a
    /// mantissa that a power of two divides.
    pub proof fn lemma_bound(self)
        requires
            !self.is_nan(),
        ensures
            self.overflows() <==> self.magnitude_bits() > 0x4b00_0000,
            !self.overflows() ==> self.shift() >= 0 && self.mantissa() <= BOUND_32 * pow2(
                self.shift() as nat,
            ),
            self.mantissa() < 0x100_0000,
    {
        let e = self.exponent_field();
        let m = self.mantissa();
        if e == 0 {
            lemma_pow2_grows(0, 149);
            assert(BOUND_32 * pow2(149) >= BOUND_32) by (nonlinear_arith)
                requires
                    pow2(149) >= 1,
            ;
        } else if e < 150 {
            let k = (150 - e) as nat;
            lemma_pow2_grows(1, k);
            assert(pow2(1) == 2) by {
                reveal_with_fuel(pow2, 2);
            }
            assert(BOUND_32 * pow2(k) >= 0x100_0000) by (nonlinear_arith)
                requires
                    pow2(k) >= 2,
            ;
        } else if e == 150 {
            assert(BOUND_32 * pow2(0) == BOUND_32) by (nonlinear_arith)
                requires
                    pow2(0) == 1,
            ;
        } else {
            let k = (e - 150) as nat;
            lemma_pow2_grows(1, k);
            assert(pow2(1) == 2) by {
                reveal_with_fuel(pow2, 2);
            }
            assert(m * pow2(k) >= 0x100_0000) by (nonlinear_arith)
                requires
                    m >= 0x80_0000,
                    pow2(k) >= 2,
            ;
        }
    }
}

impl Float64 {
    /// Whether the sign bit is set.
    pub open spec fn negative(self) -> bool {
        self.bits >= 0x8000_0000_0000_0000
    }

    /// The bits without the sign.
    pub open spec fn magnitude_bits(self) -> nat {
        (self.bits % 0x8000_0000_0000_0000) as nat
    }

    /// Whether the bits stand for no number.
    pub open spec fn is_nan(self) -> bool {
        self.magnitude_bits() > 0x7ff0_0000_0000_0000
    }

    /// The exponent as the bits hold it.
    pub open spec fn exponent_field(self) -> nat {
        self.magnitude_bits() / 0x10_0000_0000_0000
    }

    /// The fraction as the bits hold it.
    pub open spec fn fraction_field(self) -> nat {
        self.magnitude_bits() % 0x10_0000_0000_0000
    }

    /// The mantissa: the magnitude is `mantissa / 2^shift`.
    pub open spec fn mantissa(self) -> nat {
        if self.exponent_field() == 0 {
            self.fraction_field()
        } else {
            self.fraction_field() + 0x10_0000_0000_0000
        }
    }

    /// The power of two that divides the mantissa; a negative one multiplies.
    pub open spec fn shift(self) -> int {
        if self.exponent_field() == 0 {
            1074
        } else {
            1075 - self.exponent_field()
        }
    }

    /// Whether the magnitude is greater than `2^32 - 1`.
    pub open spec fn overflows(self) -> bool {
        exceeds(self.mantissa(), self.shift(), BOUND_64 as nat)
    }

    /// The text of the number with `places` decimal places. There is none
    /// for a number within the bound and more than six places.
    pub open spec fn numeral(self, places: nat) -> Option<Seq<char>> {
        if self.is_nan() {
            Some(nan_text())
        } else if self.overflows() {
            Some(beyond_text(self.negative()))
        } else if places > MAX_PLACES {
            None
        } else {
            Some(number_text(self.negative(), self.mantissa(), self.shift() as nat, places))
        }
    }

    /// A number is beyond the bound exactly if its bits, without the sign,
    /// are greater than those of `2^32 - 1`; a number within the bound has a
    /// mantissa that a power of two divides.
    pub proof fn lemma_bound(self)
        requires
            !self.is_nan(),
        ensures
            self.overflows() <==> self.magnitude_bits() > 0x41ef_ffff_ffe0_0000,
            !self.overflows() ==> self.shift() >= 0 && self.mantissa() <= BOUND_64 * pow2(
                self.shift() as nat,
            ),
            self.mantissa() < 0x20_0000_0000_0000,
    {
        let e = self.exponent_field();
        let m = self.mantissa();
        assert(pow2(20) == 0x10_0000 && pow2(21) == 0x20_0000 && pow2(22) == 0x40_0000) by {
            reveal_with_fuel(pow2, 23);
        }
        if e == 0 {
            lemma_pow2_grows(22, 1074);
            assert(BOUND_64 * pow2(1074) >= 0x10_0000_0000_0000) by (nonlinear_arith)
                requires
                    pow2(1074) >= 0x40_0000,
            ;
        } else if e < 1054 {
            let k = (1075 - e) as nat;
            lemma_pow2_grows(22, k);
            assert(BOUND_64 * pow2(k) >= 0x20_0000_0000_0000) by (nonlinear_arith)
                requires
                    pow2(k) >= 0x40_0000,
            ;
        } else if e == 1054 {
            assert(BOUND_64 * pow2(21) == 0x1f_ffff_ffe0_0000) by (nonlinear_arith)
                requires
                    pow2(21) == 0x20_0000,
            ;
        } else if e <= 1075 {
            let k = (1075 - e) as nat;
            lemma_pow2_grows(k, 20);
            assert(BOUND_64 * pow2(k) < 0x10_0000_0000_0000) by (nonlinear_arith)
                requires
                    pow2(k) <= 0x10_0000,
            ;
        } else {
            let k = (e - 1075) as nat;
            lemma_pow2_grows(0, k);
            assert(m * pow2(k) >= 0x10_0000_0000_0000) by (nonlinear_arith)
                requires
                    m >= 0x10_0000_0000_0000,
                    pow2(k) >= 1,
            ;
        }
    }
}

/// What a buffer holds after a floating-point number was to be written in
/// front of `before`: `text` is the number's text, if it has one, and
/// `plain` says that it is a number within the bound.
pub open spec fn float_outcome(
    text: Option<Seq<char>>,
    plain: bool,
    places: nat,
    before: Seq<char>,
    cap: nat,
) -> Seq<char> {
    match text {
        None => before,
        Some(t) => if plain && places + before.len() > cap {
            before
        } else {
            keep_right(t + before, cap)
        },
    }
}

impl<const CAP: usize> Convert<CAP> {
    /// Puts a number within the bound in front of the text.
    fn number(&mut self, negative: bool, mantissa: u64, shift: usize, places: usize, bound: u32) -> (r:
        Result<(), ()>)
        requires
            mantissa < 0x20_0000_0000_0000,
            mantissa <= bound * pow2(shift as nat),
            places <= MAX_PLACES,
        ensures
            r is Ok <==> number_text(
                negative,
                mantissa as nat,
                shift as nat,
                places as nat,
            ).len() + old(self)@.len() <= CAP,
            final(self)@ == float_outcome(
                Some(number_text(negative, mantissa as nat, shift as nat, places as nat)),
                true,
                places as nat,
                old(self)@,
                CAP as nat,
            ),
            final(self).fill() == old(self).fill(),
    {
        let r = round_scaled(mantissa, shift, places);
        let scale = power_of_ten(places) as u128;
        proof {
            lemma_rounded_bound(mantissa as nat, shift as nat, places as nat, bound as nat);
            assert(r / scale <= bound) by (nonlinear_arith)
                requires
                    r <= bound * scale,
                    scale >= 1,
            ;
        }
        let left = (r / scale) as u32;
        let right = (r % scale) as u32;
        self.float_as_str(left, right, places, negative)
    }

    /// Puts the number `f` with `decimal_places` decimal places in front of
    /// the text. What is not a number is written as `NaN`, and a number
    /// whose magnitude is greater than `2^23` as `ovfl` or `-ovfl`. A number
    /// within the bound takes at most six decimal places: more are refused,
    /// as is a fraction that does not fit in the buffer, before anything is
    /// written. Where the rest does not fit, what fits is written, from the
    /// right, and the call fails.
    pub fn float32(&mut self, f: Float32, decimal_places: usize) -> (r: Result<(), ()>)
        ensures
            r is Ok <==> (f.numeral(decimal_places as nat) matches Some(t) && t.len() + old(
                self,
            )@.len() <= CAP),
            final(self)@ == float_outcome(
                f.numeral(decimal_places as nat),
                !f.is_nan() && !f.overflows(),
                decimal_places as nat,
                old(self)@,
                CAP as nat,
            ),
            final(self).fill() == old(self).fill(),
    {
        let magnitude = f.bits % 0x8000_0000;
        let negative = f.bits >= 0x8000_0000;
        if magnitude > 0x7f80_0000 {
            proof {
                reveal_strlit("NaN");
                assert("NaN"@ =~= nan_text());
            }
            return self.write_str("NaN");
        }
        proof {
            f.lemma_bound();
        }
        if magnitude > 0x4b00_0000 {
            proof {
                reveal_strlit("-ovfl");
                reveal_strlit("ovfl");
                assert("-ovfl"@ =~= beyond_text(true));
                assert("ovfl"@ =~= beyond_text(false));
            }
            if negative {
                return self.write_str("-ovfl");
            } else {
                return self.write_str("ovfl");
            }
        }
        if decimal_places > MAX_PLACES {
            return Err(());
        }
        let exponent = magnitude / 0x80_0000;
        let fraction = magnitude % 0x80_0000;
        let (mantissa, shift): (u32, u32) = if exponent == 0 {
            (fraction, 149)
        } else {
            (fraction + 0x80_0000, 150 - exponent)
        };
        self.number(negative, mantissa as u64, shift as usize, decimal_places, BOUND_32)
    }

    /// Puts the number `f` with `decimal_places` decimal places in front of
    /// the text. What is not a number is written as `NaN`, and a number
    /// whose magnitude is greater than `2^32 - 1` as `ovfl` or `-ovfl`. A
    /// number within the bound takes at most six decimal places: more are
    /// refused, as is a fraction that does not fit in the buffer, before
    /// anything is written. Where the rest does not fit, what fits is
    /// written, from the right, and the call fails.
    pub fn float64(&mut self, f: Float64, decimal_places: usize) -> (r: Result<(), ()>)
        ensures
            r is Ok <==> (f.numeral(decimal_places as nat) matches Some(t) && t.len() + old(
                self,
            )@.len() <= CAP),
            final(self)@ == float_outcome(
                f.numeral(decimal_places as nat),
                !f.is_nan() && !f.overflows(),
                decimal_places as nat,
                old(self)@,
                CAP as nat,
            ),
            final(self).fill() == old(self).fill(),
    {
        let magnitude = f.bits % 0x8000_0000_0000_0000;
        let negative = f.bits >= 0x8000_0000_0000_0000;
        if magnitude > 0x7ff0_0000_0000_0000 {
            proof {
                reveal_strlit("NaN");
                assert("NaN"@ =~= nan_text());
            }
            return self.write_str("NaN");
        }
        proof {
            f.lemma_bound();
        }
        if magnitude > 0x41ef_ffff_ffe0_0000 {
            proof {
                reveal_strlit("-ovfl");
                reveal_strlit("ovfl");
                assert("-ovfl"@ =~= beyond_text(true));
                assert("ovfl"@ =~= beyond_text(false));
            }
            if negative {
                return self.write_str("-ovfl");
            } else {
                return self.write_str("ovfl");
            }
        }
        if decimal_places > MAX_PLACES {
            return Err(());
        }
        let exponent = magnitude / 0x10_0000_0000_0000;
        let fraction = magnitude % 0x10_0000_0000_0000;
        let (mantissa, shift): (u64, u64) = if exponent == 0 {
            (fraction, 1074)
        } else {
            (fraction + 0x10_0000_0000_0000, 1075 - exponent)
        };
        self.number(negative, mantissa, shift as usize, decimal_places, BOUND_64)
    }
}

/// The number of decimal places with which a number is written where the
/// directive names none.
pub const USUAL_PLACES: usize = 3;

/// The text of a number within a bound of at most `2^32 - 1`, with at most
/// six decimal places, has at most eighteen characters.
pub proof fn lemma_number_text_len(
    negative: bool,
    mantissa: nat,
    shift: nat,
    places: nat,
    bound: nat,
)
    requires
        mantissa <= bound * pow2(shift),
        bound <= 0xFFFF_FFFF,
        places <= MAX_PLACES,
    ensures
        number_text(negative, mantissa, shift, places).len() <= 18,
{
    let r = rounded(mantissa, shift, places);
    let s = pow10(places);
    lemma_rounded_bound(mantissa, shift, places, bound);
    lemma_pow10_positive(places);
    assert(r / s <= bound) by (nonlinear_arith)
        requires
            r <= bound * s,
            s >= 1,
    ;
    assert(pow10(10) == 10_000_000_000) by {
        reveal_with_fuel(pow10, 11);
    }
    lemma_decimal_len(r / s, 10);
    lemma_fixed_decimal_shape(r % s, places);
}

/// The text of a number is longer than its decimal places.
pub proof fn lemma_number_text_longer(negative: bool, mantissa: nat, shift: nat, places: nat)
    ensures
        number_text(negative, mantissa, shift, places).len() > places,
{
    let r = rounded(mantissa, shift, places);
    lemma_digits_shape(r / pow10(places), 10, false);
    lemma_fixed_decimal_shape(r % pow10(places), places);
}

impl<const CAP: usize> Convert<CAP> {
    /// The text of `f` with `decimal_places` decimal places in a fresh
    /// buffer, whose unused part holds blanks.
    pub fn from_f32(f: Float32, decimal_places: usize) -> (r: Result<Self, ()>)
        ensures
            r is Ok <==> (f.numeral(decimal_places as nat) matches Some(t) && t.len() <= CAP),
            r matches Ok(c) ==> Some(c@) == f.numeral(decimal_places as nat) && c.fill() == ' ',
    {
        let mut fbuf = Convert::new(32).unwrap();
        match fbuf.float32(f, decimal_places) {
            Ok(()) => {
                proof {
                    let t = f.numeral(decimal_places as nat)->0;
                    assert(t + Seq::<char>::empty() =~= t);
                    if !f.is_nan() && !f.overflows() {
                        lemma_number_text_longer(
                            f.negative(),
                            f.mantissa(),
                            f.shift() as nat,
                            decimal_places as nat,
                        );
                    }
                }
                Ok(fbuf)
            },
            Err(_) => Err(()),
        }
    }

    /// The text of `f` with `decimal_places` decimal places in a fresh
    /// buffer, whose unused part holds blanks.
    pub fn from_f64(f: Float64, decimal_places: usize) -> (r: Result<Self, ()>)
        ensures
            r is Ok <==> (f.numeral(decimal_places as nat) matches Some(t) && t.len() <= CAP),
            r matches Ok(c) ==> Some(c@) == f.numeral(decimal_places as nat) && c.fill() == ' ',
    {
        let mut fbuf = Convert::new(32).unwrap();
        match fbuf.float64(f, decimal_places) {
            Ok(()) => {
                proof {
                    let t = f.numeral(decimal_places as nat)->0;
                    assert(t + Seq::<char>::empty() =~= t);
                    if !f.is_nan() && !f.overflows() {
                        lemma_number_text_longer(
                            f.negative(),
                            f.mantissa(),
                            f.shift() as nat,
                            decimal_places as nat,
                        );
                    }
                }
                Ok(fbuf)
            },
            Err(_) => Err(()),
        }
    }

    /// Puts the text of `f` with `decimal_places` decimal places in front of
    /// the text, in a field of `len` characters: the fill stands in front of
    /// the number. A text longer than the field is written whole. A field
    /// that does not fit in the buffer is refused before anything is
    /// written.
    pub fn f32_pad(&mut self, f: Float32, len: usize, decimal_places: usize) -> (r: Result<
        (),
        (),
    >)
        ensures
            r is Ok <==> len + old(self)@.len() <= CAP && (f.numeral(decimal_places as nat) matches Some(
                t,
            ) && t.len() + old(self)@.len() <= CAP),
            r is Ok ==> final(self)@ == right_aligned(
                f.numeral(decimal_places as nat)->0,
                old(self).fill(),
                len as nat,
            ) + old(self)@,
            r is Err ==> final(self)@ == if len + old(self)@.len() > CAP {
                old(self)@
            } else {
                float_outcome(
                    f.numeral(decimal_places as nat),
                    !f.is_nan() && !f.overflows(),
                    decimal_places as nat,
                    old(self)@,
                    CAP as nat,
                )
            },
            final(self).fill() == old(self).fill(),
    {
        let held = self.len();
        if len > CAP - held {
            return Err(());
        }
        match self.float32(f, decimal_places) {
            Ok(()) => {},
            Err(_) => {
                return Err(());
            },
        }
        self.fill_up(held + len);
        proof {
            let t = f.numeral(decimal_places as nat)->0;
            if !f.is_nan() && !f.overflows() {
                lemma_number_text_longer(
                    f.negative(),
                    f.mantissa(),
                    f.shift() as nat,
                    decimal_places as nat,
                );
            }
            assert(right_aligned(t + old(self)@, old(self).fill(), (held + len) as nat)
                =~= right_aligned(t, old(self).fill(), len as nat) + old(self)@);
        }
        Ok(())
    }

    /// Puts the text of `f` with `decimal_places` decimal places in front of
    /// the text, in a field of `len` characters: the fill stands in front of
    /// the number. A text longer than the field is written whole. A field
    /// that does not fit in the buffer is refused before anything is
    /// written.
    pub fn f64_pad(&mut self, f: Float64, len: usize, decimal_places: usize) -> (r: Result<
        (),
        (),
    >)
        ensures
            r is Ok <==> len + old(self)@.len() <= CAP && (f.numeral(decimal_places as nat) matches Some(
                t,
            ) && t.len() + old(self)@.len() <= CAP),
            r is Ok ==> final(self)@ == right_aligned(
                f.numeral(decimal_places as nat)->0,
                old(self).fill(),
                len as nat,
            ) + old(self)@,
            r is Err ==> final(self)@ == if len + old(self)@.len() > CAP {
                old(self)@
            } else {
                float_outcome(
                    f.numeral(decimal_places as nat),
                    !f.is_nan() && !f.overflows(),
                    decimal_places as nat,
                    old(self)@,
                    CAP as nat,
                )
            },
            final(self).fill() == old(self).fill(),
    {
        let held = self.len();
        if len > CAP - held {
            return Err(());
        }
        match self.float64(f, decimal_places) {
            Ok(()) => {},
            Err(_) => {
                return Err(());
            },
        }
        self.fill_up(held + len);
        proof {
            let t = f.numeral(decimal_places as nat)->0;
            if !f.is_nan() && !f.overflows() {
                lemma_number_text_longer(
                    f.negative(),
                    f.mantissa(),
                    f.shift() as nat,
                    decimal_places as nat,
                );
            }
            assert(right_aligned(t + old(self)@, old(self).fill(), (held + len) as nat)
                =~= right_aligned(t, old(self).fill(), len as nat) + old(self)@);
        }
        Ok(())
    }
}

/// The text of a number if it has one, else nothing.
pub open spec fn text_or_nothing(text: Option<Seq<char>>) -> Seq<char> {
    match text {
        Some(t) => t,
        None => Seq::<char>::empty(),
    }
}

impl uDisplayFloat for Float32 {
    /// A number that cannot be written with `behind` decimal places leaves
    /// no text.
    open spec fn float_text(&self, padding: Padding, pad_char: char, behind: usize) -> Option<
        Seq<char>,
    > {
        match self.numeral(behind as nat) {
            Some(t) => Some(padded(t, pad_char, padding)),
            None => Some(Seq::<char>::empty()),
        }
    }

    fn fmt_float<W>(
        &self,
        f: &mut Formatter<'_, W>,
        padding: Padding,
        pad_char: char,
        behind: usize,
    ) -> (r: Result<(), W::Error>) where W: uWrite + ?Sized {
        proof {
            if !self.is_nan() {
                self.lemma_bound();
                if !self.overflows() && behind <= MAX_PLACES {
                    lemma_number_text_len(
                        self.negative(),
                        self.mantissa(),
                        self.shift() as nat,
                        behind as nat,
                        BOUND_32 as nat,
                    );
                }
            }
            lemma_wrote_nothing(f.sink());
        }
        match Convert::<18>::from_f32(*self, behind) {
            Ok(convert) => f.write_padded(convert.as_str(), pad_char, padding),
            Err(_) => Ok(()),
        }
    }
}

impl uDisplay for Float32 {
    /// Three decimal places.
    open spec fn text(&self) -> Option<Seq<char>> {
        Some(text_or_nothing(self.numeral(USUAL_PLACES as nat)))
    }

    fn fmt<W>(&self, f: &mut Formatter<'_, W>) -> (r: Result<(), W::Error>) where
        W: uWrite + ?Sized,
     {
        proof {
            if !self.is_nan() {
                self.lemma_bound();
                if !self.overflows() {
                    lemma_number_text_len(
                        self.negative(),
                        self.mantissa(),
                        self.shift() as nat,
                        USUAL_PLACES as nat,
                        BOUND_32 as nat,
                    );
                }
            }
        }
        match Convert::<18>::from_f32(*self, USUAL_PLACES) {
            Ok(convert) => f.write_str(convert.as_str()),
            Err(_) => Ok(()),
        }
    }
}

impl uDisplayFloat for Float64 {
    /// A number that cannot be written with `behind` decimal places leaves
    /// no text.
    open spec fn float_text(&self, padding: Padding, pad_char: char, behind: usize) -> Option<
        Seq<char>,
    > {
        match self.numeral(behind as nat) {
            Some(t) => Some(padded(t, pad_char, padding)),
            None => Some(Seq::<char>::empty()),
        }
    }

    fn fmt_float<W>(
        &self,
        f: &mut Formatter<'_, W>,
        padding: Padding,
        pad_char: char,
        behind: usize,
    ) -> (r: Result<(), W::Error>) where W: uWrite + ?Sized {
        proof {
            if !self.is_nan() {
                self.lemma_bound();
                if !self.overflows() && behind <= MAX_PLACES {
                    lemma_number_text_len(
                        self.negative(),
                        self.mantissa(),
                        self.shift() as nat,
                        behind as nat,
                        BOUND_64 as nat,
                    );
                }
            }
            lemma_wrote_nothing(f.sink());
        }
        match Convert::<18>::from_f64(*self, behind) {
            Ok(convert) => f.write_padded(convert.as_str(), pad_char, padding),
            Err(_) => Ok(()),
        }
    }
}

impl uDisplay for Float64 {
    /// Three decimal places.
    open spec fn text(&self) -> Option<Seq<char>> {
        Some(text_or_nothing(self.numeral(USUAL_PLACES as nat)))
    }

    fn fmt<W>(&self, f: &mut Formatter<'_, W>) -> (r: Result<(), W::Error>) where
        W: uWrite + ?Sized,
     {
        proof {
            if !self.is_nan() {
                self.lemma_bound();
                if !self.overflows() {
                    lemma_number_text_len(
                        self.negative(),
                        self.mantissa(),
                        self.shift() as nat,
                        USUAL_PLACES as nat,
                        BOUND_64 as nat,
                    );
                }
            }
        }
        match Convert::<18>::from_f64(*self, USUAL_PLACES) {
            Ok(convert) => f.write_str(convert.as_str()),
            Err(_) => Ok(()),
        }
    }
}

} // verus!
