//! Positional numerals: what the digits of a number are, what number a
//! row of digits stands for, and that the two agree.

use vstd::prelude::*;
use vstd::utf8::is_ascii_chars;

verus! {

/// The character for the digit `d`: `0`-`9`, then letters in the chosen case.
pub open spec fn digit_char(d: int, upper: bool) -> char {
    if d < 10 {
        ('0' as int + d) as char
    } else if upper {
        ('A' as int + d - 10) as char
    } else {
        ('a' as int + d - 10) as char
    }
}

/// The numeral of `n` in the given base, most significant digit first and
/// without leading zeros; zero is the single digit `0`.
pub open spec fn digits(n: nat, base: nat, upper: bool) -> Seq<char>
    decreases n,
{
    if base < 2 || n < base {
        seq![digit_char(n as int, upper)]
    } else {
        proof {
            lemma_quotient_is_smaller(n, base);
        }
        digits(n / base, base, upper).push(digit_char((n % base) as int, upper))
    }
}

/// Dividing a positive number by a base of two or more makes it smaller.
pub proof fn lemma_quotient_is_smaller(n: nat, base: nat)
    requires
        base >= 2,
        n >= 1,
    ensures
        n / base < n,
{
    assert(n / base < n) by (nonlinear_arith)
        requires
            base >= 2,
            n >= 1,
    ;
}

/// The decimal numeral of `n`.
pub open spec fn decimal(n: nat) -> Seq<char> {
    digits(n, 10, false)
}

/// The decimal numeral of `i`, with a leading `-` when `i` is negative.
pub open spec fn signed_decimal(i: int) -> Seq<char> {
    if i < 0 {
        seq!['-'] + decimal((-i) as nat)
    } else {
        decimal(i as nat)
    }
}

/// The last `count` decimal digits of `n`, with leading zeros where `n` is
/// shorter.
pub open spec fn fixed_decimal(n: nat, count: nat) -> Seq<char>
    decreases count,
{
    if count == 0 {
        Seq::<char>::empty()
    } else {
        fixed_decimal(n / 10, (count - 1) as nat).push(digit_char((n % 10) as int, false))
    }
}

/// `n` without its last `count` decimal digits.
pub open spec fn drop_digits(n: nat, count: nat) -> nat
    decreases count,
{
    if count == 0 {
        n
    } else {
        drop_digits(n, (count - 1) as nat) / 10
    }
}

/// The number that a row of decimal digits stands for.
pub open spec fn decimal_value(s: Seq<char>) -> nat
    decreases s.len(),
{
    if s.len() == 0 {
        0
    } else {
        decimal_value(s.drop_last()) * 10 + (s.last() as int - '0' as int) as nat
    }
}

/// The number that a decimal numeral with an optional leading `-` stands for.
pub open spec fn signed_decimal_value(s: Seq<char>) -> int {
    if s.len() > 0 && s[0] == '-' {
        -(decimal_value(s.drop_first()) as int)
    } else {
        decimal_value(s) as int
    }
}

/// `10` to the power `k`.
pub open spec fn pow10(k: nat) -> nat
    decreases k,
{
    if k == 0 {
        1
    } else {
        10 * pow10((k - 1) as nat)
    }
}

/// A numeral has at least one digit, and all its characters are ASCII.
pub proof fn lemma_digits_shape(n: nat, base: nat, upper: bool)
    requires
        2 <= base <= 36,
    ensures
        digits(n, base, upper).len() >= 1,
        is_ascii_chars(digits(n, base, upper)),
    decreases n,
{
    if n >= base {
        lemma_quotient_is_smaller(n, base);
        lemma_digits_shape(n / base, base, upper);
    }
}

/// A fixed-width numeral has exactly the digits asked for, all ASCII.
pub proof fn lemma_fixed_decimal_shape(n: nat, count: nat)
    ensures
        fixed_decimal(n, count).len() == count,
        is_ascii_chars(fixed_decimal(n, count)),
    decreases count,
{
    if count > 0 {
        lemma_fixed_decimal_shape(n / 10, (count - 1) as nat);
    }
}

/// Dropping digits from a number that has lost its last digit is dropping
/// one digit more.
proof fn lemma_drop_digits_shift(n: nat, count: nat)
    requires
        count >= 1,
    ensures
        drop_digits(n / 10, (count - 1) as nat) == drop_digits(n, count),
    decreases count,
{
    reveal_with_fuel(drop_digits, 2);
    if count > 1 {
        lemma_drop_digits_shift(n, (count - 1) as nat);
    }
}

/// One digit more of a fixed-width numeral is the next digit in front.
pub proof fn lemma_fixed_decimal_next(n: nat, count: nat)
    ensures
        fixed_decimal(n, count + 1) == seq![
            digit_char((drop_digits(n, count) % 10) as int, false),
        ] + fixed_decimal(n, count),
    decreases count,
{
    let d = digit_char((n % 10) as int, false);
    if count == 0 {
        reveal_with_fuel(fixed_decimal, 2);
        assert(fixed_decimal(n, 1) =~= seq![d] + fixed_decimal(n, 0));
    } else {
        lemma_fixed_decimal_next(n / 10, (count - 1) as nat);
        lemma_drop_digits_shift(n, count);
        let x = digit_char((drop_digits(n, count) % 10) as int, false);
        assert(fixed_decimal(n / 10, count) == seq![x] + fixed_decimal(
            n / 10,
            (count - 1) as nat,
        ));
        assert((seq![x] + fixed_decimal(n / 10, (count - 1) as nat)).push(d) =~= seq![x]
            + fixed_decimal(n / 10, (count - 1) as nat).push(d));
    }
}

/// A number below `10^k` has at most `k` decimal digits.
pub proof fn lemma_decimal_len(n: nat, k: nat)
    requires
        k >= 1,
        n < pow10(k),
    ensures
        decimal(n).len() <= k,
    decreases k,
{
    if n >= 10 {
        assert(pow10(1) == 10) by {
            reveal_with_fuel(pow10, 2);
        }
        lemma_decimal_len(n / 10, (k - 1) as nat);
    }
}

/// Reading a decimal numeral gives back the number it was written from.
pub proof fn lemma_decimal_round_trip(n: nat)
    ensures
        decimal_value(decimal(n)) == n,
    decreases n,
{
    if n < 10 {
        assert(decimal(n).drop_last() =~= Seq::<char>::empty());
        assert(decimal_value(decimal(n).drop_last()) == 0);
    } else {
        lemma_decimal_round_trip(n / 10);
        assert(decimal(n).drop_last() =~= decimal(n / 10));
    }
}

/// Reading a signed decimal numeral gives back the number it was written
/// from, for every integer and so for the least value of every width.
pub proof fn lemma_signed_decimal_round_trip(i: int)
    ensures
        signed_decimal_value(signed_decimal(i)) == i,
{
    if i < 0 {
        let m = (-i) as nat;
        lemma_decimal_round_trip(m);
        assert(signed_decimal(i).drop_first() =~= decimal(m));
    } else {
        lemma_decimal_round_trip(i as nat);
        lemma_digits_shape(i as nat, 10, false);
        assert(decimal(i as nat)[0] != '-') by {
            lemma_first_digit(i as nat);
        }
    }
}

/// The first character of a decimal numeral is a digit.
proof fn lemma_first_digit(n: nat)
    ensures
        '0' <= decimal(n)[0] <= '9',
    decreases n,
{
    if n >= 10 {
        lemma_first_digit(n / 10);
        lemma_digits_shape(n / 10, 10, false);
    }
}

} // verus!
