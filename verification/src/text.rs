//! Numbers as text.
//!
//! The document format is textual: every number that reaches a page or the
//! file structure is first turned into its decimal digits here.

use crate::fixed::{abs_u128, magnitude, Fixed, ONE};
use vstd::prelude::*;
use vstd::string::StrSliceExecFns;
use vstd::string::StringExecFns;

verus! {

/// The character for a single digit.
pub open spec fn digit_char(d: int) -> char {
    (48 + d) as char
}

/// The decimal digits of `n`, most significant first, without leading zeros.
pub open spec fn decimal(n: nat) -> Seq<char>
    decreases n,
{
    if n < 10 {
        seq![digit_char(n as int)]
    } else {
        decimal(n / 10).push(digit_char((n % 10) as int))
    }
}

/// A number below a power of ten has no more decimal digits than the power
/// has zeros.
pub proof fn decimal_is_short(n: nat, digits: nat, bound: nat)
    requires
        digits >= 1,
        bound == power_of_ten(digits),
        n < bound,
    ensures
        1 <= decimal(n).len() <= digits,
    decreases digits,
{
    if n >= 10 {
        assert(digits >= 2) by {
            if digits == 1 {
                assert(power_of_ten(1) == 10 * power_of_ten(0));
            }
        }
        assert(n / 10 < power_of_ten((digits - 1) as nat));
        decimal_is_short(n / 10, (digits - 1) as nat, power_of_ten((digits - 1) as nat));
    }
}

/// Ten, multiplied by itself `exponent` times.
pub open spec fn power_of_ten(exponent: nat) -> nat
    decreases exponent,
{
    if exponent == 0 {
        1
    } else {
        10 * power_of_ten((exponent - 1) as nat)
    }
}

/// The decimal digits of a number are the characters from `0` to `9`.
pub proof fn decimal_is_digits(n: nat)
    ensures
        forall|i: int| 0 <= i < decimal(n).len() ==> '0' <= #[trigger] decimal(n)[i] <= '9',
    decreases n,
{
    if n >= 10 {
        decimal_is_digits(n / 10);
        let head = decimal(n / 10);
        let last = digit_char((n % 10) as int);
        assert(decimal(n) == head.push(last));
        assert('0' <= last <= '9');
        assert forall|i: int| 0 <= i < decimal(n).len() implies '0' <= #[trigger] decimal(n)[i]
            <= '9' by {
            if i < head.len() {
                assert(decimal(n)[i] == head[i]);
            }
        }
    } else {
        assert(decimal(n)[0] == digit_char(n as int));
    }
}

/// `count` copies of the character `0`.
pub open spec fn zeros(count: nat) -> Seq<char> {
    Seq::new(count, |i: int| '0')
}

/// `text` with zeros put in front until it is at least `width` long.
pub open spec fn padded(text: Seq<char>, width: nat) -> Seq<char> {
    if text.len() >= width {
        text
    } else {
        zeros((width - text.len()) as nat) + text
    }
}

/// A whole number in decimal, with a minus sign in front if it is negative.
pub open spec fn int_text(v: int) -> Seq<char> {
    if v < 0 {
        seq!['-'] + decimal((-v) as nat)
    } else {
        decimal(v as nat)
    }
}

/// The digits after the decimal point of `frac / (10 * scale)`, up to the
/// last one that is not zero.
pub open spec fn fraction_digits(frac: nat, scale: nat) -> Seq<char>
    decreases scale,
{
    if frac == 0 || scale == 0 {
        Seq::empty()
    } else {
        seq![digit_char((frac / scale) as int)] + fraction_digits(frac % scale, scale / 10)
    }
}

/// A fixed-point number in decimal: sign, whole part, and, unless the number
/// is whole, a point and the decimals up to the last one that is not zero.
pub open spec fn fixed_text(x: int) -> Seq<char> {
    let m = magnitude(x);
    let frac = m % (ONE as nat);
    let sign = if x < 0 {
        seq!['-']
    } else {
        Seq::<char>::empty()
    };
    let point = if frac == 0 {
        Seq::<char>::empty()
    } else {
        seq!['.']
    };
    sign + decimal(m / (ONE as nat)) + point + fraction_digits(frac, (ONE / 10) as nat)
}

/// `v` moved to the nearest number that a 32-bit signed integer holds.
pub open spec fn clamped_i32(v: int) -> int {
    if v < i32::MIN {
        i32::MIN as int
    } else if v > i32::MAX {
        i32::MAX as int
    } else {
        v
    }
}

/// Appends one character to the end of a string by `String::push` of the
/// standard library. The contract is taken on trust from its documentation:
/// afterwards the string is what it was, with `c` as one more character at
/// its end.
#[verifier::external_body]
pub(crate) fn push_char(s: &mut String, c: char)
    ensures
        final(s)@ == old(s)@.push(c),
{
    s.push(c);
}

/// The character for a single digit.
pub fn digit(d: u8) -> (c: char)
    requires
        d < 10,
    ensures
        c == digit_char(d as int),
{
    (48u8 + d) as char
}

/// Appends the decimal digits of `n`.
pub fn push_decimal(s: &mut String, n: u128)
    ensures
        final(s)@ == old(s)@ + decimal(n as nat),
    decreases n,
{
    if n >= 10 {
        push_decimal(s, n / 10);
    }
    push_char(s, digit((n % 10) as u8));
    assert(s@ =~= old(s)@ + decimal(n as nat));
}

/// Appends `n` in decimal, with zeros in front up to `width` characters.
pub fn push_padded(s: &mut String, n: u128, width: usize)
    ensures
        final(s)@ == old(s)@ + padded(decimal(n as nat), width as nat),
{
    let digits = nat_text(n);
    let len: usize = digits.as_str().unicode_len();
    let mut k: usize = len;
    while k < width
        invariant
            len <= k,
            k == len || k <= width,
            s@ == old(s)@ + zeros((k - len) as nat),
        decreases width - k,
    {
        push_char(s, '0');
        k = k + 1;
        assert(s@ =~= old(s)@ + zeros((k - len) as nat));
    }
    let ghost before = s@;
    s.append(digits.as_str());
    assert(s@ =~= old(s)@ + padded(decimal(n as nat), width as nat)) by {
        assert(before =~= old(s)@ + zeros((k - len) as nat));
        if len >= width {
            assert(zeros((k - len) as nat) =~= Seq::<char>::empty());
        }
    }
}

/// A natural number in decimal.
pub fn nat_text(n: u128) -> (s: String)
    ensures
        s@ == decimal(n as nat),
{
    let mut s = String::new();
    push_decimal(&mut s, n);
    assert(s@ =~= decimal(n as nat));
    s
}

/// A natural number in decimal, with zeros in front up to `width` characters.
pub fn padded_text(n: u128, width: usize) -> (s: String)
    ensures
        s@ == padded(decimal(n as nat), width as nat),
{
    let mut s = String::new();
    push_padded(&mut s, n, width);
    assert(s@ =~= padded(decimal(n as nat), width as nat));
    s
}

/// Appends a whole number in decimal, with its sign if negative.
pub fn push_int(s: &mut String, v: i128)
    ensures
        final(s)@ == old(s)@ + int_text(v as int),
{
    if v < 0 {
        push_char(s, '-');
    }
    push_decimal(s, abs_u128(v));
    assert(s@ =~= old(s)@ + int_text(v as int));
}

/// A whole number in decimal, with its sign if negative.
pub fn int_to_text(v: i128) -> (s: String)
    ensures
        s@ == int_text(v as int),
{
    let mut s = String::new();
    push_int(&mut s, v);
    assert(s@ =~= int_text(v as int));
    s
}

/// Appends a fixed-point number in decimal.
pub fn push_fixed(s: &mut String, x: Fixed)
    ensures
        final(s)@ == old(s)@ + fixed_text(x as int),
{
    let m: u128 = abs_u128(x);
    let one: u128 = ONE as u128;
    let whole: u128 = m / one;
    let frac: u128 = m % one;
    if x < 0 {
        push_char(s, '-');
    }
    push_decimal(s, whole);
    if frac != 0 {
        push_char(s, '.');
    }
    let ghost head = s@;
    let mut rest: u128 = frac;
    let mut scale: u128 = one / 10;
    while rest != 0 && scale != 0
        invariant
            rest < scale * 10 || rest == 0,
            scale == 1_000_000 || scale == 100_000 || scale == 10_000 || scale == 1_000 || scale
                == 100 || scale == 10 || scale == 1 || scale == 0,
            s@ + fraction_digits(rest as nat, scale as nat) == head + fraction_digits(
                frac as nat,
                (ONE / 10) as nat,
            ),
        decreases scale,
    {
        let d: u128 = rest / scale;
        assert(d < 10) by (nonlinear_arith)
            requires
                d == rest / scale,
                rest < scale * 10,
                scale > 0,
        ;
        let ghost prev = s@;
        push_char(s, digit(d as u8));
        proof {
            let tail = fraction_digits((rest % scale) as nat, (scale / 10) as nat);
            assert(fraction_digits(rest as nat, scale as nat) == seq![digit_char(d as int)]
                + tail);
            assert(s@ + tail =~= prev + (seq![digit_char(d as int)] + tail));
            assert(rest % scale < scale) by (nonlinear_arith)
                requires
                    scale > 0,
            ;
        }
        rest = rest % scale;
        scale = scale / 10;
    }
    proof {
        assert(fraction_digits(rest as nat, scale as nat) =~= Seq::<char>::empty());
        assert(s@ =~= old(s)@ + fixed_text(x as int));
    }
}

/// A fixed-point number in decimal.
pub fn fixed_to_text(x: Fixed) -> (s: String)
    ensures
        s@ == fixed_text(x as int),
{
    let mut s = String::new();
    push_fixed(&mut s, x);
    assert(s@ =~= fixed_text(x as int));
    s
}

/// Moves a number to the nearest one that a 32-bit signed integer holds.
pub fn clamp_i32(v: i128) -> (r: i32)
    ensures
        r == clamped_i32(v as int),
{
    if v < -2147483648 {
        -2147483648
    } else if v > 2147483647 {
        2147483647
    } else {
        v as i32
    }
}

/// Appends the text of `t` to `s`.
pub fn push_text(s: &mut String, t: &str)
    ensures
        final(s)@ == old(s)@ + t@,
{
    s.append(t);
}

} // verus!
