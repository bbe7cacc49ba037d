//! Fractions as decimals with a fixed number of places.

use crate::text;
use vstd::prelude::*;

verus! {

/// The most places that a decimal is written with.
pub const MOST_PLACES: usize = 18;

/// Ten to the power of `n`.
pub open spec fn pow10(n: nat) -> nat
    decreases n,
{
    if n == 0 {
        1
    } else {
        10 * pow10((n - 1) as nat)
    }
}

/// `num / den` to the nearest whole number, halves to the even one.
pub open spec fn nearest_even(num: nat, den: nat) -> nat {
    let q = num / den;
    let r = num % den;
    if 2 * r > den || (2 * r == den && q % 2 == 1) {
        q + 1
    } else {
        q
    }
}

/// `num / den` to the nearest decimal with `places` digits after the point.
pub open spec fn fixed(num: nat, den: nat, places: nat) -> Seq<char> {
    let n = nearest_even(num * pow10(places), den);
    text::decimal(n / pow10(places)) + seq!['.'] + text::padded(n % pow10(places), places)
}

/// How often `den` goes into ten times `r`, and what is left over.
fn ten_times(r: u128, den: u128) -> (res: (u128, u128))
    requires
        r < den,
    ensures
        10 * r == res.0 * den + res.1,
        res.0 < 10,
        res.1 < den,
{
    let mut digit: u128 = 0;
    let mut rest: u128 = 0;
    let mut i: u128 = 0;
    assert(0 * r == 0 * den + 0) by (nonlinear_arith);
    while i < 10
        invariant
            i <= 10,
            digit <= i,
            r < den,
            rest < den,
            i * r == digit * den + rest,
        decreases 10 - i,
    {
        assert((i + 1) * r == i * r + r) by (nonlinear_arith);
        if rest >= den - r {
            assert((digit + 1) * den == digit * den + den) by (nonlinear_arith);
            rest = rest - (den - r);
            digit = digit + 1;
        } else {
            rest = rest + r;
        }
        i = i + 1;
    }
    assert(digit < 10) by (nonlinear_arith)
        requires
            10 * r == digit * den + rest,
            r < den,
            rest >= 0,
    ;
    (digit, rest)
}

/// `num / den` as a decimal with `places` digits after the point, rounded to the nearest, halves
/// to the even digit.
pub fn fixed_text(num: u128, den: u128, places: usize) -> (res: String)
    requires
        den > 0,
        1 <= places <= MOST_PLACES,
    ensures
        res@ == fixed(num as nat, den as nat, places as nat),
{
    let whole: u128 = num / den;
    let mut rest: u128 = num % den;
    let mut part: u128 = 0;
    let mut scale: u128 = 1;
    let mut i: usize = 0;
    proof {
        reveal_with_fuel(pow10, 19);
        vstd::arithmetic::div_mod::lemma_fundamental_div_mod(num as int, den as int);
        vstd::arithmetic::div_mod::lemma_mod_bound(num as int, den as int);
        assert(num * 1 == (whole * 1 + 0) * den + rest) by (nonlinear_arith)
            requires
                num == den * whole + rest,
        ;
    }
    while i < places
        invariant
            i <= places <= MOST_PLACES,
            den > 0,
            rest < den,
            scale == pow10(i as nat),
            scale <= pow10(18),
            pow10(18) == 1_000_000_000_000_000_000,
            i > 0 ==> scale % 2 == 0,
            part < scale,
            num * scale == (whole * scale + part) * den + rest,
        decreases places - i,
    {
        let (digit, left) = ten_times(rest, den);
        proof {
            assert(num * (10 * scale) == (whole * (10 * scale) + (10 * part + digit)) * den + left)
                by (nonlinear_arith)
                requires
                    num * scale == (whole * scale + part) * den + rest,
                    10 * rest == digit * den + left,
            ;
            pow10_grows((i + 1) as nat, 18);
        }
        part = 10 * part + digit;
        scale = 10 * scale;
        rest = left;
        i += 1;
    }
    let ghost p = pow10(places as nat);
    let ghost n = num as nat * p;
    let ghost base = whole as nat * p + part as nat;
    proof {
        vstd::arithmetic::div_mod::lemma_fundamental_div_mod_converse(
            n as int,
            den as int,
            base as int,
            rest as int,
        );
        let half = p / 2;
        assert(whole * p == 2 * (whole * half)) by (nonlinear_arith)
            requires
                p == 2 * half,
        ;
    }
    let up: bool = rest > den - rest || (rest == den - rest && part % 2 == 1);
    assert(nearest_even(n, den as nat) == base + (if up {
        1nat
    } else {
        0nat
    }));
    let part: u128 = if up {
        part + 1
    } else {
        part
    };
    let (whole, part) = if part == scale {
        proof {
            assert((whole + 1) * p == whole * p + p) by (nonlinear_arith);
            assert(whole < u128::MAX) by (nonlinear_arith)
                requires
                    whole * den <= num,
                    den >= 2,
                    num <= u128::MAX,
                    whole >= 0,
            ;
        }
        (whole + 1, 0u128)
    } else {
        (whole, part)
    };
    proof {
        let total = nearest_even(n, den as nat);
        assert(total == whole * p + part);
        vstd::arithmetic::div_mod::lemma_fundamental_div_mod_converse(
            total as int,
            p as int,
            whole as int,
            part as int,
        );
    }
    let whole_text = text::decimal_text(whole);
    let part_text = text::padded_text(part, places);
    let res = whole_text.concat(".").concat(part_text.as_str());
    proof {
        reveal_strlit(".");
        assert(res@ == fixed(num as nat, den as nat, places as nat));
    }
    res
}

/// Powers of ten grow.
proof fn pow10_grows(a: nat, b: nat)
    requires
        a <= b,
    ensures
        pow10(a) <= pow10(b),
        pow10(a) > 0,
    decreases b,
{
    if a < b {
        pow10_grows(a, (b - 1) as nat);
    } else if a > 0 {
        pow10_grows((a - 1) as nat, (b - 1) as nat);
    }
}

/// Powers of ten are what they are called.
pub proof fn powers_of_ten(n: nat)
    ensures
        pow10(0) == 1,
        pow10(n + 1) == 10 * pow10(n),
        pow10(3) == 1_000,
        pow10(6) == 1_000_000,
        pow10(n) > 0,
{
    reveal_with_fuel(pow10, 7);
    pow10_grows(n, n);
}

/// A number of at most `width` digits is padded to exactly that many.
proof fn padded_fills_its_width(n: nat, width: nat)
    requires
        n < pow10(width),
        width > 0,
    ensures
        text::padded(n, width).len() == width,
{
    short_numbers_have_few_digits(n, width);
}

proof fn short_numbers_have_few_digits(n: nat, width: nat)
    requires
        n < pow10(width),
        width > 0,
    ensures
        text::decimal(n).len() <= width,
    decreases width,
{
    reveal_with_fuel(pow10, 2);
    if n >= 10 {
        short_numbers_have_few_digits(n / 10, (width - 1) as nat);
    }
}

/// A decimal reads back as the multiple of its last place that is nearest to the fraction: digits,
/// a point, `places` digits, and never off by more than half of the last place; where two are as
/// near, it is the even one.
pub proof fn decimals_are_the_nearest(num: nat, den: nat, places: nat)
    requires
        den > 0,
        places > 0,
    ensures
        exists|whole: Seq<char>, part: Seq<char>, n: nat|
            #![trigger reads_as(whole, part, n, places)]
            fixed(num, den, places) == whole + seq!['.'] + part && reads_as(whole, part, n, places)
                && 2 * (n * den) <= 2 * (num * pow10(places)) + den && 2 * (num * pow10(places))
                <= 2 * (n * den) + den && ((2 * (n * den) == 2 * (num * pow10(places)) + den || 2 * (
            num * pow10(places)) == 2 * (n * den) + den) ==> n % 2 == 0),
{
    let p = pow10(places);
    let scaled = num * p;
    let n = nearest_even(scaled, den);
    let q = scaled / den;
    let r = scaled % den;
    powers_of_ten(places);
    vstd::arithmetic::div_mod::lemma_fundamental_div_mod(scaled as int, den as int);
    vstd::arithmetic::div_mod::lemma_mod_bound(scaled as int, den as int);
    assert(q * den == den * q && (q + 1) * den == den * q + den) by (nonlinear_arith);
    let whole = text::decimal(n / p);
    let part = text::padded(n % p, places);
    vstd::arithmetic::div_mod::lemma_fundamental_div_mod(n as int, p as int);
    vstd::arithmetic::div_mod::lemma_mod_bound(n as int, p as int);
    assert((n / p) * p == p * (n / p)) by (nonlinear_arith);
    text::padded_spells_its_number(n / p, 0);
    text::padded_spells_its_number(n % p, places);
    text::decimals_are_plain_digits(n / p);
    padded_fills_its_width(n % p, places);
    assert(reads_as(whole, part, n, places));
    assert(fixed(num, den, places) == whole + seq!['.'] + part);
}

/// Whether the digits before and after a point read as `n` of the last place.
pub open spec fn reads_as(whole: Seq<char>, part: Seq<char>, n: nat, places: nat) -> bool {
    &&& part.len() == places
    &&& whole.len() > 1 ==> whole[0] != '0'
    &&& text::number(whole) matches Some(w) && (text::number(part) matches Some(f) && w * pow10(
        places,
    ) + f == n)
}

} // verus!
