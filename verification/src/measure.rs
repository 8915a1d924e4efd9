//! Numbers as people read them: one decimal place, rounded as a binary
//! floating-point value of 53 significant bits is.
use crate::text::{decimal_of, digit_char};
use vstd::prelude::*;

verus! {

/// Numbers below this have an exact double-precision value.
pub const EXACT: u128 = 0x20_0000_0000_0000;

/// The distance between neighbouring double-precision values around `n`.
pub open spec fn ulp(n: nat) -> nat
    decreases n,
{
    if n < EXACT {
        1
    } else {
        2 * ulp(n / 2)
    }
}

/// `n / unit` rounded to a whole number, to the even one on a tie.
pub open spec fn half_even(n: nat, unit: nat) -> nat {
    let q = n / unit;
    let r = n % unit;
    if 2 * r > unit || (2 * r == unit && q % 2 == 1) {
        q + 1
    } else {
        q
    }
}

/// The double-precision value nearest to `n`.
pub open spec fn nearest(n: nat) -> nat {
    half_even(n, ulp(n)) * ulp(n)
}

/// `n / unit` with one decimal place, the way `{:.1}` prints it: `n` is first
/// rounded to double precision, and `unit` is a power of two.
pub open spec fn one_place(n: nat, unit: nat) -> Seq<char> {
    let t = half_even(nearest(n) * 10, unit);
    decimal_of(t / 10) + seq!['.', digit_char(t % 10)]
}

/// The decimal numeral of a wide number.
pub fn decimal_wide(n: u128) -> (r: String)
    ensures
        r@ == decimal_of(n as nat),
    decreases n,
{
    if n < 10 {
        let mut s = String::new();
        s.push((48u8 + n as u8) as char);
        s
    } else {
        let mut s = decimal_wide(n / 10);
        s.push((48u8 + (n % 10) as u8) as char);
        s
    }
}

proof fn ulp_step(n: nat, u: nat)
    requires
        u >= 1,
    ensures
        n / u < EXACT ==> (n / (2 * u)) < EXACT,
        n / (2 * u) == (n / u) / 2,
        n / (2 * u) == (n / 2) / u,
{
    vstd::arithmetic::div_mod::lemma_div_denominator(n as int, u as int, 2);
    vstd::arithmetic::div_mod::lemma_div_denominator(n as int, 2, u as int);
    assert(u * 2 == 2 * u);
}

/// A power of two that brings `n` below [`EXACT`] first is its [`ulp`].
proof fn ulp_is(n: nat, u: nat, k: nat)
    requires
        u == vstd::arithmetic::power2::pow2(k),
        n / u < EXACT,
        k > 0 ==> n / vstd::arithmetic::power2::pow2((k - 1) as nat) >= EXACT,
    ensures
        ulp(n) == u,
    decreases k,
{
    vstd::arithmetic::power2::lemma2_to64();
    if k == 0 {
        assert(n / 1 == n);
    } else {
        let h = vstd::arithmetic::power2::pow2((k - 1) as nat);
        vstd::arithmetic::power2::lemma_pow2_unfold(k);
        vstd::arithmetic::power2::lemma_pow2_pos((k - 1) as nat);
        ulp_step(n, h);
        assert(n >= EXACT) by {
            vstd::arithmetic::div_mod::lemma_div_is_ordered_by_denominator(n as int, 1, h as int);
        }
        if k > 1 {
            let g = vstd::arithmetic::power2::pow2((k - 2) as nat);
            vstd::arithmetic::power2::lemma_pow2_unfold((k - 1) as nat);
            vstd::arithmetic::power2::lemma_pow2_pos((k - 2) as nat);
            ulp_step(n, g);
        }
        ulp_is(n / 2, h, (k - 1) as nat);
    }
}

fn round_half_even(n: u128, unit: u128) -> (r: u128)
    requires
        unit > 0,
        unit < 0x8000_0000_0000_0000_0000_0000_0000_0000,
        n < u128::MAX,
    ensures
        r == half_even(n as nat, unit as nat),
        r <= n / unit + 1,
{
    let q: u128 = n / unit;
    let m: u128 = n % unit;
    assert(q <= n) by (nonlinear_arith)
        requires
            q == n / unit,
            unit > 0,
    ;
    if 2 * m > unit || (2 * m == unit && q % 2 == 1) {
        q + 1
    } else {
        q
    }
}

/// The double-precision value nearest to `n`.
pub fn round_to_double(n: u64) -> (r: u128)
    ensures
        r == nearest(n as nat),
        r <= 0x1_0000_0000_0000_0000,
{
    proof {
        vstd::arithmetic::power2::lemma2_to64();
        vstd::arithmetic::power2::lemma2_to64_rest();
    }
    let wide: u128 = n as u128;
    let mut u: u128 = 1;
    let ghost mut k: nat = 0;
    while wide / u >= EXACT
        invariant
            wide == n,
            u == vstd::arithmetic::power2::pow2(k),
            1 <= u <= 2048,
            k <= 11,
            k > 0 ==> wide as nat / vstd::arithmetic::power2::pow2((k - 1) as nat) >= EXACT,
        decreases 2048 - u,
    {
        proof {
            vstd::arithmetic::power2::lemma2_to64();
            if k == 11 {
                assert(wide / 2048 < EXACT);
            }
            vstd::arithmetic::power2::lemma_pow2_unfold(k + 1);
            if k < 11 {
                assert(u <= 1024) by {
                    vstd::arithmetic::power2::lemma_pow2_strictly_increases(k, 11);
                    if k < 10 {
                        vstd::arithmetic::power2::lemma_pow2_strictly_increases(k, 10);
                    }
                }
            }
            k = k + 1;
        }
        u = u * 2;
    }
    proof {
        ulp_is(wide as nat, u as nat, k);
    }
    let q = round_half_even(wide, u);
    assert(q * u <= 0x1_0000_0000_0000_0000) by (nonlinear_arith)
        requires
            q <= wide / u + 1,
            wide / u < 0x20_0000_0000_0000,
            1 <= u <= 2048,
    ;
    q * u
}

/// `n / unit` with one decimal place, for a unit below 2^40.
pub fn tenths(n: u64, unit: u64) -> (r: String)
    requires
        0 < unit,
    ensures
        r@ == one_place(n as nat, unit as nat),
{
    let v = round_to_double(n);
    let t = round_half_even(v * 10, unit as u128);
    let mut s = decimal_wide(t / 10);
    s.push('.');
    s.push((48u8 + (t % 10) as u8) as char);
    assert(s@ =~= one_place(n as nat, unit as nat));
    s
}

/// Rounding goes to the nearest multiple, and between two to the even one.
pub proof fn rounding_is_to_the_nearest(n: nat, unit: nat)
    requires
        unit > 0,
    ensures
        ({
            let h = half_even(n, unit);
            &&& 2 * (h * unit - n) <= unit
            &&& 2 * (n - h * unit) <= unit
            &&& 2 * (h * unit - n) == unit || 2 * (n - h * unit) == unit ==> h % 2 == 0
        }),
{
    let q = n / unit;
    let r = n % unit;
    vstd::arithmetic::div_mod::lemma_fundamental_div_mod(n as int, unit as int);
    vstd::arithmetic::div_mod::lemma_mod_bound(n as int, unit as int);
    assert(n == q * unit + r) by {
        vstd::arithmetic::mul::lemma_mul_is_commutative(unit as int, q as int);
    }
    assert((q + 1) * unit == q * unit + unit) by (nonlinear_arith);
}

proof fn ulp_brackets(n: nat)
    ensures
        ulp(n) > 0,
        n < 0x20_0000_0000_0000 ==> ulp(n) == 1,
        n >= 0x20_0000_0000_0000 ==> 0x10_0000_0000_0000 * ulp(n) <= n < 0x20_0000_0000_0000 * ulp(
            n,
        ),
    decreases n,
{
    if n >= 0x20_0000_0000_0000 {
        ulp_brackets(n / 2);
    }
}

/// A number is told as the double-precision value nearest to it: itself where it has
/// at most 53 bits, and else a multiple of a spacing that leaves 53 bits, no further
/// off than half of it.
pub proof fn doubles_are_near(n: nat)
    ensures
        n < 0x20_0000_0000_0000 ==> nearest(n) == n,
        n >= 0x20_0000_0000_0000 ==> {
            let u = ulp(n);
            &&& 0x10_0000_0000_0000 * u <= n < 0x20_0000_0000_0000 * u
            &&& nearest(n) % u == 0
            &&& 2 * (nearest(n) - n) <= u
            &&& 2 * (n - nearest(n)) <= u
        },
{
    ulp_brackets(n);
    let u = ulp(n);
    rounding_is_to_the_nearest(n, u);
    if n < 0x20_0000_0000_0000 {
        assert(n / 1 == n && n % 1 == 0);
    }
    vstd::arithmetic::div_mod::lemma_mod_multiples_basic(half_even(n, u) as int, u as int);
}

/// A number in a unit is told to one place, rounded to the nearest tenth: the digits
/// before the point are its whole part and the one behind it its tenths.
pub proof fn one_place_is_the_nearest_tenth(n: nat, unit: nat)
    requires
        unit > 0,
    ensures
        exists|t: nat|
            one_place(n, unit) == #[trigger] decimal_of(t / 10) + seq!['.', digit_char(t % 10)] && 2
                * (t * unit - nearest(n) * 10) <= unit && 2 * (nearest(n) * 10 - t * unit) <= unit,
{
    rounding_is_to_the_nearest(nearest(n) * 10, unit);
    let t = half_even(nearest(n) * 10, unit);
    assert(one_place(n, unit) == decimal_of(t / 10) + seq!['.', digit_char(t % 10)]);
}

} // verus!
