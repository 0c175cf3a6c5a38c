//! Products of a whole number and a scalar, as single-precision arithmetic
//! gives them to a whole number: the way a colour is dimmed by light and a
//! texture coordinate finds its pixel.

use vstd::prelude::*;
use vstd::arithmetic::power2::{pow2, lemma_pow2_pos, lemma_pow2_unfold, lemma_pow2_adds, lemma_pow2_strictly_increases, lemma2_to64, lemma2_to64_rest};
use vstd::arithmetic::div_mod::{lemma_div_denominator, lemma_fundamental_div_mod, lemma_fundamental_div_mod_converse, lemma_mod_multiples_basic};
use crate::scalar::{exponent, significand, INFINITY_KEY, LOWEST_KEY, ONE_KEY};

verus! {

/// The power of two in whose multiples a number of the size of `n` is held:
/// the least one that leaves `n` no more than 24 bits.
pub open spec fn unit_of(n: nat) -> nat
    decreases n,
{
    if n < 0x100_0000 {
        1
    } else {
        2 * unit_of(n / 2)
    }
}

/// The multiple of `unit` nearest to `n`; halfway between two, the even one.
pub open spec fn rounded_to(n: nat, unit: nat) -> nat {
    let below = n / unit;
    let rest = n % unit;
    if 2 * rest > unit || (2 * rest == unit && below % 2 == 1) {
        (below + 1) * unit
    } else {
        below * unit
    }
}

/// A whole number as single precision holds it: rounded to 24 significant
/// bits.
pub open spec fn held(n: nat) -> nat {
    rounded_to(n, unit_of(n))
}

/// The whole number `n` times the number of the given key, as
/// single-precision arithmetic gives it to a whole number that stops at
/// `top`: `n` is held in single precision, the exact product with `m * 2^e`
/// is held in single precision, and of that the whole number toward zero is
/// taken, as far as `top`. Nothing below or at zero brings `n` above 0, and
/// infinity takes every `n` but 0 to `top`.
pub open spec fn scaled(n: nat, key: int, top: int) -> int {
    if key <= 0 || n == 0 {
        0
    } else if key == INFINITY_KEY {
        top
    } else {
        let product = held(held(n) * significand(key) as nat);
        let e = exponent(key);
        let whole = if e >= 0 {
            product * pow2(e as nat)
        } else {
            product / pow2((-e) as nat)
        };
        if whole > top {
            top
        } else {
            whole as int
        }
    }
}

/// A channel times the number of the given key, stopping at 255.
pub open spec fn scaled_channel(c: u8, key: int) -> int {
    scaled(c as nat, key, 255)
}

/// The unit of a number leaves it under 24 bits, and at least 23 where the
/// number had more.
proof fn lemma_unit_of(n: nat)
    ensures
        unit_of(n) >= 1,
        n / unit_of(n) < 0x100_0000,
        n >= 0x80_0000 ==> n / unit_of(n) >= 0x80_0000,
    decreases n,
{
    if n >= 0x100_0000 {
        lemma_unit_of(n / 2);
        lemma_div_denominator(n as int, 2, unit_of(n / 2) as int);
        assert(2 * unit_of(n / 2) == unit_of(n));
    }
}

/// Halving `shift` times is dividing by `2^shift`.
proof fn lemma_halve_again(n: nat, shift: nat)
    ensures
        (n / pow2(shift)) / 2 == n / pow2(shift + 1),
{
    lemma_pow2_pos(shift);
    lemma_pow2_unfold(shift + 1);
    lemma_div_denominator(n as int, pow2(shift) as int, 2);
}

/// What has come down to nothing stays nothing under further halving.
proof fn lemma_nothing_left(n: nat, done: nat, shift: nat)
    requires
        done <= shift,
        n / pow2(done) == 0,
    ensures
        n / pow2(shift) == 0,
{
    let more = (shift - done) as nat;
    lemma_pow2_pos(done);
    lemma_pow2_pos(more);
    lemma_pow2_adds(done, more);
    lemma_div_denominator(n as int, pow2(done) as int, pow2(more) as int);
}

/// A number that is a multiple of `2^k` and below `2^(24 + k)` is a multiple
/// of its unit, so it is held as it is.
proof fn lemma_held_exactly(n: nat, k: nat)
    requires
        n % pow2(k) == 0,
        n < 0x100_0000 * pow2(k),
    ensures
        held(n) == n,
        n % unit_of(n) == 0,
    decreases k,
{
    lemma_pow2_pos(k);
    assert(held(n) == rounded_to(n, unit_of(n)));
    if n >= 0x100_0000 {
        assert(k > 0) by {
            if k == 0 {
                lemma2_to64();
            }
        }
        let j = (k - 1) as nat;
        lemma_pow2_unfold(k);
        lemma_pow2_pos(j);
        let whole = n as int;
        let half = whole / 2;
        let p = pow2(j) as int;
        // n is a multiple of 2 * p, so its half is a multiple of p.
        lemma_fundamental_div_mod(whole, 2 * p);
        let q = whole / (2 * p);
        assert(whole == 2 * (p * q)) by (nonlinear_arith)
            requires
                whole == (2 * p) * q,
        ;
        assert(half == p * q);
        lemma_fundamental_div_mod_converse(half, p, q, 0);
        assert(half < 0x100_0000 * p) by (nonlinear_arith)
            requires
                whole < 0x100_0000 * (2 * p),
                whole == 2 * half,
        ;
        lemma_held_exactly(half as nat, j);
        let u = unit_of(half as nat) as int;
        lemma_unit_of(half as nat);
        // The half is a multiple of its unit, so the whole is one of twice that.
        lemma_fundamental_div_mod(half, u);
        let r = half / u;
        assert(whole == (2 * u) * r) by (nonlinear_arith)
            requires
                whole == 2 * half,
                half == u * r,
        ;
        lemma_fundamental_div_mod_converse(whole, 2 * u, r, 0);
        assert(unit_of(n) == 2 * u);
        assert(r * (2 * u) == whole) by (nonlinear_arith)
            requires
                whole == (2 * u) * r,
        ;
    }
}

/// Scaling by one leaves a channel as it is.
pub proof fn lemma_scaled_by_one(c: u8)
    ensures
        scaled_channel(c, ONE_KEY as int) == c,
{
    lemma2_to64();
    if c > 0 {
        let product = (c * 0x80_0000) as nat;
        assert(pow2(23) == 0x80_0000);
        assert(unit_of(c as nat) == 1);
        assert(held(c as nat) == rounded_to(c as nat, 1));
        lemma_mod_multiples_basic(c as int, 0x80_0000);
        lemma_held_exactly(product, 23);
        assert(significand(ONE_KEY as int) == 0x80_0000);
        assert(exponent(ONE_KEY as int) == -23);
        assert(product / 0x80_0000 == c);
    }
}

/// Scaling stays between 0 and the top.
pub proof fn lemma_scaled_in_range(n: nat, key: int, top: int)
    requires
        0 <= top,
    ensures
        0 <= scaled(n, key, top) <= top,
{
    if key > 0 && n != 0 && key != INFINITY_KEY {
        let product = held(held(n) * significand(key) as nat);
        let e = exponent(key);
        if e < 0 {
            lemma_pow2_pos((-e) as nat);
            vstd::arithmetic::div_mod::lemma_div_pos_is_pos(
                product as int,
                pow2((-e) as nat) as int,
            );
        } else {
            lemma_pow2_pos(e as nat);
            assert(product * pow2(e as nat) >= 0) by (nonlinear_arith)
                requires
                    product >= 0,
                    pow2(e as nat) >= 0,
            ;
        }
    }
}

/// A whole number as single precision holds it.
fn hold(n: u64) -> (kept: u64)
    requires
        n < 0x200_0000_0000_0000,
    ensures
        kept == held(n as nat),
        kept <= 2 * n,
        n >= 1 ==> kept >= 1,
        n >= 0x80_0000 ==> kept >= 0x80_0000,
{
    let ghost exact = n as nat;
    // The unit in which the number is held, and how many of it fit below.
    let mut unit: u64 = 1;
    let mut below: u64 = n;
    while below >= 0x100_0000
        invariant
            unit >= 1,
            exact == n,
            n < 0x200_0000_0000_0000,
            unit_of(exact) == unit * unit_of(below as nat),
            below == exact / (unit as nat),
            unit * below <= exact,
            unit == 1 || below >= 0x80_0000,
        decreases below,
    {
        proof {
            lemma_div_denominator(exact as int, unit as int, 2);
            assert(unit * 2 * (below / 2) <= unit * below) by (nonlinear_arith)
                requires
                    unit >= 1,
                    2 * (below / 2) <= below,
            ;
            assert(unit * (2 * unit_of((below / 2) as nat)) == (unit * 2) * unit_of(
                (below / 2) as nat,
            )) by (nonlinear_arith);
            assert(unit * 2 <= 0x8_0000_0000) by (nonlinear_arith)
                requires
                    unit * below < 0x200_0000_0000_0000,
                    below >= 0x100_0000,
                    unit >= 1,
            ;
        }
        below = below / 2;
        unit = unit * 2;
    }
    assert(unit_of(exact) == unit) by (nonlinear_arith)
        requires
            unit_of(exact) == unit * unit_of(below as nat),
            unit_of(below as nat) == 1,
    ;
    assert(unit <= 0x4_0000_0000) by (nonlinear_arith)
        requires
            unit * below < 0x200_0000_0000_0000,
            unit >= 1,
            unit == 1 || below >= 0x80_0000,
    ;
    let rest = n % unit;
    let up = 2 * rest > unit || (2 * rest == unit && below % 2 == 1);
    let multiples = if up {
        below + 1
    } else {
        below
    };
    proof {
        assert(multiples * unit <= 0x400_0000_0000_0000) by (nonlinear_arith)
            requires
                multiples <= 0x100_0000,
                unit <= 0x4_0000_0000,
                0 <= multiples,
        ;
        lemma_unit_of(exact);
        lemma_fundamental_div_mod(n as int, unit as int);
        if n >= 1 {
            // Either the number is small and held as it is, or at least 2^23
            // units are held.
            assert(multiples * unit >= 1) by (nonlinear_arith)
                requires
                    multiples >= 1,
                    unit >= 1,
            ;
            assert(unit <= n) by (nonlinear_arith)
                requires
                    unit * below <= n,
                    below >= 1,
                    unit >= 1,
            ;
        }
        assert(multiples * unit <= unit * below + unit) by (nonlinear_arith)
            requires
                multiples <= below + 1,
                unit >= 1,
        ;
        if n >= 0x80_0000 {
            assert(multiples * unit >= 0x80_0000) by (nonlinear_arith)
                requires
                    multiples >= 0x80_0000,
                    unit >= 1,
            ;
        }
    }
    multiples * unit
}

/// The whole number `n` times the number of the given key, stopping at `top`.
pub(crate) fn scale_whole(n: u32, key: i32, top: u32) -> (product: u32)
    requires
        LOWEST_KEY <= key <= INFINITY_KEY,
    ensures
        product == scaled(n as nat, key as int, top as int),
{
    if key <= 0 || n == 0 {
        return 0;
    }
    if key == INFINITY_KEY {
        return top;
    }
    let field = key / 0x80_0000;
    let fraction = (key % 0x80_0000) as u64;
    let mantissa: u64 = if field == 0 {
        fraction
    } else {
        0x80_0000 + fraction
    };
    let first = hold(n as u64);
    assert(first * mantissa < 0x200_0000_0000_0000) by (nonlinear_arith)
        requires
            0 <= first < 0x2_0000_0000,
            0 <= mantissa < 0x100_0000,
    ;
    let kept = hold(first * mantissa);
    if field >= 150 {
        // The factor is at least 2^23 and the product no less.
        proof {
            lemma_pow2_pos((field - 150) as nat);
            assert(first * mantissa >= 0x80_0000) by (nonlinear_arith)
                requires
                    first >= 1,
                    mantissa >= 0x80_0000,
            ;
        }
        if kept > top as u64 {
            proof {
                assert(kept * pow2((field - 150) as nat) > top) by (nonlinear_arith)
                    requires
                        kept > top,
                        pow2((field - 150) as nat) >= 1,
                ;
            }
            return top;
        }
        if field >= 160 {
            proof {
                lemma2_to64();
                if field > 160 {
                    lemma_pow2_strictly_increases(10, (field - 150) as nat);
                }
                assert(kept * pow2((field - 150) as nat) > top) by (nonlinear_arith)
                    requires
                        kept >= 0x80_0000,
                        pow2((field - 150) as nat) >= 0x400,
                        top <= 0xffff_ffff,
                ;
            }
            return top;
        }
        let mut whole: u64 = kept;
        let mut done: i32 = 0;
        proof {
            lemma2_to64();
            assert(kept * pow2(0) == kept) by (nonlinear_arith)
                requires
                    pow2(0) == 1,
            ;
        }
        while done < field - 150
            invariant
                150 <= field < 160,
                0 <= done <= field - 150,
                kept <= 0xffff_ffff,
                whole == kept * pow2(done as nat),
                whole <= kept * 0x200,
            decreases field - 150 - done,
        {
            proof {
                lemma_pow2_unfold((done + 1) as nat);
                lemma2_to64();
                lemma_pow2_strictly_increases((done + 1) as nat, 10);
                assert(kept * (2 * pow2(done as nat)) == 2 * (kept * pow2(done as nat)))
                    by (nonlinear_arith);
                assert(kept * pow2((done + 1) as nat) <= kept * 0x200) by (nonlinear_arith)
                    requires
                        pow2((done + 1) as nat) <= 0x200,
                        kept >= 0,
                ;
            }
            whole = whole * 2;
            done = done + 1;
        }
        return if whole > top as u64 {
            top
        } else {
            whole as u32
        };
    }
    let shift: u32 = if field == 0 {
        149
    } else {
        (150 - field) as u32
    };
    let mut whole: u64 = kept;
    let mut done: u32 = 0;
    proof {
        lemma2_to64();
    }
    while done < shift && whole > 0
        invariant
            done <= shift,
            whole == (kept as nat) / pow2(done as nat),
        decreases shift - done,
    {
        proof {
            lemma_halve_again(kept as nat, done as nat);
        }
        whole = whole / 2;
        done = done + 1;
    }
    proof {
        if whole == 0 {
            lemma_nothing_left(kept as nat, done as nat, shift as nat);
        }
    }
    if whole > top as u64 {
        top
    } else {
        whole as u32
    }
}

/// A channel times the number of the given key.
pub(crate) fn scale_channel(c: u8, key: i32) -> (product: u8)
    requires
        LOWEST_KEY <= key <= INFINITY_KEY,
    ensures
        product == scaled_channel(c, key as int),
{
    scale_whole(c as u32, key, 255) as u8
}

} // verus!
