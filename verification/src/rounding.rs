//! From scalars to whole numbers: the whole number below, the one above, and
//! the pixel that a coordinate falls on.

use vstd::prelude::*;
use vstd::arithmetic::power2::{pow2, lemma_pow2_pos, lemma_pow2_unfold, lemma_pow2_strictly_increases, lemma2_to64};
use crate::scalar::{exponent, significand, Scalar, INFINITY_KEY, LOWEST_KEY};

verus! {

/// The greatest whole number that is not above the number of a key that is
/// not negative and not infinite: with the value `m * 2^e`, that is `m * 2^e`
/// itself where `e` is not negative, and `m` divided by `2^-e`, rounded
/// down, elsewhere.
pub open spec fn whole_below(key: int) -> int {
    let m = significand(key);
    let e = exponent(key);
    if e >= 0 {
        m * pow2(e as nat)
    } else {
        m / (pow2((-e) as nat) as int)
    }
}

/// The least whole number that is not below the number of a key that is not
/// negative and not infinite.
pub open spec fn whole_above(key: int) -> int {
    let m = significand(key);
    let e = exponent(key);
    if e >= 0 {
        m * pow2(e as nat)
    } else {
        (m + pow2((-e) as nat) - 1) / (pow2((-e) as nat) as int)
    }
}

/// The whole number nearest to the number of a key that is not negative and
/// not infinite, a half going up.
pub open spec fn whole_nearest(key: int) -> int {
    let m = significand(key);
    let e = exponent(key);
    if e >= 0 {
        m * pow2(e as nat)
    } else {
        (2 * m + pow2((-e) as nat)) / (2 * pow2((-e) as nat) as int)
    }
}

/// A whole number brought into 32 bits with a sign.
pub open spec fn in_32_bits(whole: int) -> int {
    if whole > i32::MAX {
        i32::MAX as int
    } else if whole < i32::MIN {
        i32::MIN as int
    } else {
        whole
    }
}

/// The greatest whole number that is not above the number of a key, within 32
/// bits: below zero it is the negative of the whole number above the
/// magnitude, and the infinities give the ends of the 32 bits.
pub open spec fn floor_of(key: int) -> int {
    if key >= INFINITY_KEY {
        i32::MAX as int
    } else if key <= LOWEST_KEY {
        i32::MIN as int
    } else if key >= 0 {
        in_32_bits(whole_below(key))
    } else {
        in_32_bits(-whole_above(-key))
    }
}

/// The least whole number that is not below the number of a key, within 32
/// bits.
pub open spec fn ceil_of(key: int) -> int {
    if key >= INFINITY_KEY {
        i32::MAX as int
    } else if key <= LOWEST_KEY {
        i32::MIN as int
    } else if key >= 0 {
        in_32_bits(whole_above(key))
    } else {
        in_32_bits(-whole_below(-key))
    }
}

/// The pixel that a coordinate falls on: none, told by -1, for a coordinate
/// below zero, however little; else the nearest whole number, a half going up,
/// as far as 63 bits go.
pub open spec fn pixel_of(key: int) -> int {
    if key < 0 {
        -1
    } else if key >= INFINITY_KEY || whole_nearest(key) > i64::MAX {
        i64::MAX as int
    } else {
        whole_nearest(key)
    }
}

/// `2^shift`, for a shift that leaves it in 64 bits.
fn power_of_two(shift: u32) -> (power: u64)
    requires
        shift < 63,
    ensures
        power == pow2(shift as nat),
        power >= 1,
{
    let mut power: u64 = 1;
    let mut done: u32 = 0;
    proof {
        lemma2_to64();
    }
    while done < shift
        invariant
            done <= shift,
            shift < 63,
            power == pow2(done as nat),
            power >= 1,
        decreases shift - done,
    {
        proof {
            lemma_pow2_unfold((done + 1) as nat);
            lemma_pow2_strictly_increases((done + 1) as nat, 63);
            lemma2_to64();
            vstd::arithmetic::power2::lemma2_to64_rest();
        }
        power = power * 2;
        done = done + 1;
    }
    power
}

/// The significand and the exponent of a key that is not negative and not
/// infinite.
fn parts(key: i32) -> (parts: (u64, i32))
    requires
        0 <= key < INFINITY_KEY,
    ensures
        parts.0 == significand(key as int),
        parts.1 == exponent(key as int),
        parts.0 < 0x100_0000,
        -149 <= parts.1 <= 104,
        parts.1 > -149 ==> parts.0 >= 0x80_0000,
{
    let field = key / 0x80_0000;
    let fraction = (key % 0x80_0000) as u64;
    if field == 0 {
        (fraction, -149)
    } else {
        (0x80_0000 + fraction, field - 150)
    }
}

/// A power of two from the 25th on is above every significand.
proof fn lemma_above_significands(shift: nat)
    requires
        shift >= 25,
    ensures
        pow2(shift) >= 0x200_0000,
{
    lemma2_to64();
    if shift > 25 {
        lemma_pow2_strictly_increases(25, shift);
    }
}

/// The whole numbers below, above and nearest to the number of a key that is
/// not negative and not infinite; `None` where they do not fit in 63 bits.
fn wholes(key: i32) -> (wholes: Option<(u64, u64, u64)>)
    requires
        0 <= key < INFINITY_KEY,
    ensures
        match wholes {
            Some((below, above, nearest)) => below == whole_below(key as int) && above
                == whole_above(key as int) && nearest == whole_nearest(key as int) && above
                <= 0x7fff_ffff_ffff_ffff,
            None => whole_below(key as int) > i64::MAX && whole_above(key as int) > i64::MAX
                && whole_nearest(key as int) > i64::MAX,
        },
{
    let (m, e) = parts(key);
    if e >= 40 {
        proof {
            lemma2_to64();
            vstd::arithmetic::power2::lemma2_to64_rest();
            if e > 40 {
                lemma_pow2_strictly_increases(40, e as nat);
            }
            assert(m * pow2(e as nat) > i64::MAX) by (nonlinear_arith)
                requires
                    m >= 0x80_0000,
                    pow2(e as nat) >= 0x100_0000_0000,
            ;
        }
        None
    } else if e >= 0 {
        let power = power_of_two(e as u32);
        proof {
            lemma2_to64();
            vstd::arithmetic::power2::lemma2_to64_rest();
            if e < 39 {
                lemma_pow2_strictly_increases(e as nat, 39);
            }
            assert(m * power < 0x8000_0000_0000_0000) by (nonlinear_arith)
                requires
                    0 <= m < 0x100_0000,
                    0 <= power <= 0x80_0000_0000,
            ;
        }
        let whole = m * power;
        Some((whole, whole, whole))
    } else if e <= -25 {
        let above: u64 = if m > 0 {
            1
        } else {
            0
        };
        proof {
            lemma_above_significands((-e) as nat);
            let power = pow2((-e) as nat) as int;
            vstd::arithmetic::div_mod::lemma_fundamental_div_mod_converse(m as int, power, 0, m as int);
            vstd::arithmetic::div_mod::lemma_fundamental_div_mod_converse(
                2 * m + power,
                2 * power,
                0,
                2 * m + power,
            );
            if m > 0 {
                vstd::arithmetic::div_mod::lemma_fundamental_div_mod_converse(
                    m + power - 1,
                    power,
                    1,
                    m - 1,
                );
            } else {
                vstd::arithmetic::div_mod::lemma_fundamental_div_mod_converse(
                    power - 1,
                    power,
                    0,
                    power - 1,
                );
            }
        }
        Some((0, above, 0))
    } else {
        let power = power_of_two((-e) as u32);
        proof {
            lemma2_to64();
            lemma_pow2_strictly_increases((-e) as nat, 25);
        }
        Some((m / power, (m + power - 1) / power, (2 * m + power) / (2 * power)))
    }
}

impl Scalar {
    /// The greatest whole number that is not above this number, within 32 bits.
    pub fn floor(&self) -> (whole: i32)
        ensures
            whole == floor_of(self@),
    {
        let key = self.key();
        if key >= INFINITY_KEY {
            i32::MAX
        } else if key <= LOWEST_KEY {
            i32::MIN
        } else if key >= 0 {
            match wholes(key) {
                Some((below, _, _)) if below <= 0x7fff_ffff => below as i32,
                _ => i32::MAX,
            }
        } else {
            match wholes(-key) {
                Some((_, above, _)) if above <= 0x8000_0000 => (-(above as i64)) as i32,
                _ => i32::MIN,
            }
        }
    }

    /// The least whole number that is not below this number, within 32 bits.
    pub fn ceil(&self) -> (whole: i32)
        ensures
            whole == ceil_of(self@),
    {
        let key = self.key();
        if key >= INFINITY_KEY {
            i32::MAX
        } else if key <= LOWEST_KEY {
            i32::MIN
        } else if key >= 0 {
            match wholes(key) {
                Some((_, above, _)) if above <= 0x7fff_ffff => above as i32,
                _ => i32::MAX,
            }
        } else {
            match wholes(-key) {
                Some((below, _, _)) if below <= 0x8000_0000 => (-(below as i64)) as i32,
                _ => i32::MIN,
            }
        }
    }

    /// The pixel that this coordinate falls on, or -1 where it lies below
    /// zero.
    pub fn pixel(&self) -> (pixel: i64)
        ensures
            pixel == pixel_of(self@),
    {
        let key = self.key();
        if key < 0 {
            -1
        } else if key >= INFINITY_KEY {
            i64::MAX
        } else {
            match wholes(key) {
                Some((_, _, nearest)) if nearest <= 0x7fff_ffff_ffff_ffff => nearest as i64,
                _ => i64::MAX,
            }
        }
    }
}

} // verus!
