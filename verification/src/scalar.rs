//! Single-precision numbers as this crate holds them: by their bit pattern,
//! turned into an integer key that orders as the numbers do.

use vstd::prelude::*;

verus! {

/// The key of positive infinity; the key of negative infinity is its negative.
pub const INFINITY_KEY: i32 = 0x7f80_0000;

/// The key of one, whose bit pattern is `0x3f80_0000`.
pub const ONE_KEY: i32 = 0x3f80_0000;

/// The key of negative infinity, below which there is no key.
pub const LOWEST_KEY: i32 = -0x7f80_0000;

/// The key that stands for the number with the given bit pattern.
///
/// A pattern is a sign bit above 31 bits of magnitude, and among numbers of one
/// sign a greater magnitude is farther from zero. So the key is the magnitude
/// with the sign of the number: both zeros get 0, and keys compare as the
/// numbers do. A pattern that encodes no number (magnitude above that of
/// infinity) gets the key of negative infinity: like negative infinity it is
/// above no depth and within no interval that starts at a number, and it
/// scales every channel to 0.
pub open spec fn key_of_bits(bits: u32) -> int {
    let magnitude = bits as int % 0x8000_0000;
    if magnitude > INFINITY_KEY {
        LOWEST_KEY as int
    } else if bits >= 0x8000_0000 {
        -magnitude
    } else {
        magnitude
    }
}

/// A single-precision number, known by its key.
#[derive(Clone, Copy, Debug, PartialEq, Eq, Structural)]
pub struct Scalar {
    key: i32,
}

impl View for Scalar {
    type V = int;

    closed spec fn view(&self) -> int {
        self.key as int
    }
}

impl Scalar {
    #[verifier::type_invariant]
    spec fn in_range(self) -> bool {
        LOWEST_KEY <= self.key <= INFINITY_KEY
    }

    /// The number with the given bit pattern.
    pub fn from_bits(bits: u32) -> (s: Scalar)
        ensures
            s@ == key_of_bits(bits),
    {
        let magnitude = bits % 0x8000_0000;
        if magnitude > 0x7f80_0000 {
            Scalar { key: LOWEST_KEY }
        } else if bits >= 0x8000_0000 {
            Scalar { key: -(magnitude as i32) }
        } else {
            Scalar { key: magnitude as i32 }
        }
    }

    /// Negative infinity: no scalar is below it.
    pub fn lowest() -> (s: Scalar)
        ensures
            s@ == LOWEST_KEY,
    {
        Scalar { key: LOWEST_KEY }
    }

    /// Zero.
    pub fn zero() -> (s: Scalar)
        ensures
            s@ == 0,
    {
        Scalar { key: 0 }
    }

    /// One.
    pub fn one() -> (s: Scalar)
        ensures
            s@ == ONE_KEY,
    {
        Scalar { key: ONE_KEY }
    }

    /// The key itself.
    pub fn key(&self) -> (k: i32)
        ensures
            k == self@,
            LOWEST_KEY <= k <= INFINITY_KEY,
    {
        proof {
            use_type_invariant(self);
        }
        self.key
    }

    /// The number brought into the interval from zero to one: what is below
    /// zero becomes zero, what is above one becomes one.
    pub fn clamped_to_unit(&self) -> (s: Scalar)
        ensures
            s@ == if self@ < 0 {
                0
            } else if self@ > ONE_KEY {
                ONE_KEY as int
            } else {
                self@
            },
    {
        if self.key < 0 {
            Scalar { key: 0 }
        } else if self.key > ONE_KEY {
            Scalar { key: ONE_KEY }
        } else {
            *self
        }
    }

    /// Whether this number is below the other.
    pub fn is_below(&self, other: &Scalar) -> (b: bool)
        ensures
            b == (self@ < other@),
    {
        self.key < other.key
    }

    /// Whether this number lies in the closed interval from `low` to `high`.
    pub fn is_within(&self, low: &Scalar, high: &Scalar) -> (b: bool)
        ensures
            b == (low@ <= self@ <= high@),
    {
        low.key <= self.key && self.key <= high.key
    }
}

/// The whole number `m` in the value `m * 2^e` of a positive finite key.
///
/// The key holds an exponent field above 23 bits of fraction. A field of zero
/// marks the numbers without a leading one; the others have it at the 24th bit.
pub open spec fn significand(key: int) -> int {
    if key / 0x80_0000 == 0 {
        key % 0x80_0000
    } else {
        0x80_0000 + key % 0x80_0000
    }
}

/// The power `e` in the value `m * 2^e` of a positive finite key.
pub open spec fn exponent(key: int) -> int {
    if key / 0x80_0000 == 0 {
        -149
    } else {
        key / 0x80_0000 - 150
    }
}

} // verus!
