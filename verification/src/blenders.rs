//! The blend modes: seventeen ways to combine a base colour with a colour
//! laid over it, each worked out channel by channel on 0 to 255.

use vstd::prelude::*;
use crate::color::{saturating_difference, saturating_sum, Color};

verus! {

/// How a colour is laid over the colour beneath it.
#[derive(Clone, Copy, Debug, PartialEq, Eq, Structural)]
pub enum BlendMode {
    Normal,
    Add,
    Subtract,
    Multiply,
    Screen,
    Overlay,
    Darken,
    Lighten,
    Dodge,
    Burn,
    HardLight,
    SoftLight,
    Difference,
    Exclusion,
    Replace,
    /// As `Replace`, but a pure white overlay leaves the base as it is.
    IgnoreWhiteReplace,
    /// As `Add`, but a pure white overlay leaves the base as it is.
    IgnoreWhiteAdd,
}

/// `base * blend / 255`, rounded down.
pub open spec fn multiply_channel(base: u8, blend: u8) -> int {
    base * blend / 255
}

/// `255 - (255 - base) * (255 - blend) / 255`, the quotient rounded down.
pub open spec fn screen_channel(base: u8, blend: u8) -> int {
    255 - (255 - base) * (255 - blend) / 255
}

/// Multiply doubled on a dark base, screen doubled on a light one.
pub open spec fn overlay_channel(base: u8, blend: u8) -> int {
    if base < 128 {
        2 * base * blend / 255
    } else {
        255 - 2 * (255 - base) * (255 - blend) / 255
    }
}

pub open spec fn darken_channel(base: u8, blend: u8) -> int {
    if base <= blend {
        base as int
    } else {
        blend as int
    }
}

pub open spec fn lighten_channel(base: u8, blend: u8) -> int {
    if base >= blend {
        base as int
    } else {
        blend as int
    }
}

/// The base divided by the inverse of the overlay, stopping at 255.
pub open spec fn dodge_channel(base: u8, blend: u8) -> int {
    if blend == 255 {
        255
    } else if base * 255 / (255 - blend) > 255 {
        255
    } else {
        base * 255 / (255 - blend)
    }
}

/// The inverse of: the inverted base divided by the overlay, stopping at 255.
pub open spec fn burn_channel(base: u8, blend: u8) -> int {
    if blend == 0 {
        0
    } else if (255 - base) * 255 / (blend as int) > 255 {
        0
    } else {
        255 - (255 - base) * 255 / (blend as int)
    }
}

pub open spec fn difference_channel(base: u8, blend: u8) -> int {
    if base >= blend {
        base - blend
    } else {
        blend - base
    }
}

/// `base + blend - 2 * base * blend / 255`, the quotient rounded down.
pub open spec fn exclusion_channel(base: u8, blend: u8) -> int {
    base + blend - 2 * base * blend / 255
}

/// Whether `root` is the greatest number whose square does not pass `n`.
pub open spec fn is_floor_sqrt(n: nat, root: nat) -> bool {
    root * root <= n < (root + 1) * (root + 1)
}

/// The greatest number whose square does not pass `n`.
pub open spec fn floor_sqrt(n: nat) -> nat {
    choose|root: nat| is_floor_sqrt(n, root)
}

/// The soft-light channel of the W3C compositing rules, rounded to the
/// nearest integer, a half going up.
///
/// With `b = base / 255` and `s = blend / 255` the rules give
/// `b - (1 - 2s) * b * (1 - b)` where `s <= 1/2`, and
/// `b + (2s - 1) * (d - b)` elsewhere, with
/// `d = ((16b - 12) * b + 4) * b` where `b <= 1/4` and `d = sqrt(b)`
/// elsewhere. Each branch below is that value times 255 plus a half, as a
/// quotient of integers, rounded down.
pub open spec fn soft_light_channel(base: u8, blend: u8) -> int {
    let k = 2 * blend - 255;
    if 2 * blend <= 255 {
        (2 * (65025 * base - (255 - 2 * blend) * base * (255 - base)) + 65025) / 130050
    } else if 4 * base <= 255 {
        (2 * (16581375 * base + k * base * (16 * base * base - 3060 * base + 195075))
            + 16581375) / 33162750
    } else {
        (510 * base + 255 - 2 * k * base + floor_sqrt((4 * k * k * 255 * base) as nat)) / 510
    }
}

impl Color {
    /// The overlay, unless it is black: then the base.
    pub open spec fn normal(self, blend: Color) -> Color {
        if blend == (Color { r: 0, g: 0, b: 0 }) {
            self
        } else {
            blend
        }
    }

    pub open spec fn multiplied(self, blend: Color) -> Color {
        Color {
            r: multiply_channel(self.r, blend.r) as u8,
            g: multiply_channel(self.g, blend.g) as u8,
            b: multiply_channel(self.b, blend.b) as u8,
        }
    }

    pub open spec fn screened(self, blend: Color) -> Color {
        Color {
            r: screen_channel(self.r, blend.r) as u8,
            g: screen_channel(self.g, blend.g) as u8,
            b: screen_channel(self.b, blend.b) as u8,
        }
    }

    pub open spec fn overlaid(self, blend: Color) -> Color {
        Color {
            r: overlay_channel(self.r, blend.r) as u8,
            g: overlay_channel(self.g, blend.g) as u8,
            b: overlay_channel(self.b, blend.b) as u8,
        }
    }

    pub open spec fn darkened(self, blend: Color) -> Color {
        Color {
            r: darken_channel(self.r, blend.r) as u8,
            g: darken_channel(self.g, blend.g) as u8,
            b: darken_channel(self.b, blend.b) as u8,
        }
    }

    pub open spec fn lightened(self, blend: Color) -> Color {
        Color {
            r: lighten_channel(self.r, blend.r) as u8,
            g: lighten_channel(self.g, blend.g) as u8,
            b: lighten_channel(self.b, blend.b) as u8,
        }
    }

    pub open spec fn dodged(self, blend: Color) -> Color {
        Color {
            r: dodge_channel(self.r, blend.r) as u8,
            g: dodge_channel(self.g, blend.g) as u8,
            b: dodge_channel(self.b, blend.b) as u8,
        }
    }

    pub open spec fn burned(self, blend: Color) -> Color {
        Color {
            r: burn_channel(self.r, blend.r) as u8,
            g: burn_channel(self.g, blend.g) as u8,
            b: burn_channel(self.b, blend.b) as u8,
        }
    }

    pub open spec fn soft_lit(self, blend: Color) -> Color {
        Color {
            r: soft_light_channel(self.r, blend.r) as u8,
            g: soft_light_channel(self.g, blend.g) as u8,
            b: soft_light_channel(self.b, blend.b) as u8,
        }
    }

    pub open spec fn differing(self, blend: Color) -> Color {
        Color {
            r: difference_channel(self.r, blend.r) as u8,
            g: difference_channel(self.g, blend.g) as u8,
            b: difference_channel(self.b, blend.b) as u8,
        }
    }

    pub open spec fn excluded(self, blend: Color) -> Color {
        Color {
            r: exclusion_channel(self.r, blend.r) as u8,
            g: exclusion_channel(self.g, blend.g) as u8,
            b: exclusion_channel(self.b, blend.b) as u8,
        }
    }

    /// What laying `blend` over this colour in the given mode gives.
    /// Hard light takes the overlay formula with the operands as they are.
    pub open spec fn blended(self, blend: Color, mode: BlendMode) -> Color {
        match mode {
            BlendMode::Normal => self.normal(blend),
            BlendMode::Add => self.plus(blend),
            BlendMode::Subtract => self.minus(blend),
            BlendMode::Multiply => self.multiplied(blend),
            BlendMode::Screen => self.screened(blend),
            BlendMode::Overlay => self.overlaid(blend),
            BlendMode::Darken => self.darkened(blend),
            BlendMode::Lighten => self.lightened(blend),
            BlendMode::Dodge => self.dodged(blend),
            BlendMode::Burn => self.burned(blend),
            BlendMode::HardLight => self.overlaid(blend),
            BlendMode::SoftLight => self.soft_lit(blend),
            BlendMode::Difference => self.differing(blend),
            BlendMode::Exclusion => self.excluded(blend),
            BlendMode::Replace => blend,
            BlendMode::IgnoreWhiteReplace => if blend == (Color { r: 255, g: 255, b: 255 }) {
                self
            } else {
                blend
            },
            BlendMode::IgnoreWhiteAdd => if blend == (Color { r: 255, g: 255, b: 255 }) {
                self
            } else {
                self.plus(blend)
            },
        }
    }

    /// Lays `blend` over this colour in the given mode.
    pub fn blend(&self, blend: &Color, strategy: &BlendMode) -> (c: Color)
        ensures
            c == self.blended(*blend, *strategy),
    {
        match strategy {
            BlendMode::Normal => self.blend_normal(blend),
            BlendMode::Add => self.blend_add(blend),
            BlendMode::Subtract => self.blend_subtract(blend),
            BlendMode::Multiply => self.blend_multiply(blend),
            BlendMode::Screen => self.blend_screen(blend),
            BlendMode::Overlay => self.blend_overlay(blend),
            BlendMode::Darken => self.blend_darken(blend),
            BlendMode::Lighten => self.blend_lighten(blend),
            BlendMode::Dodge => self.blend_color_dodge(blend),
            BlendMode::Burn => self.blend_color_burn(blend),
            BlendMode::HardLight => self.blend_hard_light(blend),
            BlendMode::SoftLight => self.blend_soft_light(blend),
            BlendMode::Difference => self.blend_difference(blend),
            BlendMode::Exclusion => self.blend_exclusion(blend),
            BlendMode::Replace => *blend,
            BlendMode::IgnoreWhiteReplace => if blend.is_white() {
                *self
            } else {
                *blend
            },
            BlendMode::IgnoreWhiteAdd => if blend.is_white() {
                *self
            } else {
                self.blend_add(blend)
            },
        }
    }

    pub fn blend_normal(&self, blend: &Color) -> (c: Color)
        ensures
            c == self.normal(*blend),
    {
        if blend.is_black() {
            *self
        } else {
            *blend
        }
    }

    pub fn blend_add(&self, blend: &Color) -> (c: Color)
        ensures
            c == self.plus(*blend),
    {
        self.saturating_add(blend)
    }

    pub fn blend_subtract(&self, blend: &Color) -> (c: Color)
        ensures
            c == self.minus(*blend),
    {
        self.saturating_sub(blend)
    }

    pub fn blend_multiply(&self, blend: &Color) -> (c: Color)
        ensures
            c == self.multiplied(*blend),
    {
        Color::new(
            multiply(self.r, blend.r),
            multiply(self.g, blend.g),
            multiply(self.b, blend.b),
        )
    }

    pub fn blend_screen(&self, blend: &Color) -> (c: Color)
        ensures
            c == self.screened(*blend),
    {
        Color::new(screen(self.r, blend.r), screen(self.g, blend.g), screen(self.b, blend.b))
    }

    pub fn blend_overlay(&self, blend: &Color) -> (c: Color)
        ensures
            c == self.overlaid(*blend),
    {
        Color::new(
            overlay(self.r, blend.r),
            overlay(self.g, blend.g),
            overlay(self.b, blend.b),
        )
    }

    pub fn blend_darken(&self, blend: &Color) -> (c: Color)
        ensures
            c == self.darkened(*blend),
    {
        Color::new(
            if self.r <= blend.r { self.r } else { blend.r },
            if self.g <= blend.g { self.g } else { blend.g },
            if self.b <= blend.b { self.b } else { blend.b },
        )
    }

    pub fn blend_lighten(&self, blend: &Color) -> (c: Color)
        ensures
            c == self.lightened(*blend),
    {
        Color::new(
            if self.r >= blend.r { self.r } else { blend.r },
            if self.g >= blend.g { self.g } else { blend.g },
            if self.b >= blend.b { self.b } else { blend.b },
        )
    }

    pub fn blend_color_dodge(&self, blend: &Color) -> (c: Color)
        ensures
            c == self.dodged(*blend),
    {
        Color::new(dodge(self.r, blend.r), dodge(self.g, blend.g), dodge(self.b, blend.b))
    }

    pub fn blend_color_burn(&self, blend: &Color) -> (c: Color)
        ensures
            c == self.burned(*blend),
    {
        Color::new(burn(self.r, blend.r), burn(self.g, blend.g), burn(self.b, blend.b))
    }

    /// The overlay formula, with base and overlay in the same roles.
    pub fn blend_hard_light(&self, blend: &Color) -> (c: Color)
        ensures
            c == self.overlaid(*blend),
    {
        self.blend_overlay(blend)
    }

    pub fn blend_soft_light(&self, blend: &Color) -> (c: Color)
        ensures
            c == self.soft_lit(*blend),
    {
        Color::new(
            soft_light(self.r, blend.r),
            soft_light(self.g, blend.g),
            soft_light(self.b, blend.b),
        )
    }

    pub fn blend_difference(&self, blend: &Color) -> (c: Color)
        ensures
            c == self.differing(*blend),
    {
        Color::new(
            if self.r >= blend.r { self.r - blend.r } else { blend.r - self.r },
            if self.g >= blend.g { self.g - blend.g } else { blend.g - self.g },
            if self.b >= blend.b { self.b - blend.b } else { blend.b - self.b },
        )
    }

    pub fn blend_exclusion(&self, blend: &Color) -> (c: Color)
        ensures
            c == self.excluded(*blend),
    {
        Color::new(
            exclusion(self.r, blend.r),
            exclusion(self.g, blend.g),
            exclusion(self.b, blend.b),
        )
    }
}

/// Two channels multiply to at most `255 * 255`.
proof fn lemma_channel_product(a: int, b: int)
    requires
        0 <= a <= 255,
        0 <= b <= 255,
    ensures
        0 <= a * b <= 65025,
{
    assert(0 <= a * b <= 65025) by (nonlinear_arith)
        requires
            0 <= a <= 255,
            0 <= b <= 255,
    ;
}

fn multiply(base: u8, blend: u8) -> (c: u8)
    ensures
        c == multiply_channel(base, blend),
{
    proof {
        lemma_channel_product(base as int, blend as int);
    }
    ((base as u32 * blend as u32) / 255) as u8
}

fn screen(base: u8, blend: u8) -> (c: u8)
    ensures
        c == screen_channel(base, blend),
{
    let inverse_base = 255 - base as u32;
    let inverse_blend = 255 - blend as u32;
    proof {
        lemma_channel_product(inverse_base as int, inverse_blend as int);
    }
    (255 - inverse_base * inverse_blend / 255) as u8
}

fn overlay(base: u8, blend: u8) -> (c: u8)
    ensures
        c == overlay_channel(base, blend),
{
    if base < 128 {
        proof {
            lemma_channel_product(base as int, blend as int);
            assert(base * blend <= 127 * 255) by (nonlinear_arith)
                requires
                    0 <= base <= 127,
                    0 <= blend <= 255,
            ;
            assert(2 * base * blend == 2 * (base * blend)) by (nonlinear_arith);
        }
        (2 * (base as u32 * blend as u32) / 255) as u8
    } else {
        let inverse_base = 255 - base as u32;
        let inverse_blend = 255 - blend as u32;
        proof {
            lemma_channel_product(inverse_base as int, inverse_blend as int);
            assert(inverse_base * inverse_blend <= 127 * 255) by (nonlinear_arith)
                requires
                    0 <= inverse_base <= 127,
                    0 <= inverse_blend <= 255,
            ;
            assert(2 * (255 - base) * (255 - blend) == 2 * (inverse_base * inverse_blend))
                by (nonlinear_arith)
                requires
                    inverse_base == 255 - base,
                    inverse_blend == 255 - blend,
            ;
        }
        (255 - 2 * (inverse_base * inverse_blend) / 255) as u8
    }
}

fn dodge(base: u8, blend: u8) -> (c: u8)
    ensures
        c == dodge_channel(base, blend),
{
    if blend == 255 {
        255
    } else {
        let quotient = (base as u32 * 255) / (255 - blend as u32);
        if quotient > 255 {
            255
        } else {
            quotient as u8
        }
    }
}

fn burn(base: u8, blend: u8) -> (c: u8)
    ensures
        c == burn_channel(base, blend),
{
    if blend == 0 {
        0
    } else {
        let quotient = ((255 - base as u32) * 255) / (blend as u32);
        if quotient > 255 {
            0
        } else {
            (255 - quotient) as u8
        }
    }
}

fn exclusion(base: u8, blend: u8) -> (c: u8)
    ensures
        c == exclusion_channel(base, blend),
{
    proof {
        lemma_channel_product(base as int, blend as int);
        assert(2 * base * blend == 2 * (base * blend)) by (nonlinear_arith);
        lemma_exclusion_in_range(base as int, blend as int);
    }
    (base as u32 + blend as u32 - 2 * (base as u32 * blend as u32) / 255) as u8
}

/// A number between a square and the next square has the root of the first
/// for its `floor_sqrt`.
pub proof fn lemma_floor_sqrt_is(n: nat, t: nat)
    requires
        is_floor_sqrt(n, t),
    ensures
        floor_sqrt(n) == t,
{
    let s = floor_sqrt(n);
    assert(is_floor_sqrt(n, s));
    if s < t {
        assert((s + 1) * (s + 1) <= t * t) by (nonlinear_arith)
            requires
                0 <= s + 1 <= t,
        ;
    } else if s > t {
        assert((t + 1) * (t + 1) <= s * s) by (nonlinear_arith)
            requires
                0 <= t + 1 <= s,
        ;
    }
}

/// The greatest number whose square does not pass `n`, found by halving
/// the interval that holds it.
fn integer_sqrt(n: u64) -> (root: u64)
    requires
        n < 0x4_0000_0000,
    ensures
        root == floor_sqrt(n as nat),
        is_floor_sqrt(n as nat, root as nat),
{
    let mut low: u64 = 0;
    let mut high: u64 = 0x2_0000;
    while high - low > 1
        invariant
            low < high <= 0x2_0000,
            low * low <= n < high * high,
        decreases high - low,
    {
        let middle = low + (high - low) / 2;
        assert(middle * middle < 0x4_0000_0000) by (nonlinear_arith)
            requires
                0 <= middle < 0x2_0000,
        ;
        if middle * middle <= n {
            low = middle;
        } else {
            high = middle;
        }
    }
    proof {
        lemma_floor_sqrt_is(n as nat, low as nat);
    }
    low
}

fn soft_light(base: u8, blend: u8) -> (c: u8)
    ensures
        c == soft_light_channel(base, blend),
{
    let b = base as u64;
    let s = blend as u64;
    if 2 * s <= 255 {
        proof {
            lemma_channel_product(255 - 2 * s, 255 - b);
        }
        let weight = (255 - 2 * s) * (255 - b);
        proof {
            assert(weight * b <= 65025 * b) by (nonlinear_arith)
                requires
                    0 <= weight <= 65025,
                    0 <= b,
            ;
            assert((255 - 2 * blend) * base * (255 - base) == weight * b) by (nonlinear_arith)
                requires
                    weight == (255 - 2 * blend) * (255 - base),
                    b == base,
            ;
        }
        let numerator = 65025 * b - weight * b;
        ((2 * numerator + 65025) / 130050) as u8
    } else if 4 * b <= 255 {
        let k = 2 * s - 255;
        proof {
            assert(b * b <= 63 * 63) by (nonlinear_arith)
                requires
                    0 <= b <= 63,
            ;
        }
        let curve = 16 * (b * b) + 195075 - 3060 * b;
        proof {
            lemma_channel_product(k as int, b as int);
            assert(16 * (b * b) <= 3060 * b) by (nonlinear_arith)
                requires
                    0 <= b <= 63,
            ;
            assert((k * b) * curve <= 65025 * 195075) by (nonlinear_arith)
                requires
                    0 <= k * b <= 65025,
                    0 <= curve <= 195075,
            ;
            assert((k * b) * curve <= 16065 * 195075) by (nonlinear_arith)
                requires
                    0 <= k <= 255,
                    0 <= b <= 63,
                    0 <= curve <= 195075,
            ;
            assert(k * base * (16 * base * base - 3060 * base + 195075) == (k * b) * curve)
                by (nonlinear_arith)
                requires
                    curve == 16 * (b * b) + 195075 - 3060 * b,
                    b == base,
            ;
        }
        let numerator = 16581375 * b + (k * b) * curve;
        ((2 * numerator + 16581375) / 33162750) as u8
    } else {
        let k = 2 * s - 255;
        proof {
            lemma_channel_product(k as int, b as int);
            lemma_channel_product(k as int, k as int);
            assert((k * k) * b <= 65025 * 255) by (nonlinear_arith)
                requires
                    0 <= k * k <= 65025,
                    0 <= b <= 255,
            ;
        }
        let radicand = 1020 * ((k * k) * b);
        let root = integer_sqrt(radicand);
        proof {
            assert(4 * k * k * 255 * base == radicand) by (nonlinear_arith)
                requires
                    radicand == 1020 * ((k * k) * b),
                    b == base,
            ;
            assert(2 * k * base == 2 * (k * b)) by (nonlinear_arith)
                requires
                    b == base,
            ;
            // The root is at most 510 * k, which keeps the result in a channel.
            if root > 510 * k {
                assert(root * root >= (510 * k + 1) * (510 * k + 1)) by (nonlinear_arith)
                    requires
                        root >= 510 * k + 1,
                        k >= 0,
                ;
                assert((510 * k + 1) * (510 * k + 1) > 1020 * ((k * k) * 255))
                    by (nonlinear_arith)
                    requires
                        k >= 0,
                ;
                assert(1020 * ((k * k) * 255) >= 1020 * ((k * k) * b)) by (nonlinear_arith)
                    requires
                        0 <= b <= 255,
                        0 <= k * k,
                ;
                assert(false);
            }
            assert(2 * (k * b) <= 510 * b) by (nonlinear_arith)
                requires
                    0 <= k <= 255,
                    0 <= b,
            ;
            assert(510 * k - 2 * (k * b) <= 510 * 255 - 510 * b) by (nonlinear_arith)
                requires
                    0 <= k <= 255,
                    0 <= b <= 255,
            ;
        }
        ((510 * b + 255 - 2 * (k * b) + root) / 510) as u8
    }
}

/// Exclusion stays within a channel: it is `a + b - 2ab/255`, which is at
/// least 0 and at most 255 before the quotient is rounded down, and both
/// bounds are whole.
proof fn lemma_exclusion_in_range(a: int, b: int)
    requires
        0 <= a <= 255,
        0 <= b <= 255,
    ensures
        0 <= a + b - 2 * (a * b) / 255 <= 255,
{
    let q = 2 * (a * b) / 255;
    assert(255 * q <= 2 * (a * b) < 255 * q + 255);
    // (255 - a) * (255 - b) >= 0 and a * b >= 0 bound the sum from above.
    assert(255 * (a + b) - 2 * (a * b) <= 255 * 255) by (nonlinear_arith)
        requires
            0 <= a <= 255,
            0 <= b <= 255,
    ;
    assert(2 * (a * b) <= 255 * (a + b)) by (nonlinear_arith)
        requires
            0 <= a <= 255,
            0 <= b <= 255,
    ;
}

/// The difference of a colour with itself is black.
pub proof fn lemma_difference_with_itself(c: Color)
    ensures
        c.blended(c, BlendMode::Difference) == (Color { r: 0, g: 0, b: 0 }),
{
}

/// Exclusion with black leaves a colour as it is.
pub proof fn lemma_exclusion_with_black(c: Color)
    ensures
        c.blended(Color { r: 0, g: 0, b: 0 }, BlendMode::Exclusion) == c,
{
    assert(2 * c.r * 0 == 0 && 2 * c.g * 0 == 0 && 2 * c.b * 0 == 0);
}

/// Multiplying by white leaves a colour as it is.
pub proof fn lemma_multiply_by_white(c: Color)
    ensures
        c.blended(Color { r: 255, g: 255, b: 255 }, BlendMode::Multiply) == c,
{
}

/// Screening with black leaves a colour as it is.
pub proof fn lemma_screen_with_black(c: Color)
    ensures
        c.blended(Color { r: 0, g: 0, b: 0 }, BlendMode::Screen) == c,
{
}

/// Replace gives the overlay, whatever the base.
pub proof fn lemma_replace_gives_overlay(base: Color, blend: Color)
    ensures
        base.blended(blend, BlendMode::Replace) == blend,
{
}

/// Hard light and overlay agree on every pair of colours.
pub proof fn lemma_hard_light_is_overlay(base: Color, blend: Color)
    ensures
        base.blended(blend, BlendMode::HardLight) == base.blended(blend, BlendMode::Overlay),
{
}

} // verus!
