//! Fragments: what the rasterizer hands on for one covered pixel, and the
//! rules by which it decides that a pixel gives one.

use vstd::prelude::*;
use crate::color::Color;
use crate::rounding::{ceil_of, floor_of};
use crate::scalar::{Scalar, ONE_KEY};

pub mod shaders;

verus! {

/// One covered pixel on its way to the framebuffer.
#[derive(Clone, Copy, Debug, PartialEq, Eq, Structural)]
pub struct Fragment {
    /// The column of the pixel, already rounded; left of the screen if negative.
    pub x: i64,
    /// The row of the pixel, already rounded; above the screen if negative.
    pub y: i64,
    pub color: Color,
    /// How much light falls on the surface here.
    pub intensity: Scalar,
    pub depth: Scalar,
}

impl Fragment {
    /// A fully lit fragment.
    pub fn new(x: i64, y: i64, color: Color, depth: Scalar) -> (f: Fragment)
        ensures
            f.x == x,
            f.y == y,
            f.color == color,
            f.depth == depth,
            f.intensity@ == ONE_KEY,
    {
        Fragment { x, y, color, intensity: Scalar::one(), depth }
    }

    pub fn new_with_intensity(
        x: i64,
        y: i64,
        color: Color,
        depth: Scalar,
        intensity: Scalar,
    ) -> (f: Fragment)
        ensures
            f == (Fragment { x, y, color, intensity, depth }),
    {
        Fragment { x, y, color, intensity, depth }
    }
}

/// A pixel lies in a triangle when each of its three weights is in the closed
/// interval from zero to one. A pixel on an edge or a corner therefore lies in
/// the triangle, and in its neighbour along that edge too.
pub open spec fn weights_cover(w1: int, w2: int, w3: int) -> bool {
    0 <= w1 <= ONE_KEY && 0 <= w2 <= ONE_KEY && 0 <= w3 <= ONE_KEY
}

/// Whether the pixel with the given barycentric weights lies in the triangle.
pub fn is_inside_triangle(w1: Scalar, w2: Scalar, w3: Scalar) -> (inside: bool)
    ensures
        inside == weights_cover(w1@, w2@, w3@),
{
    let zero = Scalar::zero();
    let one = Scalar::one();
    w1.is_within(&zero, &one) && w2.is_within(&zero, &one) && w3.is_within(&zero, &one)
}

/// Whether a pixel is left out because its surface does not face the camera:
/// `facing` is the normal's share along the camera's direction, where the
/// entity asks for this test, and a share of zero or more means it faces away
/// or stands edge-on.
pub fn is_turned_away(facing: Option<Scalar>) -> (away: bool)
    ensures
        away == (facing matches Some(share) && share@ >= 0),
{
    match facing {
        Some(share) => !share.is_below(&Scalar::zero()),
        None => false,
    }
}

/// The least of three keys.
pub open spec fn least(a: int, b: int, c: int) -> int {
    if a <= b && a <= c {
        a
    } else if b <= c {
        b
    } else {
        c
    }
}

/// The greatest of three keys.
pub open spec fn greatest(a: int, b: int, c: int) -> int {
    if a >= b && a >= c {
        a
    } else if b >= c {
        b
    } else {
        c
    }
}

fn lesser(a: Scalar, b: Scalar) -> (m: Scalar)
    ensures
        m@ == if a@ <= b@ {
            a@
        } else {
            b@
        },
{
    if b.is_below(&a) {
        b
    } else {
        a
    }
}

fn greater(a: Scalar, b: Scalar) -> (m: Scalar)
    ensures
        m@ == if a@ >= b@ {
            a@
        } else {
            b@
        },
{
    if a.is_below(&b) {
        b
    } else {
        a
    }
}

/// The box of pixels that holds a triangle with the given corners on the
/// screen, each corner given as `(x, y)`: from the whole numbers below the
/// least `x` and the least `y` to the whole numbers above the greatest `x`
/// and the greatest `y`.
pub fn calculate_bounding_box(
    v1: (Scalar, Scalar),
    v2: (Scalar, Scalar),
    v3: (Scalar, Scalar),
) -> (corners: ((i32, i32), (i32, i32)))
    ensures
        corners.0.0 == floor_of(least(v1.0@, v2.0@, v3.0@)),
        corners.0.1 == floor_of(least(v1.1@, v2.1@, v3.1@)),
        corners.1.0 == ceil_of(greatest(v1.0@, v2.0@, v3.0@)),
        corners.1.1 == ceil_of(greatest(v1.1@, v2.1@, v3.1@)),
{
    let minx = lesser(lesser(v1.0, v2.0), v3.0).floor();
    let miny = lesser(lesser(v1.1, v2.1), v3.1).floor();

    let maxx = greater(greater(v1.0, v2.0), v3.0).ceil();
    let maxy = greater(greater(v1.1, v2.1), v3.1).ceil();

    ((minx, miny), (maxx, maxy))
}

} // verus!
