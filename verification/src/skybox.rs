//! Stars: small marks of one, four or five pixels, painted far behind the
//! scene.

use vstd::prelude::*;
use crate::color::Color;
use crate::framebuffer::{paint_outcome, Framebuffer, FramebufferView};
use crate::scalar::Scalar;

verus! {

/// The pixels of a star of the given size at `(x, y)`, in the order in which
/// they are painted: one pixel, a square of four, or a cross of five. Other
/// sizes have no pixels.
pub open spec fn star_points(x: int, y: int, size: u8) -> Seq<(int, int)> {
    if size == 1 {
        seq![(x, y)]
    } else if size == 2 {
        seq![(x, y), (x + 1, y), (x, y + 1), (x + 1, y + 1)]
    } else if size == 3 {
        seq![(x, y), (x - 1, y), (x + 1, y), (x, y - 1), (x, y + 1)]
    } else {
        Seq::empty()
    }
}

/// The framebuffer after the points were painted in turn at one depth, up to
/// the first point that the framebuffer refuses.
pub open spec fn painted_in_turn(
    fb: FramebufferView,
    points: Seq<(int, int)>,
    depth: int,
) -> FramebufferView
    decreases points.len(),
{
    if points.len() == 0 {
        fb
    } else if paint_outcome(fb.width, fb.height, points[0].0, points[0].1) is Err {
        fb
    } else {
        painted_in_turn(fb.painted(points[0].0, points[0].1, depth), points.drop_first(), depth)
    }
}

/// The framebuffer after a star was painted: unchanged where the centre of
/// the star lies outside it, else with the colour of the star as the current
/// one and the pixels of the star painted in turn.
pub open spec fn with_star(
    fb: FramebufferView,
    x: int,
    y: int,
    size: u8,
    color: Color,
    depth: int,
) -> FramebufferView {
    if fb.contains(x, y) {
        painted_in_turn(fb.with_current_color(color), star_points(x, y, size), depth)
    } else {
        fb
    }
}

fn star_pixels(x: i64, y: i64, size: u8) -> (points: Vec<(i64, i64)>)
    requires
        -1 < x < i64::MAX,
        -1 < y < i64::MAX,
    ensures
        points@.map_values(|p: (i64, i64)| (p.0 as int, p.1 as int)) == star_points(
            x as int,
            y as int,
            size,
        ),
{
    let mut points: Vec<(i64, i64)> = Vec::new();
    if size == 1 {
        points.push((x, y));
    } else if size == 2 {
        points.push((x, y));
        points.push((x + 1, y));
        points.push((x, y + 1));
        points.push((x + 1, y + 1));
    } else if size == 3 {
        points.push((x, y));
        points.push((x - 1, y));
        points.push((x + 1, y));
        points.push((x, y - 1));
        points.push((x, y + 1));
    }
    assert(points@.map_values(|p: (i64, i64)| (p.0 as int, p.1 as int)) =~= star_points(
        x as int,
        y as int,
        size,
    ));
    points
}

/// Paints a star of the given size and colour with its centre at `(x, y)`.
/// A star whose centre lies outside the framebuffer is not painted at all;
/// one that reaches over an edge is painted up to its first pixel outside.
pub fn paint_star(
    framebuffer: &mut Framebuffer,
    x: i64,
    y: i64,
    size: u8,
    color: Color,
    depth: Scalar,
)
    ensures
        final(framebuffer)@ == with_star(
            old(framebuffer)@,
            x as int,
            y as int,
            size,
            color,
            depth@,
        ),
{
    let width = framebuffer.width();
    let height = framebuffer.height();
    if x < 0 || y < 0 || x as u64 >= width as u64 || y as u64 >= height as u64 {
        return;
    }
    assert(x < i64::MAX && y < i64::MAX) by (nonlinear_arith)
        requires
            0 <= x < width,
            0 <= y < height,
            4 * (width * height) <= isize::MAX,
            isize::MAX <= i64::MAX,
    ;
    framebuffer.set_current_color(color);
    let points = star_pixels(x, y, size);
    let ghost places = points@.map_values(|p: (i64, i64)| (p.0 as int, p.1 as int));
    let ghost start = framebuffer@;
    let mut i: usize = 0;
    assert(places.skip(0) =~= places);
    while i < points.len()
        invariant
            i <= points.len(),
            places == points@.map_values(|p: (i64, i64)| (p.0 as int, p.1 as int)),
            start == old(framebuffer)@.with_current_color(color),
            old(framebuffer)@.contains(x as int, y as int),
            places == star_points(x as int, y as int, size),
            framebuffer@.width == start.width,
            framebuffer@.height == start.height,
            painted_in_turn(start, places, depth@) == painted_in_turn(
                framebuffer@,
                places.skip(i as int),
                depth@,
            ),
        decreases points.len() - i,
    {
        let point = points[i];
        proof {
            assert(places.skip(i as int)[0] == (point.0 as int, point.1 as int));
            assert(places.skip(i as int).drop_first() =~= places.skip(i + 1));
        }
        let ghost before = framebuffer@;
        let outcome = framebuffer.paint_point(point.0, point.1, depth);
        if outcome.is_err() {
            assert(!before.contains(point.0 as int, point.1 as int));
            assert(framebuffer@ == before);
            return;
        }
        i += 1;
    }
    assert(places.skip(i as int).len() == 0);
}

} // verus!
