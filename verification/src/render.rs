//! The two integer stages of a frame: grouping vertices into triangles, with
//! the ones out of view left out, and painting the shaded fragments.

use vstd::prelude::*;
use crate::fragment::Fragment;
use crate::framebuffer::{Framebuffer, FramebufferView};
use crate::vertex::ClipPosition;

verus! {

/// Whether the triangle that starts at vertex `start` is kept: always where
/// nothing is culled, else where at least one of its three vertices lies in
/// view. The test is loose on purpose: a triangle that crosses the view
/// volume with all three vertices outside it is dropped, and one with a single
/// vertex inside is kept whole.
pub open spec fn triangle_kept(vertices: Seq<ClipPosition>, start: int, cull: bool) -> bool {
    !cull || vertices[start].in_view() || vertices[start + 1].in_view() || vertices[start
        + 2].in_view()
}

/// Where the kept triangles start, among the first `count` triangles, in
/// their order.
pub open spec fn kept_triangles(vertices: Seq<ClipPosition>, count: nat, cull: bool) -> Seq<usize>
    decreases count,
{
    if count == 0 {
        Seq::empty()
    } else {
        let before = kept_triangles(vertices, (count - 1) as nat, cull);
        let start = 3 * (count - 1);
        if triangle_kept(vertices, start, cull) {
            before.push(start as usize)
        } else {
            before
        }
    }
}

/// Groups the vertices by three, in order, and gives the index at which each
/// kept triangle starts. One or two vertices left at the end make no triangle.
pub fn assembly(vertices: &[ClipPosition], should_optimize: bool) -> (triangles: Vec<usize>)
    ensures
        triangles@ == kept_triangles(vertices@, (vertices.len() / 3) as nat, should_optimize),
{
    let count = vertices.len() / 3;
    let mut triangles: Vec<usize> = Vec::new();
    let mut t: usize = 0;
    while t < count
        invariant
            t <= count,
            count == vertices.len() / 3,
            triangles@ == kept_triangles(vertices@, t as nat, should_optimize),
        decreases count - t,
    {
        let start = 3 * t;
        let keep = !should_optimize || vertices[start].is_in_view() || vertices[start
            + 1].is_in_view() || vertices[start + 2].is_in_view();
        if keep {
            triangles.push(start);
        }
        t += 1;
    }
    triangles
}

/// With nothing in view and culling on, no triangle is kept.
pub proof fn lemma_out_of_view_is_culled(vertices: Seq<ClipPosition>, count: nat)
    requires
        3 * count <= vertices.len(),
        forall|i: int| 0 <= i < vertices.len() ==> !(#[trigger] vertices[i]).in_view(),
    ensures
        kept_triangles(vertices, count, true) == Seq::<usize>::empty(),
    decreases count,
{
    if count > 0 {
        lemma_out_of_view_is_culled(vertices, (count - 1) as nat);
    }
}

/// Without culling every triangle is kept: the `i`-th kept triangle starts at
/// vertex `3 * i`.
pub proof fn lemma_all_kept_without_culling(vertices: Seq<ClipPosition>, count: nat)
    requires
        3 * count <= usize::MAX,
    ensures
        kept_triangles(vertices, count, false).len() == count,
        forall|i: int|
            0 <= i < count ==> #[trigger] kept_triangles(vertices, count, false)[i] == 3 * i,
    decreases count,
{
    if count > 0 {
        lemma_all_kept_without_culling(vertices, (count - 1) as nat);
    }
}

/// A kept triangle starts at a multiple of three and has its three vertices.
pub proof fn lemma_kept_are_triangles(vertices: Seq<ClipPosition>, count: nat, cull: bool, i: int)
    requires
        3 * count <= vertices.len(),
        3 * count <= usize::MAX,
        0 <= i < kept_triangles(vertices, count, cull).len(),
    ensures
        kept_triangles(vertices, count, cull)[i] % 3 == 0,
        kept_triangles(vertices, count, cull)[i] + 3 <= 3 * count,
        triangle_kept(vertices, kept_triangles(vertices, count, cull)[i] as int, cull),
    decreases count,
{
    if count > 0 {
        let before = kept_triangles(vertices, (count - 1) as nat, cull);
        if i < before.len() {
            lemma_kept_are_triangles(vertices, (count - 1) as nat, cull, i);
        }
    }
}

/// The framebuffer after the fragments were painted one after the other, each
/// in its own colour.
pub open spec fn composited(fb: FramebufferView, fragments: Seq<Fragment>) -> FramebufferView
    decreases fragments.len(),
{
    if fragments.len() == 0 {
        fb
    } else {
        let last = fragments.last();
        composited(fb, fragments.drop_last()).with_current_color(last.color).painted(
            last.x as int,
            last.y as int,
            last.depth@,
        )
    }
}

/// Paints the fragments in their order. A fragment that falls outside the
/// framebuffer is dropped; it still leaves its colour as the current one.
pub fn paint_fragments(fragments: &[Fragment], framebuffer: &mut Framebuffer)
    ensures
        final(framebuffer)@ == composited(old(framebuffer)@, fragments@),
{
    let mut i: usize = 0;
    while i < fragments.len()
        invariant
            i <= fragments.len(),
            framebuffer@ == composited(old(framebuffer)@, fragments@.take(i as int)),
        decreases fragments.len() - i,
    {
        let fragment = fragments[i];
        proof {
            assert(fragments@.take(i + 1).drop_last() =~= fragments@.take(i as int));
        }
        framebuffer.set_current_color(fragment.color);
        let _ = framebuffer.paint_point(fragment.x, fragment.y, fragment.depth);
        i += 1;
    }
    assert(fragments@.take(i as int) =~= fragments@);
}

} // verus!
