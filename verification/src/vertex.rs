//! What primitive assembly reads of a transformed vertex: where it fell in
//! the view volume.

use vstd::prelude::*;
use crate::scalar::{Scalar, ONE_KEY};

verus! {

/// The position of a vertex after the perspective divide.
#[derive(Clone, Copy, Debug, PartialEq, Eq, Structural)]
pub struct ClipPosition {
    pub x: Scalar,
    pub y: Scalar,
    pub z: Scalar,
}

/// Whether a coordinate lies between minus one and one, both included.
pub open spec fn in_unit_span(key: int) -> bool {
    -ONE_KEY <= key <= ONE_KEY
}

impl ClipPosition {
    pub fn new(x: Scalar, y: Scalar, z: Scalar) -> (p: ClipPosition)
        ensures
            p == (ClipPosition { x, y, z }),
    {
        ClipPosition { x, y, z }
    }

    /// Whether the position lies in the cube from minus one to one.
    pub open spec fn in_view(self) -> bool {
        in_unit_span(self.x@) && in_unit_span(self.y@) && in_unit_span(self.z@)
    }

    /// Whether the position lies in the cube from minus one to one, its faces
    /// included.
    pub fn is_in_view(&self) -> (inside: bool)
        ensures
            inside == self.in_view(),
    {
        let x = self.x.key();
        let y = self.y.key();
        let z = self.z.key();
        -ONE_KEY <= x && x <= ONE_KEY && -ONE_KEY <= y && y <= ONE_KEY && -ONE_KEY <= z && z
            <= ONE_KEY
    }
}

} // verus!
