//! A software rendering core: colours and their blend modes, a depth-tested
//! framebuffer, primitive assembly and the shading chain, all on integers.
//!
//! Quantities that a renderer computes in floating point reach this crate as
//! [`scalar::Scalar`] values, built from the bit pattern of a single-precision
//! number. The crate compares them, rounds them to pixels and scales colours
//! by them in whole-number arithmetic on those bits.

use vstd::prelude::*;

pub mod blenders;
pub mod bmp;
pub mod color;
pub mod fragment;
pub mod framebuffer;
pub mod render;
pub mod rounding;
pub mod scalar;
pub mod scaling;
pub mod skybox;
pub mod texture;
pub mod vertex;

verus! {

/// Per-entity switches that trade accuracy for speed.
#[derive(Clone, Copy, Debug, PartialEq, Eq, Structural)]
pub struct EntityOptimizations {
    /// Skip pixels whose surface faces away from the camera.
    pub camera_direction: bool,
    /// Skip triangles that lie outside the view volume.
    pub frustum_cutting: bool,
}

/// Where the camera sits relative to the ship.
#[derive(Clone, Copy, Debug, PartialEq, Eq, Structural)]
pub enum ViewType {
    BirdEye,
    FirstPerson,
}

} // verus!
