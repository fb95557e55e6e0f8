//! The camera: an orthonormal-style basis built by look-at, and the change of
//! basis that carries screen-space ray directions into the world.

use vstd::prelude::*;
use crate::fx::FX_ONE;
use crate::ray_intersect::POS_MAX;
use crate::vector::{
    Vector3, V3, in_range, add_s, sub_s, scale_s, cross_s, normalize_s, lemma_normalize_unit,
    lemma_fmul_bound_v3,
};

verus! {

/// The eye position and the three basis vectors of the view frame. `forward`
/// points from the scene's center of interest back toward the eye, so screen
/// directions use a negative third component to look at the scene.
#[derive(Clone, Copy, Debug)]
pub struct Camera {
    pub eye: Vector3,
    pub right: Vector3,
    pub up: Vector3,
    pub forward: Vector3,
}

/// The basis a look-at construction yields: all unit-scale vectors, the eye
/// inside the scene volume.
pub open spec fn camera_wf(c: Camera) -> bool {
    &&& in_range(c.eye@, POS_MAX as int)
    &&& in_range(c.right@, FX_ONE as int)
    &&& in_range(c.up@, FX_ONE as int)
    &&& in_range(c.forward@, FX_ONE as int)
}

/// A screen-space vector carried into the world frame.
pub open spec fn basis_change_s(c: Camera, v: V3) -> V3 {
    add_s(add_s(scale_s(c.right@, v.x), scale_s(c.up@, v.y)), scale_s(c.forward@, v.z))
}

impl Camera {
    /// The look-at construction: `forward` from the center back to the eye,
    /// `right` against the given up direction, and the true up closing the
    /// frame; each normalized.
    pub fn new(eye: Vector3, center: Vector3, up: Vector3) -> (r: Camera)
        requires
            in_range(eye@, POS_MAX as int),
            in_range(center@, POS_MAX as int),
            in_range(up@, FX_ONE as int),
        ensures
            r.eye == eye,
            r.forward@ == normalize_s(sub_s(eye@, center@)),
            r.right@ == normalize_s(cross_s(up@, r.forward@)),
            r.up@ == normalize_s(cross_s(r.forward@, r.right@)),
            camera_wf(r),
    {
        let forward = eye.vsub(&center).normalized();
        proof {
            crate::vector::lemma_cross_unit(up@, forward@);
        }
        let right = up.cross(&forward).normalized();
        proof {
            crate::vector::lemma_cross_unit(forward@, right@);
        }
        let true_up = forward.cross(&right).normalized();
        Camera { eye, right, up: true_up, forward }
    }

    /// Carries a screen-space direction into the world frame.
    pub fn basis_change(&self, v: &Vector3) -> (r: Vector3)
        requires
            camera_wf(*self),
            in_range(v@, 2 * FX_ONE as int),
        ensures
            r@ == basis_change_s(*self, v@),
            in_range(r@, 6 * FX_ONE as int),
    {
        proof {
            lemma_fmul_bound_v3(self.right@, v@.x, FX_ONE as int, 2 * FX_ONE as int);
            lemma_fmul_bound_v3(self.up@, v@.y, FX_ONE as int, 2 * FX_ONE as int);
            lemma_fmul_bound_v3(self.forward@, v@.z, FX_ONE as int, 2 * FX_ONE as int);
        }
        self.right.vscale(v.x).vadd(&self.up.vscale(v.y)).vadd(&self.forward.vscale(v.z))
    }
}

} // verus!
