//! The per-body state the solver reads and writes.
//!
//! A body is modeled with a translation pose, linear and angular velocity, and
//! scalar inverse mass and inverse inertia (isotropic inertia). Local anchors
//! are expressed in axes aligned with the world frame, so the world anchor is
//! `position + local_anchor` and the lever arm about the center of mass is the
//! local anchor itself. A static or kinematic body reports zero inverse mass
//! and inverse inertia and therefore receives no velocity change.

use vstd::prelude::*;
use crate::fx::{Fx, fmul, lemma_tdiv_shrinks};
use crate::vec3::{Vec3, fx, spec_vadd, spec_vscale, spec_cross};

verus! {

/// Pose, velocity and inverse mass of one rigid body, as the body state
/// provider hands them to the solver.
#[derive(Clone, Copy, PartialEq, Eq, Structural, Debug)]
pub struct BodyState {
    /// World-space position of the center of mass.
    pub position: Vec3,
    /// Linear velocity of the center of mass.
    pub linvel: Vec3,
    /// Angular velocity.
    pub angvel: Vec3,
    /// Inverse mass; zero for a static or kinematic body.
    pub inv_mass: Fx,
    /// Scalar inverse inertia; zero for a static or kinematic body.
    pub inv_inertia: Fx,
}

/// The body after an impulse `imp` is applied at lever arm `lever`: the linear
/// velocity changes by `imp * inv_mass`, the angular velocity by
/// `(lever x imp) * inv_inertia`. Pose and masses never change.
pub open spec fn spec_apply_impulse(b: BodyState, imp: Vec3, lever: Vec3) -> BodyState {
    BodyState {
        linvel: spec_vadd(b.linvel, spec_vscale(imp, b.inv_mass)),
        angvel: spec_vadd(b.angvel, spec_vscale(spec_cross(lever, imp), b.inv_inertia)),
        ..b
    }
}

/// Velocity of the material point at lever arm `lever` from the center of
/// mass: `linvel + angvel x lever`.
pub open spec fn spec_point_velocity(b: BodyState, lever: Vec3) -> Vec3 {
    spec_vadd(b.linvel, spec_cross(b.angvel, lever))
}

/// Scaling by a zero scalar gives the zero vector.
pub proof fn lemma_scale_by_zero(a: Vec3)
    ensures
        spec_vscale(a, Fx { raw: 0 }) == (Vec3 { x: fx(0), y: fx(0), z: fx(0) }),
{
    lemma_fmul_zero(a.x@);
    lemma_fmul_zero(a.y@);
    lemma_fmul_zero(a.z@);
}

/// Multiplying by raw zero gives raw zero.
pub proof fn lemma_fmul_zero(a: int)
    ensures
        fmul(a, 0) == 0,
        fmul(0, a) == 0,
{
    assert(a * 0 == 0);
    assert(0 * a == 0);
    lemma_tdiv_shrinks(0, 65536);
}

/// Adding the zero vector changes nothing.
pub proof fn lemma_vadd_zero(a: Vec3)
    ensures
        spec_vadd(a, Vec3 { x: fx(0), y: fx(0), z: fx(0) }) == a,
{
}

/// A body is unchanged by a zero impulse.
pub proof fn lemma_apply_zero_impulse(b: BodyState, lever: Vec3)
    ensures
        spec_apply_impulse(b, Vec3 { x: fx(0), y: fx(0), z: fx(0) }, lever) == b,
{
    let zv = Vec3 { x: fx(0), y: fx(0), z: fx(0) };
    lemma_scale_by_zero(zv);
    lemma_fmul_zero(lever.y@);
    lemma_fmul_zero(lever.z@);
    lemma_fmul_zero(lever.x@);
    assert(spec_cross(lever, zv) == zv);
    lemma_vadd_zero(b.linvel);
    lemma_vadd_zero(b.angvel);
}

/// A body with infinite mass (zero inverse mass and inverse inertia) is
/// unchanged by any impulse.
pub proof fn lemma_static_body_unmoved(b: BodyState, imp: Vec3, lever: Vec3)
    requires
        b.inv_mass@ == 0,
        b.inv_inertia@ == 0,
    ensures
        spec_apply_impulse(b, imp, lever) == b,
{
    lemma_scale_by_zero(imp);
    lemma_scale_by_zero(spec_cross(lever, imp));
    lemma_vadd_zero(b.linvel);
    lemma_vadd_zero(b.angvel);
}

impl BodyState {
    /// The masses the solver may assume: inverse mass and inverse inertia are
    /// never negative.
    pub open spec fn wf(self) -> bool {
        self.inv_mass@ >= 0 && self.inv_inertia@ >= 0
    }

    /// Builds a body state.
    pub fn new(position: Vec3, linvel: Vec3, angvel: Vec3, inv_mass: Fx, inv_inertia: Fx) -> (r:
        BodyState)
        ensures
            r == (BodyState { position, linvel, angvel, inv_mass, inv_inertia }),
    {
        BodyState { position, linvel, angvel, inv_mass, inv_inertia }
    }

    /// Velocity of the material point at lever arm `lever`.
    pub fn point_velocity(&self, lever: Vec3) -> (r: Vec3)
        ensures
            r == spec_point_velocity(*self, lever),
    {
        self.linvel.plus(self.angvel.cross(lever))
    }

    /// Applies an impulse at lever arm `lever`: the linear velocity changes by
    /// the impulse scaled by the inverse mass, the angular velocity by the
    /// lever-arm cross product scaled by the inverse inertia. A static body
    /// (zero inverse masses) is left unchanged.
    pub fn apply_impulse(&mut self, imp: Vec3, lever: Vec3)
        ensures
            *final(self) == spec_apply_impulse(*old(self), imp, lever),
            final(self).position == old(self).position,
            final(self).inv_mass == old(self).inv_mass,
            final(self).inv_inertia == old(self).inv_inertia,
    {
        self.linvel = self.linvel.plus(imp.scale(self.inv_mass));
        self.angvel = self.angvel.plus(lever.cross(imp).scale(self.inv_inertia));
    }
}

} // verus!
