//! The damped elastic joint: configuration and solver-owned impulse state.

use vstd::prelude::*;
use crate::fx::Fx;
use crate::vec3::Vec3;

verus! {

/// A joint that simulates a hookean spring attached to a pair of points on two
/// bodies, with optional hard limits on the anchor separation.
///
/// The `impulse`, `limits_lower_impulse` and `limits_upper_impulse` fields are
/// solver-owned accumulators: they persist across substeps to warm-start the
/// next solve and are reset only by construction.
#[derive(Clone, Copy, PartialEq, Eq, Structural, Debug)]
pub struct SpringJoint {
    /// Where the spring joint is attached on the first body, expressed in the
    /// first body's local frame.
    pub local_anchor1: Vec3,
    /// Where the spring joint is attached on the second body, expressed in the
    /// second body's local frame.
    pub local_anchor2: Vec3,
    /// The rest length of this joint.
    pub rest_length: Fx,
    /// The linear stiffness, in units of force per unit length.
    pub stiffness: Fx,
    /// The linear damping, in units of force per unit velocity.
    pub damping: Fx,
    /// The accumulated impulse applied by the spring force.
    pub impulse: Fx,
    /// Are the length limits enabled for this joint?
    pub limits_enabled: bool,
    /// The minimum length allowed between the two anchor points.
    pub limits_min_length: Fx,
    /// The maximum length allowed between the two anchor points.
    pub limits_max_length: Fx,
    /// The accumulated impulse applied by the lower limit; never negative.
    pub limits_lower_impulse: Fx,
    /// The accumulated impulse applied by the upper limit; never negative.
    pub limits_upper_impulse: Fx,
}

impl SpringJoint {
    /// A joint configuration the solver may assume: non-negative coefficients,
    /// non-negative limit accumulators, and ordered limits when enabled.
    pub open spec fn wf(self) -> bool {
        &&& self.rest_length@ >= 0
        &&& self.stiffness@ >= 0
        &&& self.damping@ >= 0
        &&& self.limits_lower_impulse@ >= 0
        &&& self.limits_upper_impulse@ >= 0
        &&& (self.limits_enabled ==> 0 <= self.limits_min_length@ <= self.limits_max_length@)
    }

    /// Creates a new spring joint from two anchors given in the local spaces of
    /// the respective bodies, and a given rest length, stiffness and damping.
    /// All impulse accumulators start at zero, limits are disabled, and the
    /// maximum length defaults to the representable maximum.
    pub fn new(
        local_anchor1: Vec3,
        local_anchor2: Vec3,
        rest_length: Fx,
        stiffness: Fx,
        damping: Fx,
    ) -> (r: SpringJoint)
        ensures
            r == SpringJoint::spec_with_impulse(
                local_anchor1,
                local_anchor2,
                rest_length,
                stiffness,
                damping,
                Fx { raw: 0 },
            ),
            r.impulse@ == 0,
            !r.limits_enabled,
    {
        Self::with_impulse(local_anchor1, local_anchor2, rest_length, stiffness, damping, Fx::zero())
    }

    /// The joint `with_impulse` builds: given configuration, a carried-over
    /// spring impulse, limits disabled, and zero limit accumulators.
    pub open spec fn spec_with_impulse(
        local_anchor1: Vec3,
        local_anchor2: Vec3,
        rest_length: Fx,
        stiffness: Fx,
        damping: Fx,
        impulse: Fx,
    ) -> SpringJoint {
        SpringJoint {
            local_anchor1,
            local_anchor2,
            rest_length,
            stiffness,
            damping,
            impulse,
            limits_enabled: false,
            limits_min_length: Fx { raw: 0 },
            limits_max_length: Fx { raw: i64::MAX },
            limits_lower_impulse: Fx { raw: 0 },
            limits_upper_impulse: Fx { raw: 0 },
        }
    }

    /// Creates a spring joint whose accumulated spring impulse continues from a
    /// pre-existing value, so that a checkpointed or reconfigured joint resumes
    /// solving without a warm-start transient.
    pub fn with_impulse(
        local_anchor1: Vec3,
        local_anchor2: Vec3,
        rest_length: Fx,
        stiffness: Fx,
        damping: Fx,
        impulse: Fx,
    ) -> (r: SpringJoint)
        ensures
            r == SpringJoint::spec_with_impulse(
                local_anchor1,
                local_anchor2,
                rest_length,
                stiffness,
                damping,
                impulse,
            ),
    {
        SpringJoint {
            local_anchor1,
            local_anchor2,
            rest_length,
            stiffness,
            damping,
            impulse,
            limits_enabled: false,
            limits_min_length: Fx::zero(),
            limits_max_length: Fx::new(i64::MAX),
            limits_lower_impulse: Fx::zero(),
            limits_upper_impulse: Fx::zero(),
        }
    }

    /// Can a SIMD constraint be used for resolving this joint?
    ///
    /// Vectorized batches assume a uniform constraint shape; the limit law adds
    /// an inequality branch, so limit-bearing joints are excluded from batching.
    pub fn supports_simd_constraints(&self) -> (r: bool)
        ensures
            r == !self.limits_enabled,
    {
        !self.limits_enabled
    }

    /// Enables the length limits with a validated range. Rejects an inverted or
    /// negative range and leaves the joint unchanged in that case. The limit
    /// accumulators are solver state and are deliberately not reset: the next
    /// solve relaxes stale values through complementarity.
    pub fn enable_limits(&mut self, min_length: Fx, max_length: Fx) -> (accepted: bool)
        ensures
            accepted == (0 <= min_length@ <= max_length@),
            accepted ==> *final(self) == (SpringJoint {
                limits_enabled: true,
                limits_min_length: min_length,
                limits_max_length: max_length,
                ..*old(self)
            }),
            !accepted ==> *final(self) == *old(self),
    {
        if 0 <= min_length.raw && min_length.raw <= max_length.raw {
            self.limits_enabled = true;
            self.limits_min_length = min_length;
            self.limits_max_length = max_length;
            true
        } else {
            false
        }
    }

    /// Disables the length limits; the accumulators keep their values, as
    /// configuration changes never reset solver state.
    pub fn disable_limits(&mut self)
        ensures
            *final(self) == (SpringJoint { limits_enabled: false, ..*old(self) }),
    {
        self.limits_enabled = false;
    }
}

} // verus!
