//! The per-substep impulse law: prepare, warm start, spring solve, limit
//! solves.
//!
//! Each substep the solver prepares the joint axis from the current poses,
//! applies the previous substep's accumulated impulses (warm starting), then
//! solves the spring as a soft velocity constraint and the lower and upper
//! length limits as two independent one-sided constraints, in that fixed
//! order. The order is part of the contract: it makes repeated runs on
//! identical inputs bit-reproducible.

use vstd::prelude::*;
use vstd::arithmetic::mul::lemma_mul_inequality;
use crate::fx::{
    Fx, FX_SCALE, fadd, fsub, fmul, fdiv, sat64, iabs, tdiv, lemma_tdiv_range,
};
use crate::vec3::{
    Vec3, fx, spec_vadd, spec_vsub, spec_vscale, spec_vneg, spec_vdiv, spec_dot, spec_cross,
    spec_norm, within, negatable, lemma_vsub_antisymmetry, lemma_norm_neg_invariant,
    lemma_component_le_norm, lemma_unit_quotient_fits, lemma_vdiv_neg, lemma_cross_neg_right,
    lemma_dot_neg_invariant, lemma_fmul_unit_bound,
};
use crate::body::{
    BodyState, spec_apply_impulse, spec_point_velocity, lemma_fmul_zero, lemma_scale_by_zero,
    lemma_apply_zero_impulse,
};
use crate::spring::SpringJoint;

verus! {

/// The constraint axis a substep works along: world separation direction,
/// current length, and the sum of the bodies' inverse masses and lever-arm
/// inertia terms projected on that axis.
#[derive(Clone, Copy, PartialEq, Eq, Structural, Debug)]
pub struct JointAxis {
    /// Unit separation direction, from the first world anchor to the second;
    /// a fixed fallback direction when the anchors (nearly) coincide.
    pub dir: Vec3,
    /// Current distance between the world anchors.
    pub length: Fx,
    /// Inverse of the effective mass along `dir`:
    /// `inv_mass1 + inv_mass2 + inv_inertia1*|r1 x dir|^2 + inv_inertia2*|r2 x dir|^2`.
    pub k_sum: Fx,
}

/// The axis `prepare` computes from the current poses.
pub open spec fn spec_prepare(j: SpringJoint, b1: BodyState, b2: BodyState) -> JointAxis {
    let p1 = spec_vadd(b1.position, j.local_anchor1);
    let p2 = spec_vadd(b2.position, j.local_anchor2);
    let d = spec_vsub(p2, p1);
    let len = spec_norm(d);
    let dir = if len > 0 {
        spec_vdiv(d, fx(len))
    } else {
        Vec3 { x: fx(FX_SCALE as int), y: fx(0), z: fx(0) }
    };
    let c1 = spec_cross(j.local_anchor1, dir);
    let c2 = spec_cross(j.local_anchor2, dir);
    let k = fadd(
        fadd(b1.inv_mass@, b2.inv_mass@),
        fadd(fmul(b1.inv_inertia@, spec_dot(c1, c1)), fmul(b2.inv_inertia@, spec_dot(c2, c2))),
    );
    JointAxis { dir, length: fx(len), k_sum: fx(k) }
}

/// Relative velocity of the two anchor points along the axis; positive when
/// the anchors separate.
pub open spec fn spec_vrel(j: SpringJoint, ax: JointAxis, b1: BodyState, b2: BodyState) -> int {
    spec_dot(
        spec_vsub(
            spec_point_velocity(b2, j.local_anchor2),
            spec_point_velocity(b1, j.local_anchor1),
        ),
        ax.dir,
    )
}

/// The accumulated spring impulse after one solve, as a function of the state
/// before it.
///
/// The spring is a soft velocity constraint: with step `h`, stiffness `k` and
/// damping `c` it uses `gamma = 1 / (h*(c + h*k))` and the bias
/// `C * h * k * gamma` on the position error `C = length - rest_length`, and
/// moves the accumulator by `-(vrel + bias + gamma*acc) / (k_sum + gamma)`.
/// A spring with zero stiffness and damping constrains nothing: the
/// accumulator is driven straight to zero (also when the coefficients are so
/// small that `h*(c + h*k)` truncates to zero at this scale).
pub open spec fn spec_spring_new_impulse(
    j: SpringJoint,
    ax: JointAxis,
    b1: BodyState,
    b2: BodyState,
    dt: Fx,
) -> int {
    if j.stiffness@ == 0 && j.damping@ == 0 {
        0
    } else {
        let hk = fmul(dt@, j.stiffness@);
        let gden = fadd(fmul(dt@, j.damping@), fmul(dt@, hk));
        if gden <= 0 {
            0
        } else {
            let gamma = fdiv(FX_SCALE as int, gden);
            let c = fsub(ax.length@, j.rest_length@);
            let bias = fmul(fmul(c, hk), gamma);
            let denom = fadd(ax.k_sum@, gamma);
            if denom <= 0 {
                j.impulse@
            } else {
                let m = fdiv(FX_SCALE as int, denom);
                let rhs = fadd(fadd(spec_vrel(j, ax, b1, b2), bias), fmul(gamma, j.impulse@));
                fadd(j.impulse@, sat64(-fmul(m, rhs)))
            }
        }
    }
}

/// The accumulated lower-limit impulse after one solve: a one-sided constraint
/// that keeps `length >= limits_min_length`, with the accumulator clamped at
/// zero (complementarity). The speculative bias `C / dt` on the slack
/// `C = length - limits_min_length` admits any approach that stays inside the
/// limit for one substep and pushes a violated limit out at the violation
/// rate.
pub open spec fn spec_lower_new_impulse(
    j: SpringJoint,
    ax: JointAxis,
    b1: BodyState,
    b2: BodyState,
    dt: Fx,
) -> int {
    if !j.limits_enabled || ax.k_sum@ <= 0 {
        j.limits_lower_impulse@
    } else {
        let inv_h = fdiv(FX_SCALE as int, dt@);
        let m = fdiv(FX_SCALE as int, ax.k_sum@);
        let c = fsub(ax.length@, j.limits_min_length@);
        let bias = fmul(c, inv_h);
        let rhs = fadd(spec_vrel(j, ax, b1, b2), bias);
        let unclamped = fadd(j.limits_lower_impulse@, sat64(-fmul(m, rhs)));
        if unclamped >= 0 {
            unclamped
        } else {
            0
        }
    }
}

/// The accumulated upper-limit impulse after one solve: the mirror of the
/// lower limit at `limits_max_length`, acting along the opposite direction.
pub open spec fn spec_upper_new_impulse(
    j: SpringJoint,
    ax: JointAxis,
    b1: BodyState,
    b2: BodyState,
    dt: Fx,
) -> int {
    if !j.limits_enabled || ax.k_sum@ <= 0 {
        j.limits_upper_impulse@
    } else {
        let inv_h = fdiv(FX_SCALE as int, dt@);
        let m = fdiv(FX_SCALE as int, ax.k_sum@);
        let c = fsub(j.limits_max_length@, ax.length@);
        let bias = fmul(c, inv_h);
        let rhs = fadd(sat64(-spec_vrel(j, ax, b1, b2)), bias);
        let unclamped = fadd(j.limits_upper_impulse@, sat64(-fmul(m, rhs)));
        if unclamped >= 0 {
            unclamped
        } else {
            0
        }
    }
}

/// Signs and scaled magnitude bounds of a fixed-point product with a
/// non-negative left factor.
pub proof fn lemma_fmul_left_nonneg(a: int, b: int)
    requires
        a >= 0,
    ensures
        b >= 0 ==> 0 <= fmul(a, b) && fmul(a, b) * (FX_SCALE as int) <= a * b,
        b <= 0 ==> fmul(a, b) <= 0 && a * b <= fmul(a, b) * (FX_SCALE as int),
{
    let s = FX_SCALE as int;
    let ab = a * b;
    let q = tdiv(ab, s);
    lemma_tdiv_range(ab, s);
    if b >= 0 {
        assert(ab >= 0) by (nonlinear_arith)
            requires
                a >= 0,
                b >= 0,
                ab == a * b,
        ;
        let q2 = sat64(q);
        assert(0 <= q2 <= q);
        lemma_mul_inequality(q2, q, s);
    } else {
        assert(ab <= 0) by (nonlinear_arith)
            requires
                a >= 0,
                b <= 0,
                ab == a * b,
        ;
        let q2 = sat64(q);
        assert(q <= q2 <= 0);
        lemma_mul_inequality(q, q2, s);
    }
}

/// Sign and scaled magnitude bound of a fixed-point quotient of positives.
pub proof fn lemma_fdiv_pos(a: int, b: int)
    requires
        a >= 0,
        b > 0,
    ensures
        fdiv(a, b) >= 0,
        fdiv(a, b) * b <= a * (FX_SCALE as int),
{
    let s = FX_SCALE as int;
    let num = a * s;
    assert(num >= 0) by (nonlinear_arith)
        requires
            a >= 0,
            s > 0,
            num == a * s,
    ;
    let q = tdiv(num, b);
    lemma_tdiv_range(num, b);
    let q2 = sat64(q);
    assert(0 <= q2 <= q);
    lemma_mul_inequality(q2, q, b);
}

proof fn lemma_shrink_chain_pos(s: int, acc: int, gamma: int, denom: int, m: int, t: int, u: int)
    by (nonlinear_arith)
    requires
        s > 0,
        acc >= 0,
        gamma >= 0,
        denom > 0,
        m >= 0,
        t >= 0,
        u >= 0,
        gamma <= denom,
        m * denom <= s * s,
        t * s <= gamma * acc,
        u * s <= m * t,
    ensures
        u <= acc,
{
}

proof fn lemma_shrink_chain_neg(s: int, acc: int, gamma: int, denom: int, m: int, t: int, u: int)
    by (nonlinear_arith)
    requires
        s > 0,
        acc <= 0,
        gamma >= 0,
        denom > 0,
        m >= 0,
        t <= 0,
        u <= 0,
        gamma <= denom,
        m * denom <= s * s,
        gamma * acc <= t * s,
        m * t <= u * s,
    ensures
        acc <= u,
{
}

/// Rest law: at the rest length with no relative velocity along the axis, one
/// spring solve never grows the accumulated impulse; it moves it toward zero,
/// so the impulse magnitude decays to zero within solver tolerance.
pub proof fn lemma_rest_impulse_decay(
    j: SpringJoint,
    ax: JointAxis,
    b1: BodyState,
    b2: BodyState,
    dt: Fx,
)
    requires
        dt@ > 0,
        ax.k_sum@ >= 0,
        ax.length@ == j.rest_length@,
        spec_vrel(j, ax, b1, b2) == 0,
    ensures
        iabs(spec_spring_new_impulse(j, ax, b1, b2, dt)) <= iabs(j.impulse@),
        j.impulse@ >= 0 ==> 0 <= spec_spring_new_impulse(j, ax, b1, b2, dt) <= j.impulse@,
        j.impulse@ <= 0 ==> j.impulse@ <= spec_spring_new_impulse(j, ax, b1, b2, dt) <= 0,
{
    let s = FX_SCALE as int;
    let acc = j.impulse@;
    if j.stiffness@ == 0 && j.damping@ == 0 {
    } else {
        let hk = fmul(dt@, j.stiffness@);
        let gden = fadd(fmul(dt@, j.damping@), fmul(dt@, hk));
        if gden <= 0 {
        } else {
            let gamma = fdiv(s, gden);
            lemma_fdiv_pos(s, gden);
            let c = fsub(ax.length@, j.rest_length@);
            assert(c == 0);
            lemma_fmul_zero(hk);
            let bias = fmul(fmul(c, hk), gamma);
            lemma_fmul_zero(gamma);
            assert(bias == 0);
            let denom = fadd(ax.k_sum@, gamma);
            if denom <= 0 {
            } else {
                assert(gamma <= denom);
                let m = fdiv(s, denom);
                lemma_fdiv_pos(s, denom);
                let t = fmul(gamma, acc);
                lemma_fmul_left_nonneg(gamma, acc);
                let rhs = fadd(fadd(0, bias), t);
                assert(rhs == t);
                let u = fmul(m, t);
                lemma_fmul_left_nonneg(m, t);
                if acc >= 0 {
                    lemma_shrink_chain_pos(s, acc, gamma, denom, m, t, u);
                } else {
                    lemma_shrink_chain_neg(s, acc, gamma, denom, m, t, u);
                }
                assert(spec_spring_new_impulse(j, ax, b1, b2, dt) == fadd(acc, sat64(-u)));
            }
        }
    }
}

/// Computes the constraint axis for this substep from the current poses.
///
/// When the world anchors (nearly) coincide the direction falls back to a
/// fixed unit axis, so no division by zero can occur and the force direction
/// stays stable.
pub fn prepare(j: &SpringJoint, b1: &BodyState, b2: &BodyState) -> (r: JointAxis)
    ensures
        r == spec_prepare(*j, *b1, *b2),
        r.length@ >= 0,
        b1.wf() && b2.wf() ==> r.k_sum@ >= 0,
{
    let p1 = b1.position.plus(j.local_anchor1);
    let p2 = b2.position.plus(j.local_anchor2);
    let d = p2.minus(p1);
    let len = d.norm();
    let dir = if len.raw > 0 {
        d.div_by(len)
    } else {
        Vec3::new(Fx::one(), Fx::zero(), Fx::zero())
    };
    let c1 = j.local_anchor1.cross(dir);
    let c2 = j.local_anchor2.cross(dir);
    let ang1 = b1.inv_inertia.times(c1.dot(c1));
    let ang2 = b2.inv_inertia.times(c2.dot(c2));
    let k = b1.inv_mass.plus(b2.inv_mass).plus(ang1.plus(ang2));
    proof {
        if b1.wf() && b2.wf() {
            lemma_sq_dot_nonneg(c1);
            lemma_sq_dot_nonneg(c2);
            lemma_fmul_left_nonneg(b1.inv_inertia@, spec_dot(c1, c1));
            lemma_fmul_left_nonneg(b2.inv_inertia@, spec_dot(c2, c2));
        }
    }
    JointAxis { dir, length: len, k_sum: k }
}

/// The net warm-start impulse along the axis: the accumulated spring impulse
/// plus the lower-limit impulse (which pushes the anchors apart) minus the
/// upper-limit impulse (which pulls them together).
pub open spec fn spec_warm_impulse(j: SpringJoint) -> int {
    fsub(fadd(j.impulse@, j.limits_lower_impulse@), j.limits_upper_impulse@)
}

/// Applies the accumulated impulses from the previous substep to the bodies
/// before the new substep's iterations begin (warm starting): the solves then
/// only apply accumulator deltas, so over the substep each body receives the
/// new accumulated impulse in total.
pub fn warm_start(j: &SpringJoint, ax: &JointAxis, b1: &mut BodyState, b2: &mut BodyState)
    ensures
        *final(b1) == spec_apply_impulse(
            *old(b1),
            spec_vneg(spec_vscale(ax.dir, fx(spec_warm_impulse(*j)))),
            j.local_anchor1,
        ),
        *final(b2) == spec_apply_impulse(
            *old(b2),
            spec_vscale(ax.dir, fx(spec_warm_impulse(*j))),
            j.local_anchor2,
        ),
        spec_warm_impulse(*j) == 0 ==> *final(b1) == *old(b1) && *final(b2) == *old(b2),
{
    let w = j.impulse.plus(j.limits_lower_impulse).minus(j.limits_upper_impulse);
    let p = ax.dir.scale(w);
    b1.apply_impulse(p.neg(), j.local_anchor1);
    b2.apply_impulse(p, j.local_anchor2);
    proof {
        if spec_warm_impulse(*j) == 0 {
            lemma_scale_by_zero(ax.dir);
            lemma_scale_by_zero(Vec3 { x: fx(0), y: fx(0), z: fx(0) });
            lemma_apply_zero_impulse(*old(b1), j.local_anchor1);
            lemma_apply_zero_impulse(*old(b2), j.local_anchor2);
        }
    }
}

/// One warm-started spring solve along the prepared axis.
///
/// Updates the accumulated impulse to `spec_spring_new_impulse` and applies
/// the accumulator's change as opposite impulses to the two bodies, so the
/// delta is measured against the running total, never reapplied from zero.
pub fn solve_spring(
    j: &mut SpringJoint,
    ax: &JointAxis,
    b1: &mut BodyState,
    b2: &mut BodyState,
    dt: Fx,
)
    requires
        dt@ > 0,
    ensures
        final(j).impulse@ == spec_spring_new_impulse(*old(j), *ax, *old(b1), *old(b2), dt),
        *final(j) == (SpringJoint { impulse: final(j).impulse, ..*old(j) }),
        *final(b1) == spec_apply_impulse(
            *old(b1),
            spec_vneg(spec_vscale(ax.dir, fx(fsub(final(j).impulse@, old(j).impulse@)))),
            old(j).local_anchor1,
        ),
        *final(b2) == spec_apply_impulse(
            *old(b2),
            spec_vscale(ax.dir, fx(fsub(final(j).impulse@, old(j).impulse@))),
            old(j).local_anchor2,
        ),
        old(j).stiffness@ == 0 && old(j).damping@ == 0 ==> final(j).impulse@ == 0,
        old(j).stiffness@ == 0 && old(j).damping@ == 0 && old(j).impulse@ == 0 ==> *final(b1)
            == *old(b1) && *final(b2) == *old(b2),
{
    let v1 = b1.point_velocity(j.local_anchor1);
    let v2 = b2.point_velocity(j.local_anchor2);
    let vrel = v2.minus(v1).dot(ax.dir);
    let old_imp = j.impulse;
    let mut new_total = Fx::zero();
    if j.stiffness.raw == 0 && j.damping.raw == 0 {
    } else {
        let hk = dt.times(j.stiffness);
        let gden = dt.times(j.damping).plus(dt.times(hk));
        if gden.raw <= 0 {
        } else {
            let gamma = Fx::one().divide(gden);
            let c = ax.length.minus(j.rest_length);
            let bias = c.times(hk).times(gamma);
            let denom = ax.k_sum.plus(gamma);
            if denom.raw <= 0 {
                new_total = old_imp;
            } else {
                let m = Fx::one().divide(denom);
                let rhs = vrel.plus(bias).plus(gamma.times(old_imp));
                new_total = old_imp.plus(m.times(rhs).neg());
            }
        }
    }
    j.impulse = new_total;
    let delta = new_total.minus(old_imp);
    let p = ax.dir.scale(delta);
    b1.apply_impulse(p.neg(), j.local_anchor1);
    b2.apply_impulse(p, j.local_anchor2);
    proof {
        if old(j).stiffness@ == 0 && old(j).damping@ == 0 && old(j).impulse@ == 0 {
            lemma_scale_by_zero(ax.dir);
            lemma_scale_by_zero(Vec3 { x: fx(0), y: fx(0), z: fx(0) });
            lemma_apply_zero_impulse(*old(b1), old(j).local_anchor1);
            lemma_apply_zero_impulse(*old(b2), old(j).local_anchor2);
        }
    }
}

/// One lower-limit solve along the prepared axis: keeps the separation from
/// shrinking below `limits_min_length` while the limit is active, with the
/// accumulator clamped at zero. Does nothing when limits are disabled or both
/// bodies are immovable along the axis.
pub fn solve_lower_limit(
    j: &mut SpringJoint,
    ax: &JointAxis,
    b1: &mut BodyState,
    b2: &mut BodyState,
    dt: Fx,
)
    requires
        dt@ > 0,
    ensures
        final(j).limits_lower_impulse@ == spec_lower_new_impulse(
            *old(j),
            *ax,
            *old(b1),
            *old(b2),
            dt,
        ),
        *final(j) == (SpringJoint {
            limits_lower_impulse: final(j).limits_lower_impulse,
            ..*old(j)
        }),
        *final(b1) == spec_apply_impulse(
            *old(b1),
            spec_vneg(
                spec_vscale(
                    ax.dir,
                    fx(fsub(final(j).limits_lower_impulse@, old(j).limits_lower_impulse@)),
                ),
            ),
            old(j).local_anchor1,
        ),
        *final(b2) == spec_apply_impulse(
            *old(b2),
            spec_vscale(
                ax.dir,
                fx(fsub(final(j).limits_lower_impulse@, old(j).limits_lower_impulse@)),
            ),
            old(j).local_anchor2,
        ),
        old(j).limits_enabled && ax.k_sum@ > 0 ==> final(j).limits_lower_impulse@ >= 0,
        old(j).limits_lower_impulse@ >= 0 ==> final(j).limits_lower_impulse@ >= 0,
        !old(j).limits_enabled ==> *final(j) == *old(j) && *final(b1) == *old(b1) && *final(b2)
            == *old(b2),
{
    let v1 = b1.point_velocity(j.local_anchor1);
    let v2 = b2.point_velocity(j.local_anchor2);
    let vrel = v2.minus(v1).dot(ax.dir);
    let old_acc = j.limits_lower_impulse;
    let mut new_acc = old_acc;
    if j.limits_enabled && ax.k_sum.raw > 0 {
        let inv_h = Fx::one().divide(dt);
        let m = Fx::one().divide(ax.k_sum);
        let c = ax.length.minus(j.limits_min_length);
        let bias = c.times(inv_h);
        let rhs = vrel.plus(bias);
        new_acc = old_acc.plus(m.times(rhs).neg()).max_with(Fx::zero());
    }
    j.limits_lower_impulse = new_acc;
    let delta = new_acc.minus(old_acc);
    let p = ax.dir.scale(delta);
    b1.apply_impulse(p.neg(), j.local_anchor1);
    b2.apply_impulse(p, j.local_anchor2);
    proof {
        if !old(j).limits_enabled {
            lemma_scale_by_zero(ax.dir);
            lemma_scale_by_zero(Vec3 { x: fx(0), y: fx(0), z: fx(0) });
            lemma_apply_zero_impulse(*old(b1), old(j).local_anchor1);
            lemma_apply_zero_impulse(*old(b2), old(j).local_anchor2);
        }
    }
}

/// One upper-limit solve along the prepared axis: the mirror of the lower
/// limit at `limits_max_length`, pushing the anchors together when the
/// separation exceeds it.
pub fn solve_upper_limit(
    j: &mut SpringJoint,
    ax: &JointAxis,
    b1: &mut BodyState,
    b2: &mut BodyState,
    dt: Fx,
)
    requires
        dt@ > 0,
    ensures
        final(j).limits_upper_impulse@ == spec_upper_new_impulse(
            *old(j),
            *ax,
            *old(b1),
            *old(b2),
            dt,
        ),
        *final(j) == (SpringJoint {
            limits_upper_impulse: final(j).limits_upper_impulse,
            ..*old(j)
        }),
        *final(b1) == spec_apply_impulse(
            *old(b1),
            spec_vscale(
                ax.dir,
                fx(fsub(final(j).limits_upper_impulse@, old(j).limits_upper_impulse@)),
            ),
            old(j).local_anchor1,
        ),
        *final(b2) == spec_apply_impulse(
            *old(b2),
            spec_vneg(
                spec_vscale(
                    ax.dir,
                    fx(fsub(final(j).limits_upper_impulse@, old(j).limits_upper_impulse@)),
                ),
            ),
            old(j).local_anchor2,
        ),
        old(j).limits_enabled && ax.k_sum@ > 0 ==> final(j).limits_upper_impulse@ >= 0,
        old(j).limits_upper_impulse@ >= 0 ==> final(j).limits_upper_impulse@ >= 0,
        !old(j).limits_enabled ==> *final(j) == *old(j) && *final(b1) == *old(b1) && *final(b2)
            == *old(b2),
{
    let v1 = b1.point_velocity(j.local_anchor1);
    let v2 = b2.point_velocity(j.local_anchor2);
    let vrel = v2.minus(v1).dot(ax.dir);
    let old_acc = j.limits_upper_impulse;
    let mut new_acc = old_acc;
    if j.limits_enabled && ax.k_sum.raw > 0 {
        let inv_h = Fx::one().divide(dt);
        let m = Fx::one().divide(ax.k_sum);
        let c = j.limits_max_length.minus(ax.length);
        let bias = c.times(inv_h);
        let rhs = vrel.neg().plus(bias);
        new_acc = old_acc.plus(m.times(rhs).neg()).max_with(Fx::zero());
    }
    j.limits_upper_impulse = new_acc;
    let delta = new_acc.minus(old_acc);
    let p = ax.dir.scale(delta);
    b1.apply_impulse(p, j.local_anchor1);
    b2.apply_impulse(p.neg(), j.local_anchor2);
    proof {
        if !old(j).limits_enabled {
            lemma_scale_by_zero(ax.dir);
            lemma_scale_by_zero(Vec3 { x: fx(0), y: fx(0), z: fx(0) });
            lemma_apply_zero_impulse(*old(b1), old(j).local_anchor1);
            lemma_apply_zero_impulse(*old(b2), old(j).local_anchor2);
        }
    }
}

/// Complementarity of the lower limit: once the separation is at or above the
/// minimum length and the anchors are not approaching, a lower-limit solve
/// never grows the accumulator, so a stale impulse relaxes toward zero.
pub proof fn lemma_lower_limit_relaxes(
    j: SpringJoint,
    ax: JointAxis,
    b1: BodyState,
    b2: BodyState,
    dt: Fx,
)
    requires
        dt@ > 0,
        j.limits_lower_impulse@ >= 0,
        ax.length@ >= j.limits_min_length@,
        spec_vrel(j, ax, b1, b2) >= 0,
    ensures
        0 <= spec_lower_new_impulse(j, ax, b1, b2, dt) <= j.limits_lower_impulse@,
{
    let s = FX_SCALE as int;
    if j.limits_enabled && ax.k_sum@ > 0 {
        let inv_h = fdiv(s, dt@);
        let m = fdiv(s, ax.k_sum@);
        lemma_fdiv_pos(s, ax.k_sum@);
        lemma_fdiv_pos(s, dt@);
        let c = fsub(ax.length@, j.limits_min_length@);
        assert(c >= 0);
        lemma_fmul_left_nonneg(c, inv_h);
        let vrel = spec_vrel(j, ax, b1, b2);
        let rhs = fadd(vrel, fmul(c, inv_h));
        lemma_fmul_left_nonneg(m, rhs);
    }
}

/// Complementarity of the upper limit: once the separation is at or below the
/// maximum length and the anchors are not separating, an upper-limit solve
/// never grows the accumulator.
pub proof fn lemma_upper_limit_relaxes(
    j: SpringJoint,
    ax: JointAxis,
    b1: BodyState,
    b2: BodyState,
    dt: Fx,
)
    requires
        dt@ > 0,
        j.limits_upper_impulse@ >= 0,
        ax.length@ <= j.limits_max_length@,
        spec_vrel(j, ax, b1, b2) <= 0,
    ensures
        0 <= spec_upper_new_impulse(j, ax, b1, b2, dt) <= j.limits_upper_impulse@,
{
    let s = FX_SCALE as int;
    if j.limits_enabled && ax.k_sum@ > 0 {
        let inv_h = fdiv(s, dt@);
        let m = fdiv(s, ax.k_sum@);
        lemma_fdiv_pos(s, ax.k_sum@);
        lemma_fdiv_pos(s, dt@);
        let c = fsub(j.limits_max_length@, ax.length@);
        assert(c >= 0);
        lemma_fmul_left_nonneg(c, inv_h);
        let vrel = spec_vrel(j, ax, b1, b2);
        let rhs = fadd(sat64(-vrel), fmul(c, inv_h));
        lemma_fmul_left_nonneg(m, rhs);
    }
}

/// One whole substep for one joint, as a function of the state before it:
/// prepare the axis from the current poses, then solve the spring, then the
/// lower limit, then the upper limit, each applying its accumulator change to
/// the two bodies.
pub open spec fn spec_solve_joint(j: SpringJoint, b1: BodyState, b2: BodyState, dt: Fx) -> (
    SpringJoint,
    BodyState,
    BodyState,
) {
    let ax = spec_prepare(j, b1, b2);
    let pw = spec_vscale(ax.dir, fx(spec_warm_impulse(j)));
    let b1w = spec_apply_impulse(b1, spec_vneg(pw), j.local_anchor1);
    let b2w = spec_apply_impulse(b2, pw, j.local_anchor2);
    let ns = spec_spring_new_impulse(j, ax, b1w, b2w, dt);
    let ds = fsub(ns, j.impulse@);
    let j1 = SpringJoint { impulse: fx(ns), ..j };
    let p = spec_vscale(ax.dir, fx(ds));
    let b1a = spec_apply_impulse(b1w, spec_vneg(p), j.local_anchor1);
    let b2a = spec_apply_impulse(b2w, p, j.local_anchor2);
    let nl = spec_lower_new_impulse(j1, ax, b1a, b2a, dt);
    let dl = fsub(nl, j1.limits_lower_impulse@);
    let j2 = SpringJoint { limits_lower_impulse: fx(nl), ..j1 };
    let pl = spec_vscale(ax.dir, fx(dl));
    let b1b = spec_apply_impulse(b1a, spec_vneg(pl), j.local_anchor1);
    let b2b = spec_apply_impulse(b2a, pl, j.local_anchor2);
    let nu = spec_upper_new_impulse(j2, ax, b1b, b2b, dt);
    let du = fsub(nu, j2.limits_upper_impulse@);
    let j3 = SpringJoint { limits_upper_impulse: fx(nu), ..j2 };
    let pu = spec_vscale(ax.dir, fx(du));
    let b1c = spec_apply_impulse(b1b, pu, j.local_anchor1);
    let b2c = spec_apply_impulse(b2b, spec_vneg(pu), j.local_anchor2);
    (j3, b1c, b2c)
}

/// One whole substep for one joint: prepare, warm start, spring solve, lower
/// limit, upper limit, in that fixed documented order. Only the joint's
/// accumulators and the bodies' velocities change; configuration, poses and
/// masses do not.
pub fn solve(j: &mut SpringJoint, b1: &mut BodyState, b2: &mut BodyState, dt: Fx)
    requires
        dt@ > 0,
    ensures
        (*final(j), *final(b1), *final(b2)) == spec_solve_joint(*old(j), *old(b1), *old(b2), dt),
        *final(j) == (SpringJoint {
            impulse: final(j).impulse,
            limits_lower_impulse: final(j).limits_lower_impulse,
            limits_upper_impulse: final(j).limits_upper_impulse,
            ..*old(j)
        }),
        final(b1).position == old(b1).position,
        final(b2).position == old(b2).position,
        final(b1).inv_mass == old(b1).inv_mass,
        final(b1).inv_inertia == old(b1).inv_inertia,
        final(b2).inv_mass == old(b2).inv_mass,
        final(b2).inv_inertia == old(b2).inv_inertia,
        old(b1).wf() ==> final(b1).wf(),
        old(b2).wf() ==> final(b2).wf(),
        old(j).wf() ==> final(j).wf(),
{
    let ax = prepare(j, b1, b2);
    warm_start(j, &ax, b1, b2);
    solve_spring(j, &ax, b1, b2, dt);
    solve_lower_limit(j, &ax, b1, b2, dt);
    solve_upper_limit(j, &ax, b1, b2, dt);
}

/// Swap symmetry of the prepared axis: exchanging the two bodies and their
/// anchors flips the separation direction exactly and keeps the length and
/// the effective-mass sum, whenever the poses and anchors are moderate enough
/// that nothing saturates and the anchors do not coincide. The impulse law
/// reads the bodies only through projections on the axis, which the flip
/// leaves unchanged, so the swapped joint produces mirrored motion.
pub proof fn lemma_axis_swap(j: SpringJoint, js: SpringJoint, b1: BodyState, b2: BodyState)
    requires
        js.local_anchor1 == j.local_anchor2,
        js.local_anchor2 == j.local_anchor1,
        within(b1.position, (i64::MAX as int) / 8),
        within(b2.position, (i64::MAX as int) / 8),
        within(j.local_anchor1, (i64::MAX as int) / 8),
        within(j.local_anchor2, (i64::MAX as int) / 8),
        spec_prepare(j, b1, b2).length@ > 0,
    ensures
        spec_prepare(js, b2, b1) == (JointAxis {
            dir: spec_vneg(spec_prepare(j, b1, b2).dir),
            length: spec_prepare(j, b1, b2).length,
            k_sum: spec_prepare(j, b1, b2).k_sum,
        }),
        within(spec_prepare(j, b1, b2).dir, FX_SCALE as int),
{
    let ax = spec_prepare(j, b1, b2);
    let p1 = spec_vadd(b1.position, j.local_anchor1);
    let p2 = spec_vadd(b2.position, j.local_anchor2);
    let d = spec_vsub(p2, p1);
    let ds = spec_vsub(p1, p2);
    lemma_vsub_antisymmetry(p2, p1);
    assert(ds == spec_vneg(d));
    lemma_norm_neg_invariant(d);
    let len = spec_norm(d);
    assert(len > 0);
    let lfx = fx(len);
    lemma_component_le_norm(d);
    lemma_unit_quotient_fits(d.x@, len);
    lemma_unit_quotient_fits(d.y@, len);
    lemma_unit_quotient_fits(d.z@, len);
    lemma_vdiv_neg(d, lfx);
    let dir = spec_vdiv(d, lfx);
    assert(spec_vdiv(ds, lfx) == spec_vneg(dir));
    assert(within(dir, FX_SCALE as int));
    let c1 = spec_cross(j.local_anchor1, dir);
    let c2 = spec_cross(j.local_anchor2, dir);
    lemma_cross_neg_right(j.local_anchor2, dir);
    lemma_cross_neg_right(j.local_anchor1, dir);
    lemma_fmul_unit_bound(j.local_anchor1.x@, dir.x@);
    lemma_fmul_unit_bound(j.local_anchor1.x@, dir.y@);
    lemma_fmul_unit_bound(j.local_anchor1.x@, dir.z@);
    lemma_fmul_unit_bound(j.local_anchor1.y@, dir.x@);
    lemma_fmul_unit_bound(j.local_anchor1.y@, dir.y@);
    lemma_fmul_unit_bound(j.local_anchor1.y@, dir.z@);
    lemma_fmul_unit_bound(j.local_anchor1.z@, dir.x@);
    lemma_fmul_unit_bound(j.local_anchor1.z@, dir.y@);
    lemma_fmul_unit_bound(j.local_anchor1.z@, dir.z@);
    lemma_fmul_unit_bound(j.local_anchor2.x@, dir.x@);
    lemma_fmul_unit_bound(j.local_anchor2.x@, dir.y@);
    lemma_fmul_unit_bound(j.local_anchor2.x@, dir.z@);
    lemma_fmul_unit_bound(j.local_anchor2.y@, dir.x@);
    lemma_fmul_unit_bound(j.local_anchor2.y@, dir.y@);
    lemma_fmul_unit_bound(j.local_anchor2.y@, dir.z@);
    lemma_fmul_unit_bound(j.local_anchor2.z@, dir.x@);
    lemma_fmul_unit_bound(j.local_anchor2.z@, dir.y@);
    lemma_fmul_unit_bound(j.local_anchor2.z@, dir.z@);
    assert(negatable(c1));
    assert(negatable(c2));
    lemma_dot_neg_invariant(c1, c1);
    lemma_dot_neg_invariant(c2, c2);
}

/// Swap symmetry of the relative velocity: against the flipped axis, the
/// swapped pair projects to the same scalar, whenever no anchor velocity is
/// extreme enough that their difference saturates.
pub proof fn lemma_vrel_swap(
    j: SpringJoint,
    js: SpringJoint,
    ax: JointAxis,
    axs: JointAxis,
    b1: BodyState,
    b2: BodyState,
)
    requires
        js.local_anchor1 == j.local_anchor2,
        js.local_anchor2 == j.local_anchor1,
        axs.dir == spec_vneg(ax.dir),
        within(ax.dir, FX_SCALE as int),
        within(spec_point_velocity(b1, j.local_anchor1), (i64::MAX as int) / 2),
        within(spec_point_velocity(b2, j.local_anchor2), (i64::MAX as int) / 2),
    ensures
        spec_vrel(js, axs, b2, b1) == spec_vrel(j, ax, b1, b2),
{
    let pv1 = spec_point_velocity(b1, j.local_anchor1);
    let pv2 = spec_point_velocity(b2, j.local_anchor2);
    lemma_vsub_antisymmetry(pv2, pv1);
    let u = spec_vsub(pv2, pv1);
    lemma_dot_neg_invariant(u, ax.dir);
}

/// Swap symmetry of the accumulators: solved against the flipped axis with
/// the swapped bodies, the swapped joint computes the same new spring, lower
/// and upper impulses. Together with `lemma_axis_swap` this shows that a body
/// swap leaves the whole solver state of the joint unchanged; the velocity
/// deltas it applies are then the same impulses along the flipped axis. The
/// boundedness conditions rule saturation out; coinciding anchors are ruled
/// out because both orders would then use the same fallback axis instead of
/// flipped ones.
pub proof fn lemma_accumulators_swap_invariant(
    j: SpringJoint,
    js: SpringJoint,
    b1: BodyState,
    b2: BodyState,
    dt: Fx,
)
    requires
        js.local_anchor1 == j.local_anchor2,
        js.local_anchor2 == j.local_anchor1,
        js.rest_length == j.rest_length,
        js.stiffness == j.stiffness,
        js.damping == j.damping,
        js.impulse == j.impulse,
        js.limits_enabled == j.limits_enabled,
        js.limits_min_length == j.limits_min_length,
        js.limits_max_length == j.limits_max_length,
        js.limits_lower_impulse == j.limits_lower_impulse,
        js.limits_upper_impulse == j.limits_upper_impulse,
        within(b1.position, (i64::MAX as int) / 8),
        within(b2.position, (i64::MAX as int) / 8),
        within(j.local_anchor1, (i64::MAX as int) / 8),
        within(j.local_anchor2, (i64::MAX as int) / 8),
        within(spec_point_velocity(b1, j.local_anchor1), (i64::MAX as int) / 2),
        within(spec_point_velocity(b2, j.local_anchor2), (i64::MAX as int) / 2),
        spec_prepare(j, b1, b2).length@ > 0,
    ensures
        spec_spring_new_impulse(js, spec_prepare(js, b2, b1), b2, b1, dt)
            == spec_spring_new_impulse(j, spec_prepare(j, b1, b2), b1, b2, dt),
        spec_lower_new_impulse(js, spec_prepare(js, b2, b1), b2, b1, dt)
            == spec_lower_new_impulse(j, spec_prepare(j, b1, b2), b1, b2, dt),
        spec_upper_new_impulse(js, spec_prepare(js, b2, b1), b2, b1, dt)
            == spec_upper_new_impulse(j, spec_prepare(j, b1, b2), b1, b2, dt),
{
    lemma_axis_swap(j, js, b1, b2);
    let ax = spec_prepare(j, b1, b2);
    let axs = spec_prepare(js, b2, b1);
    lemma_vrel_swap(j, js, ax, axs, b1, b2);
}

/// Zero-coefficient law: a spring with zero stiffness and zero damping, no
/// limits and clean accumulators constrains nothing — a whole substep leaves
/// the joint and both bodies exactly as they were, for any separation and any
/// velocities.
pub proof fn lemma_free_joint_inert(j: SpringJoint, b1: BodyState, b2: BodyState, dt: Fx)
    requires
        dt@ > 0,
        j.stiffness@ == 0,
        j.damping@ == 0,
        j.impulse@ == 0,
        j.limits_lower_impulse@ == 0,
        j.limits_upper_impulse@ == 0,
        !j.limits_enabled,
    ensures
        spec_solve_joint(j, b1, b2, dt) == (j, b1, b2),
{
    let ax = spec_prepare(j, b1, b2);
    let zv = Vec3 { x: fx(0), y: fx(0), z: fx(0) };
    lemma_scale_by_zero(ax.dir);
    assert(spec_vneg(zv) == zv);
    lemma_apply_zero_impulse(b1, j.local_anchor1);
    lemma_apply_zero_impulse(b2, j.local_anchor2);
}

/// The fixed-point dot product of a vector with itself is never negative.
pub proof fn lemma_sq_dot_nonneg(a: Vec3)
    ensures
        spec_dot(a, a) >= 0,
{
    lemma_fmul_sq(a.x@);
    lemma_fmul_sq(a.y@);
    lemma_fmul_sq(a.z@);
}

/// The fixed-point square of a scalar is never negative.
pub proof fn lemma_fmul_sq(a: int)
    ensures
        fmul(a, a) >= 0,
{
    assert(a * a >= 0) by (nonlinear_arith);
    lemma_tdiv_range(a * a, FX_SCALE as int);
}

} // verus!
