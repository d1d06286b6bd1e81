use spring_joints::codec::{decode, encode};
use spring_joints::solver::solve;
use spring_joints::{BodyState, Fx, SpringJoint, Vec3};

fn fxi(v: i32) -> Fx {
    Fx::from_int(v)
}

fn v3(x: i32, y: i32, z: i32) -> Vec3 {
    Vec3::new(fxi(x), fxi(y), fxi(z))
}

fn zero3() -> Vec3 {
    Vec3::zero()
}

/// About 1/60 s in fixed point.
fn dt() -> Fx {
    Fx::new(1092)
}

fn to_f(x: Fx) -> f64 {
    x.raw as f64 / 65536.0
}

fn dynamic_body(pos: Vec3) -> BodyState {
    BodyState::new(pos, zero3(), zero3(), Fx::one(), Fx::zero())
}

fn static_body(pos: Vec3) -> BodyState {
    BodyState::new(pos, zero3(), zero3(), Fx::zero(), Fx::zero())
}

fn separation(b1: &BodyState, b2: &BodyState) -> f64 {
    to_f(b2.position.minus(b1.position).norm())
}

fn integrate(b: &mut BodyState, h: Fx) {
    b.position = b.position.plus(b.linvel.scale(h));
}

#[test]
fn new_zeroes_impulses_and_disables_limits() {
    let j = SpringJoint::new(v3(1, 2, 3), v3(4, 5, 6), fxi(4), fxi(25), fxi(2));
    assert_eq!(j.local_anchor1, v3(1, 2, 3));
    assert_eq!(j.local_anchor2, v3(4, 5, 6));
    assert_eq!(j.rest_length, fxi(4));
    assert_eq!(j.stiffness, fxi(25));
    assert_eq!(j.damping, fxi(2));
    assert_eq!(j.impulse.raw, 0);
    assert!(!j.limits_enabled);
    assert_eq!(j.limits_min_length.raw, 0);
    assert_eq!(j.limits_max_length.raw, i64::MAX);
    assert_eq!(j.limits_lower_impulse.raw, 0);
    assert_eq!(j.limits_upper_impulse.raw, 0);
}

#[test]
fn with_impulse_carries_solver_state_over() {
    let j = SpringJoint::with_impulse(zero3(), zero3(), fxi(4), fxi(25), fxi(0), fxi(3));
    assert_eq!(j.impulse, fxi(3));
    assert_eq!(j.limits_lower_impulse.raw, 0);
    assert_eq!(j.limits_upper_impulse.raw, 0);
    assert!(!j.limits_enabled);
}

#[test]
fn simd_eligibility_excludes_limit_bearing_joints() {
    let mut j = SpringJoint::new(zero3(), zero3(), fxi(4), fxi(25), fxi(0));
    assert!(j.supports_simd_constraints());
    assert!(j.enable_limits(fxi(2), fxi(6)));
    assert!(!j.supports_simd_constraints());
    j.disable_limits();
    assert!(j.supports_simd_constraints());
}

#[test]
fn enable_limits_rejects_inverted_range() {
    let mut j = SpringJoint::new(zero3(), zero3(), fxi(4), fxi(25), fxi(0));
    let before = j;
    assert!(!j.enable_limits(fxi(6), fxi(2)));
    assert_eq!(j, before);
    assert!(!j.enable_limits(fxi(-1), fxi(2)));
    assert_eq!(j, before);
}

#[test]
fn fixed_point_arithmetic_is_exact_on_integers() {
    assert_eq!(fxi(6).times(fxi(7)), fxi(42));
    assert_eq!(fxi(42).divide(fxi(7)), fxi(6));
    assert_eq!(fxi(40).plus(fxi(2)), fxi(42));
    assert_eq!(fxi(40).minus(fxi(-2)), fxi(42));
    assert_eq!(fxi(-42).neg(), fxi(42));
    assert_eq!(fxi(-42).abs(), fxi(42));
    assert_eq!(fxi(-3).min_with(fxi(2)), fxi(-3));
    assert_eq!(fxi(-3).max_with(fxi(2)), fxi(2));
    assert_eq!(v3(3, 4, 0).norm(), fxi(5));
    assert_eq!(v3(1, 0, 0).dot(v3(0, 1, 0)).raw, 0);
    assert_eq!(v3(1, 0, 0).cross(v3(0, 1, 0)), v3(0, 0, 1));
}

#[test]
fn zero_coefficients_give_zero_impulse() {
    // stiffness = damping = 0: impulse stays 0 for any separation and velocity.
    let mut j = SpringJoint::new(zero3(), zero3(), fxi(4), fxi(0), fxi(0));
    let mut b1 = dynamic_body(v3(0, 0, 0));
    let mut b2 = dynamic_body(v3(9, -7, 3));
    b1.linvel = v3(1, 2, 3);
    b2.linvel = v3(-4, 5, -6);
    let (c1, c2) = (b1, b2);
    for _ in 0..10 {
        solve(&mut j, &mut b1, &mut b2, dt());
    }
    assert_eq!(j.impulse.raw, 0);
    assert_eq!(b1, c1);
    assert_eq!(b2, c2);
}

#[test]
fn rest_configuration_decays_warm_impulse() {
    // At the rest length with zero relative velocity the warm-started impulse
    // magnitude decays toward zero.
    let mut j = SpringJoint::with_impulse(zero3(), zero3(), fxi(4), fxi(25), fxi(1), fxi(1));
    let b1_init = dynamic_body(v3(0, 0, 0));
    let b2_init = dynamic_body(v3(4, 0, 0));
    let mut prev = j.impulse.raw.abs();
    assert!(prev > 0);
    for _ in 0..200 {
        let mut b1 = b1_init;
        let mut b2 = b2_init;
        solve(&mut j, &mut b1, &mut b2, dt());
        let cur = j.impulse.raw.abs();
        assert!(cur <= prev);
        prev = cur;
    }
    assert!(j.impulse.raw.abs() <= 16);
}

#[test]
fn spring_pulls_separated_bodies_together() {
    let mut j = SpringJoint::new(zero3(), zero3(), fxi(4), fxi(25), fxi(0));
    let mut b1 = dynamic_body(v3(0, 0, 0));
    let mut b2 = dynamic_body(v3(5, 0, 0));
    solve(&mut j, &mut b1, &mut b2, dt());
    assert!(j.impulse.raw < 0);
    assert!(b2.linvel.x.raw < 0);
    assert!(b1.linvel.x.raw > 0);
}

#[test]
fn static_body_receives_no_velocity_change() {
    let mut j = SpringJoint::new(zero3(), zero3(), fxi(4), fxi(25), fxi(0));
    let mut b1 = static_body(v3(0, 0, 0));
    let mut b2 = dynamic_body(v3(5, 0, 0));
    let c1 = b1;
    solve(&mut j, &mut b1, &mut b2, dt());
    assert_eq!(b1, c1);
    assert!(b2.linvel.x.raw < 0);
}

#[test]
fn swapping_bodies_gives_equivalent_motion() {
    // Exchanging body1/body2 and the anchors yields the same impulse and the
    // same per-body motion, exactly, by the sign symmetry of the fixed-point
    // law.
    let a1 = v3(0, 0, 0);
    let a2 = v3(0, 1, 0);
    let mut j = SpringJoint::new(a1, a2, fxi(4), fxi(25), fxi(3));
    let mut b1 = dynamic_body(v3(0, 0, 0));
    let mut b2 = dynamic_body(v3(5, 1, -2));
    b1.linvel = v3(1, 0, -1);
    b2.linvel = v3(-2, 1, 0);
    b1.angvel = v3(0, 1, 0);
    b2.angvel = v3(1, 0, 0);
    let mut js = SpringJoint::new(a2, a1, fxi(4), fxi(25), fxi(3));
    let mut s1 = b2;
    let mut s2 = b1;
    solve(&mut j, &mut b1, &mut b2, dt());
    solve(&mut js, &mut s1, &mut s2, dt());
    assert_eq!(js.impulse, j.impulse);
    assert_eq!(s1, b2);
    assert_eq!(s2, b1);
}

#[test]
fn checkpoint_round_trip_preserves_every_field() {
    let mut j = SpringJoint::with_impulse(v3(1, 2, 3), v3(-4, 5, -6), fxi(4), fxi(25), fxi(2), fxi(-7));
    assert!(j.enable_limits(fxi(2), fxi(6)));
    j.limits_lower_impulse = Fx::new(1234);
    j.limits_upper_impulse = Fx::new(99999);
    let words = encode(&j);
    assert_eq!(words.len(), 15);
    let back = decode(&words).expect("a freshly encoded joint decodes");
    assert_eq!(back, j);
}

#[test]
fn decode_rejects_malformed_records() {
    let j = SpringJoint::new(zero3(), zero3(), fxi(4), fxi(25), fxi(0));
    let mut words = encode(&j);
    words.push(0);
    assert_eq!(decode(&words), None);
    words.pop();
    words.pop();
    assert_eq!(decode(&words), None);
    words.push(0);
    words[10] = 2;
    assert_eq!(decode(&words), None);
}

#[test]
fn energy_stays_bounded_over_a_thousand_substeps() {
    // Two bodies at separation 5, rest length 4, stiffness 25, no damping,
    // released from rest: the spring oscillates without runaway growth of the
    // two-body mechanical energy.
    let mut j = SpringJoint::new(zero3(), zero3(), fxi(4), fxi(25), fxi(0));
    let mut b1 = dynamic_body(v3(0, 0, 0));
    let mut b2 = dynamic_body(v3(5, 0, 0));
    let energy = |b1: &BodyState, b2: &BodyState| -> f64 {
        let sq = |v: Vec3| -> f64 {
            let (x, y, z) = (to_f(v.x), to_f(v.y), to_f(v.z));
            x * x + y * y + z * z
        };
        let stretch = separation(b1, b2) - 4.0;
        0.5 * sq(b1.linvel) + 0.5 * sq(b2.linvel) + 0.5 * 25.0 * stretch * stretch
    };
    let initial = energy(&b1, &b2);
    assert!((initial - 12.5).abs() < 0.01);
    let mut peak = initial;
    for _ in 0..1000 {
        solve(&mut j, &mut b1, &mut b2, dt());
        integrate(&mut b1, dt());
        integrate(&mut b2, dt());
        let e = energy(&b1, &b2);
        if e > peak {
            peak = e;
        }
    }
    assert!(peak < 50.0, "energy grew without bound: peak {peak}");
}

#[test]
fn damping_shrinks_peak_deviation() {
    // Fixed stiffness and initial displacement; higher damping gives a
    // strictly smaller peak deviation from the rest length over N steps.
    let run = |damping: i32| -> f64 {
        let mut j = SpringJoint::new(zero3(), zero3(), fxi(4), fxi(25), fxi(damping));
        let mut b1 = static_body(v3(0, 0, 0));
        let mut b2 = dynamic_body(v3(5, 0, 0));
        let mut peak = 0.0f64;
        for step in 0..300 {
            solve(&mut j, &mut b1, &mut b2, dt());
            integrate(&mut b2, dt());
            // measure once the initial displacement has been traversed, so the
            // peak reflects the oscillation the damping acts on
            if step >= 100 {
                let dev = (separation(&b1, &b2) - 4.0).abs();
                if dev > peak {
                    peak = dev;
                }
            }
        }
        peak
    };
    let undamped = run(0);
    let damped = run(5);
    assert!(damped < undamped, "damped peak {damped} not below undamped peak {undamped}");
}

#[test]
fn limits_catch_bodies_pulled_apart() {
    // Limits [2, 6]; a constant external force pulls the pair toward
    // separation 10. After settling the separation respects the upper limit,
    // the upper accumulator is loaded and the lower one stays at zero.
    let mut j = SpringJoint::new(zero3(), zero3(), fxi(4), fxi(0), fxi(0));
    assert!(j.enable_limits(fxi(2), fxi(6)));
    let mut b1 = static_body(v3(0, 0, 0));
    let mut b2 = dynamic_body(v3(5, 0, 0));
    let pull = v3(10, 0, 0);
    for _ in 0..400 {
        // external force * inv_mass * dt
        b2.linvel = b2.linvel.plus(pull.scale(b2.inv_mass).scale(dt()));
        solve(&mut j, &mut b1, &mut b2, dt());
        integrate(&mut b2, dt());
    }
    let sep = separation(&b1, &b2);
    assert!(sep <= 6.25, "separation {sep} exceeds the upper limit");
    assert!(j.limits_upper_impulse.raw > 0);
    assert_eq!(j.limits_lower_impulse.raw, 0);
}

#[test]
fn equal_limits_pin_the_separation() {
    // limits_min_length = limits_max_length = rest_length forces the
    // separation to stay near the rest length regardless of stiffness.
    let mut j = SpringJoint::new(zero3(), zero3(), fxi(4), fxi(25), fxi(0));
    assert!(j.enable_limits(fxi(4), fxi(4)));
    let mut b1 = static_body(v3(0, 0, 0));
    let mut b2 = dynamic_body(v3(5, 0, 0));
    for _ in 0..600 {
        solve(&mut j, &mut b1, &mut b2, dt());
        integrate(&mut b2, dt());
    }
    let sep = separation(&b1, &b2);
    assert!((sep - 4.0).abs() <= 0.25, "separation {sep} strayed from the rigid limit");
}
