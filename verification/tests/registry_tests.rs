use spring_joints::{BodyState, Fx, JointSet, SpringJoint, Vec3};

fn fxi(v: i32) -> Fx {
    Fx::from_int(v)
}

fn v3(x: i32, y: i32, z: i32) -> Vec3 {
    Vec3::new(fxi(x), fxi(y), fxi(z))
}

fn dt() -> Fx {
    Fx::new(1092)
}

fn dynamic_body(pos: Vec3) -> BodyState {
    BodyState::new(pos, Vec3::zero(), Vec3::zero(), Fx::one(), Fx::zero())
}

fn spring() -> SpringJoint {
    SpringJoint::new(Vec3::zero(), Vec3::zero(), fxi(4), fxi(25), fxi(0))
}

#[test]
fn handles_are_stable_across_removal() {
    let mut set = JointSet::new();
    let h0 = set.insert(0, 1, spring());
    let h1 = set.insert(1, 2, spring());
    let h2 = set.insert(0, 2, spring());
    assert_eq!((h0, h1, h2), (0, 1, 2));
    assert_eq!(set.slot_count(), 3);
    let removed = set.remove(h1).expect("joint 1 was present");
    assert_eq!((removed.body1, removed.body2), (1, 2));
    assert!(set.get(h1).is_none());
    assert_eq!(set.get(h2).expect("joint 2 still present").body2, 2);
    assert!(set.remove(h1).is_none());
    assert!(set.remove(99).is_none());
}

#[test]
fn removing_a_body_cascades_to_its_joints() {
    let mut set = JointSet::new();
    let h0 = set.insert(0, 1, spring());
    let h1 = set.insert(1, 2, spring());
    let h2 = set.insert(2, 3, spring());
    set.remove_joints_of_body(1);
    assert!(set.get(h0).is_none());
    assert!(set.get(h1).is_none());
    assert!(set.get(h2).is_some());
    assert_eq!(set.slot_count(), 3);
}

#[test]
fn substep_solves_each_joint_in_handle_order() {
    let mut set = JointSet::new();
    set.insert(0, 1, spring());
    let mut bodies = vec![
        dynamic_body(v3(0, 0, 0)),
        dynamic_body(v3(5, 0, 0)),
        dynamic_body(v3(-9, 0, 0)),
    ];
    set.step_substep(&mut bodies, dt());
    // the joint pulled its pair together and left the third body alone
    assert!(bodies[0].linvel.x.raw > 0);
    assert!(bodies[1].linvel.x.raw < 0);
    assert_eq!(bodies[2].linvel.x.raw, 0);
    // the accumulator was left warm in the registry
    assert!(set.get(0).expect("joint present").joint.impulse.raw < 0);
}

#[test]
fn substep_skips_removed_and_dangling_joints() {
    let mut set = JointSet::new();
    let h0 = set.insert(0, 1, spring());
    set.insert(0, 7, spring());
    set.insert(1, 1, spring());
    set.remove(h0);
    let mut bodies = vec![dynamic_body(v3(0, 0, 0)), dynamic_body(v3(5, 0, 0))];
    let before = (bodies[0], bodies[1]);
    set.step_substep(&mut bodies, dt());
    assert_eq!((bodies[0], bodies[1]), before);
}

#[test]
fn repeated_runs_are_bit_identical() {
    let build = || {
        let mut set = JointSet::new();
        set.insert(0, 1, spring());
        set.insert(1, 2, spring());
        let bodies = vec![
            dynamic_body(v3(0, 0, 0)),
            dynamic_body(v3(5, 0, 0)),
            dynamic_body(v3(10, 1, -3)),
        ];
        (set, bodies)
    };
    let run = || {
        let (mut set, mut bodies) = build();
        for _ in 0..50 {
            set.step_substep(&mut bodies, dt());
            for b in bodies.iter_mut() {
                b.position = b.position.plus(b.linvel.scale(dt()));
            }
        }
        (
            set.get(0).unwrap().joint,
            set.get(1).unwrap().joint,
            bodies[0],
            bodies[1],
            bodies[2],
        )
    };
    assert_eq!(run(), run());
}
