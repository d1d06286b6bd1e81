//! Handle-keyed joint registry and the per-substep solver loop.
//!
//! Joints are stored in insertion order under stable index handles; removal
//! leaves a hole, so handles never shift. The substep loop visits joints in
//! ascending handle order every time, which makes repeated runs on identical
//! inputs bit-reproducible. A joint only reads and writes its own accumulators
//! and the velocities of its two bodies, so islands that share no body could
//! run this loop concurrently.

use vstd::prelude::*;
use crate::fx::Fx;
use crate::body::BodyState;
use crate::spring::SpringJoint;
use crate::solver::{spec_solve_joint, solve};

verus! {

/// One registered joint: the handles of its two bodies and the joint state.
#[derive(Clone, Copy, PartialEq, Eq, Structural, Debug)]
pub struct JointEntry {
    /// Index of the first body in the body store.
    pub body1: usize,
    /// Index of the second body in the body store.
    pub body2: usize,
    /// The joint's configuration and solver state.
    pub joint: SpringJoint,
}

/// Handle-keyed store of joints; a handle is the index a joint was inserted
/// at, stable until the joint is removed.
pub struct JointSet {
    /// The slots, in insertion order; a removed joint leaves `None`.
    pub entries: Vec<Option<JointEntry>>,
}

/// The effect of one substep on the slot `e`: a present joint whose body
/// handles are distinct and in range is solved against its two bodies; any
/// other slot is left as it is.
pub open spec fn spec_step_entry(e: Option<JointEntry>, bodies: Seq<BodyState>, dt: Fx) -> (
    Option<JointEntry>,
    Seq<BodyState>,
) {
    match e {
        Option::None => (e, bodies),
        Option::Some(en) => {
            if en.body1 < bodies.len() && en.body2 < bodies.len() && en.body1 != en.body2 {
                let r = spec_solve_joint(en.joint, bodies[en.body1 as int], bodies[en.body2 as int], dt);
                (
                    Option::Some(JointEntry { joint: r.0, ..en }),
                    bodies.update(en.body1 as int, r.1).update(en.body2 as int, r.2),
                )
            } else {
                (e, bodies)
            }
        },
    }
}

/// The registry and the bodies after the first `k` slots of a substep have
/// been solved, in ascending slot order.
pub open spec fn spec_step_upto(
    entries: Seq<Option<JointEntry>>,
    bodies: Seq<BodyState>,
    dt: Fx,
    k: int,
) -> (Seq<Option<JointEntry>>, Seq<BodyState>)
    decreases k,
{
    if k <= 0 {
        (entries, bodies)
    } else {
        let prev = spec_step_upto(entries, bodies, dt, k - 1);
        let stepped = spec_step_entry(prev.0[k - 1], prev.1, dt);
        (prev.0.update(k - 1, stepped.0), stepped.1)
    }
}

impl JointSet {
    /// An empty registry.
    pub fn new() -> (r: JointSet)
        ensures
            r.entries@ =~= Seq::<Option<JointEntry>>::empty(),
    {
        JointSet { entries: Vec::new() }
    }

    /// Number of slots, removed ones included; also the next handle.
    pub fn slot_count(&self) -> (r: usize)
        ensures
            r == self.entries@.len(),
    {
        self.entries.len()
    }

    /// Registers a joint between two bodies and returns its handle.
    pub fn insert(&mut self, body1: usize, body2: usize, joint: SpringJoint) -> (handle: usize)
        ensures
            handle == old(self).entries@.len(),
            final(self).entries@ == old(self).entries@.push(
                Option::Some(JointEntry { body1, body2, joint }),
            ),
    {
        let handle = self.entries.len();
        self.entries.push(Some(JointEntry { body1, body2, joint }));
        handle
    }

    /// Removes the joint under `handle` and hands it back; `None` when the
    /// handle is out of range or already removed. Other handles stay valid.
    pub fn remove(&mut self, handle: usize) -> (r: Option<JointEntry>)
        ensures
            handle < old(self).entries@.len() ==> r == old(self).entries@[handle as int]
                && final(self).entries@ == old(self).entries@.update(handle as int, Option::None),
            handle >= old(self).entries@.len() ==> r is None && final(self).entries@ == old(
                self,
            ).entries@,
    {
        if handle < self.entries.len() {
            let e = self.entries[handle];
            self.entries.set(handle, None);
            e
        } else {
            None
        }
    }

    /// Removes every joint that references the body under `body`: the cascade
    /// a body's removal owes, so no joint ever dangles. Handles of the other
    /// joints stay valid.
    pub fn remove_joints_of_body(&mut self, body: usize)
        ensures
            final(self).entries@.len() == old(self).entries@.len(),
            forall|i: int|
                0 <= i < old(self).entries@.len() ==> final(self).entries@[i] == (
                match old(self).entries@[i] {
                    Option::None => Option::<JointEntry>::None,
                    Option::Some(en) => if en.body1 == body || en.body2 == body {
                        Option::<JointEntry>::None
                    } else {
                        Option::Some(en)
                    },
                }),
    {
        let n = self.entries.len();
        let mut i: usize = 0;
        while i < n
            invariant
                i <= n,
                n == old(self).entries@.len(),
                self.entries@.len() == n,
                forall|k: int|
                    0 <= k < i ==> self.entries@[k] == (match old(self).entries@[k] {
                        Option::None => Option::<JointEntry>::None,
                        Option::Some(en) => if en.body1 == body || en.body2 == body {
                            Option::<JointEntry>::None
                        } else {
                            Option::Some(en)
                        },
                    }),
                forall|k: int| i <= k < n ==> self.entries@[k] == old(self).entries@[k],
            decreases n - i,
        {
            if let Some(en) = self.entries[i] {
                if en.body1 == body || en.body2 == body {
                    self.entries.set(i, None);
                }
            }
            i = i + 1;
        }
    }

    /// The joint entry under `handle`, when it is present.
    pub fn get(&self, handle: usize) -> (r: Option<JointEntry>)
        ensures
            handle < self.entries@.len() ==> r == self.entries@[handle as int],
            handle >= self.entries@.len() ==> r is None,
    {
        if handle < self.entries.len() {
            self.entries[handle]
        } else {
            None
        }
    }

    /// Runs one substep over every registered joint, in ascending handle
    /// order: each present joint with distinct in-range body handles is
    /// prepared and solved against its two bodies, leaving its accumulators
    /// warm for the next substep. Slots with removed, dangling or self-paired
    /// joints are skipped.
    pub fn step_substep(&mut self, bodies: &mut Vec<BodyState>, dt: Fx)
        requires
            dt@ > 0,
        ensures
            final(self).entries@ == spec_step_upto(
                old(self).entries@,
                old(bodies)@,
                dt,
                old(self).entries@.len() as int,
            ).0,
            final(bodies)@ == spec_step_upto(
                old(self).entries@,
                old(bodies)@,
                dt,
                old(self).entries@.len() as int,
            ).1,
            final(bodies)@.len() == old(bodies)@.len(),
            final(self).entries@.len() == old(self).entries@.len(),
    {
        let n = self.entries.len();
        let mut i: usize = 0;
        while i < n
            invariant
                i <= n,
                dt@ > 0,
                n == old(self).entries@.len(),
                self.entries@.len() == n,
                bodies@.len() == old(bodies)@.len(),
                self.entries@ == spec_step_upto(old(self).entries@, old(bodies)@, dt, i as int).0,
                bodies@ == spec_step_upto(old(self).entries@, old(bodies)@, dt, i as int).1,
            decreases n - i,
        {
            let e = self.entries[i];
            let stepped: Option<JointEntry>;
            match e {
                None => {
                    stepped = None;
                },
                Some(en) => {
                    if en.body1 < bodies.len() && en.body2 < bodies.len() && en.body1 != en.body2 {
                        let mut j = en.joint;
                        let mut s1 = bodies[en.body1];
                        let mut s2 = bodies[en.body2];
                        solve(&mut j, &mut s1, &mut s2, dt);
                        bodies.set(en.body1, s1);
                        bodies.set(en.body2, s2);
                        stepped = Some(JointEntry { body1: en.body1, body2: en.body2, joint: j });
                    } else {
                        stepped = e;
                    }
                },
            }
            self.entries.set(i, stepped);
            i = i + 1;
        }
    }
}

} // verus!
