//! Checkpointing: a spring joint as a flat record of raw words.
//!
//! Every configuration field and every accumulator round-trips exactly, so a
//! simulation can be checkpointed and resumed without a solver cold start.

use vstd::prelude::*;
use crate::fx::Fx;
use crate::vec3::Vec3;
use crate::spring::SpringJoint;

verus! {

/// The flat form of a joint: fifteen raw words, anchors first, then the
/// scalar configuration and the three accumulators, with the limit flag as a
/// single 0-or-1 word.
pub open spec fn spec_encode(j: SpringJoint) -> Seq<i64> {
    seq![
        j.local_anchor1.x.raw,
        j.local_anchor1.y.raw,
        j.local_anchor1.z.raw,
        j.local_anchor2.x.raw,
        j.local_anchor2.y.raw,
        j.local_anchor2.z.raw,
        j.rest_length.raw,
        j.stiffness.raw,
        j.damping.raw,
        j.impulse.raw,
        if j.limits_enabled { 1i64 } else { 0i64 },
        j.limits_min_length.raw,
        j.limits_max_length.raw,
        j.limits_lower_impulse.raw,
        j.limits_upper_impulse.raw,
    ]
}

/// The joint a flat record denotes: defined exactly for records of the right
/// length whose limit flag is 0 or 1.
pub open spec fn spec_decode(s: Seq<i64>) -> Option<SpringJoint> {
    if s.len() == 15 && (s[10] == 0i64 || s[10] == 1i64) {
        Option::Some(
            SpringJoint {
                local_anchor1: Vec3 { x: Fx { raw: s[0] }, y: Fx { raw: s[1] }, z: Fx { raw: s[2] } },
                local_anchor2: Vec3 { x: Fx { raw: s[3] }, y: Fx { raw: s[4] }, z: Fx { raw: s[5] } },
                rest_length: Fx { raw: s[6] },
                stiffness: Fx { raw: s[7] },
                damping: Fx { raw: s[8] },
                impulse: Fx { raw: s[9] },
                limits_enabled: s[10] == 1i64,
                limits_min_length: Fx { raw: s[11] },
                limits_max_length: Fx { raw: s[12] },
                limits_lower_impulse: Fx { raw: s[13] },
                limits_upper_impulse: Fx { raw: s[14] },
            },
        )
    } else {
        Option::None
    }
}

/// Round trip: decoding an encoded joint restores every field exactly,
/// accumulators included.
pub proof fn lemma_checkpoint_round_trip(j: SpringJoint)
    ensures
        spec_decode(spec_encode(j)) == Option::Some(j),
{
    let s = spec_encode(j);
    assert(s.len() == 15);
    assert(spec_decode(s) is Some);
    assert(spec_decode(s)->Some_0 == j);
}

/// Writes the joint as a flat record of fifteen raw words.
pub fn encode(j: &SpringJoint) -> (r: Vec<i64>)
    ensures
        r@ == spec_encode(*j),
{
    let mut v: Vec<i64> = Vec::new();
    v.push(j.local_anchor1.x.raw);
    v.push(j.local_anchor1.y.raw);
    v.push(j.local_anchor1.z.raw);
    v.push(j.local_anchor2.x.raw);
    v.push(j.local_anchor2.y.raw);
    v.push(j.local_anchor2.z.raw);
    v.push(j.rest_length.raw);
    v.push(j.stiffness.raw);
    v.push(j.damping.raw);
    v.push(j.impulse.raw);
    if j.limits_enabled {
        v.push(1i64);
    } else {
        v.push(0i64);
    }
    v.push(j.limits_min_length.raw);
    v.push(j.limits_max_length.raw);
    v.push(j.limits_lower_impulse.raw);
    v.push(j.limits_upper_impulse.raw);
    proof {
        assert(v@ =~= spec_encode(*j));
    }
    v
}

/// Reads a joint back from a flat record; `None` when the record has the
/// wrong length or an invalid limit flag.
pub fn decode(v: &Vec<i64>) -> (r: Option<SpringJoint>)
    ensures
        r == spec_decode(v@),
{
    if v.len() != 15 {
        return None;
    }
    let flag = v[10];
    if flag != 0 && flag != 1 {
        return None;
    }
    Some(
        SpringJoint {
            local_anchor1: Vec3 {
                x: Fx { raw: v[0] },
                y: Fx { raw: v[1] },
                z: Fx { raw: v[2] },
            },
            local_anchor2: Vec3 {
                x: Fx { raw: v[3] },
                y: Fx { raw: v[4] },
                z: Fx { raw: v[5] },
            },
            rest_length: Fx { raw: v[6] },
            stiffness: Fx { raw: v[7] },
            damping: Fx { raw: v[8] },
            impulse: Fx { raw: v[9] },
            limits_enabled: flag == 1,
            limits_min_length: Fx { raw: v[11] },
            limits_max_length: Fx { raw: v[12] },
            limits_lower_impulse: Fx { raw: v[13] },
            limits_upper_impulse: Fx { raw: v[14] },
        },
    )
}

} // verus!
