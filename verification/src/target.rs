//! The target-seeking controller: the acceleration that brings an agent to
//! rest at its target in a fixed time.

use vstd::prelude::*;
use crate::fixed::{clamp, min, quot, div_toward_zero, COORD_LIMIT, SCALE, lemma_quot_small};
use crate::vec3::{
    V3, Vec3, lemma_bounded_fits, lemma_fits_length, lemma_with_length, lemma_length_zero,
    lemma_component_le_length,
};
use crate::kinematics::{
    Motion, Velocity, DECELERATION_TIME_SEC, DECELERATION_TIME_SEC_SQUARED, MAX_ACCELERATION,
    MAX_VELOCITY,
};
use crate::boid::BoidBundle;

verus! {

/// The point an agent steers toward, and the heading wanted there.
#[derive(Clone, Copy, Debug, PartialEq, Eq, Structural)]
pub struct Target {
    pub pos: Vec3,
    pub dir: Vec3,
}

impl Default for Target {
    fn default() -> (r: Target)
        ensures
            r.pos@ == V3::zero(),
            r.dir@ == V3::zero(),
    {
        Target { pos: Vec3::zero(), dir: Vec3::zero() }
    }
}

/// The speed of `v` along `dir`: its length, counted as negative where `v`
/// points away from `dir`.
pub open spec fn signed_speed(dir: V3, v: V3) -> int {
    if dir.dot(v) >= 0 {
        v.length()
    } else {
        -v.length()
    }
}

/// The acceleration that, held constant, brings an agent at distance `l`,
/// closing at `speed`, to rest in the deceleration time `T`: `(l - speed * T)
/// / T^2`.
pub open spec fn braking_law(l: int, speed: int) -> int {
    quot(l * SCALE - speed * DECELERATION_TIME_SEC, DECELERATION_TIME_SEC_SQUARED as int)
}

/// The steering acceleration of an agent at `position` with velocity `v`: the
/// braking law's acceleration, held to `MAX_ACCELERATION`, along the
/// direction to `target`; zero for an agent at its target.
pub open spec fn seek_acceleration(position: V3, target: V3, v: V3) -> V3 {
    let dir = target.minus(position);
    let a = braking_law(dir.length(), signed_speed(dir, v));
    dir.with_length(clamp(a, -MAX_ACCELERATION, MAX_ACCELERATION as int))
}

/// The speed ceiling of an agent at `position`: 99 hundredths of the speed
/// that covers the remaining distance in the deceleration time, and of
/// `MAX_VELOCITY` at most.
pub open spec fn seek_speed(position: V3, target: V3) -> int {
    let l = target.minus(position).length();
    quot(99 * min(quot(l * SCALE, DECELERATION_TIME_SEC as int), MAX_VELOCITY as int), 100)
}

/// The steering acceleration is never longer than `MAX_ACCELERATION`, and the
/// speed ceiling lies between zero and `MAX_VELOCITY`.
pub proof fn lemma_seek_bounds(position: V3, target: V3, v: V3)
    ensures
        seek_acceleration(position, target, v).norm_sq() <= MAX_ACCELERATION * MAX_ACCELERATION,
        seek_acceleration(position, target, v).length() <= MAX_ACCELERATION,
        0 <= seek_speed(position, target) <= MAX_VELOCITY,
{
    let dir = target.minus(position);
    let a = braking_law(dir.length(), signed_speed(dir, v));
    let c = clamp(a, -MAX_ACCELERATION, MAX_ACCELERATION as int);
    lemma_with_length(dir, c);
    assert(c * c <= MAX_ACCELERATION * MAX_ACCELERATION) by (nonlinear_arith)
        requires
            -MAX_ACCELERATION <= c <= MAX_ACCELERATION,
    ;
    lemma_component_le_length(dir);
    let l = dir.length();
    assert(l * SCALE >= 0);
    lemma_quot_small(l * SCALE, DECELERATION_TIME_SEC as int);
    let m = min(quot(l * SCALE, DECELERATION_TIME_SEC as int), MAX_VELOCITY as int);
    lemma_quot_small(99 * m, 100);
}

/// An agent at rest at its target is given no acceleration and a speed
/// ceiling of zero.
pub proof fn lemma_rest_is_kept(target: V3)
    ensures
        seek_acceleration(target, target, V3::zero()) == V3::zero(),
        seek_speed(target, target) == 0,
{
    let dir = target.minus(target);
    assert(dir == V3::zero());
    lemma_length_zero(dir);
}

/// An agent at its target is given no acceleration, whatever its velocity.
pub proof fn lemma_no_direction_no_acceleration(target: V3, v: V3)
    ensures
        seek_acceleration(target, target, v) == V3::zero(),
{
    let dir = target.minus(target);
    assert(dir == V3::zero());
    lemma_length_zero(dir);
}

/// Sets the steering acceleration and the speed ceiling of one agent from its
/// position, its target and its velocity.
pub fn seek(position: Vec3, target: Vec3, vel: &mut Velocity)
    requires
        position@.bounded(),
        target@.bounded(),
        old(vel).v@.bounded(),
    ensures
        final(vel)@ == (Motion {
            a: seek_acceleration(position@, target@, old(vel)@.v),
            target_v: seek_speed(position@, target@),
            ..old(vel)@
        }),
        final(vel)@.a.norm_sq() <= MAX_ACCELERATION * MAX_ACCELERATION,
        final(vel)@.a.bounded(),
        0 <= final(vel).target_v <= MAX_VELOCITY,
{
    proof {
        lemma_bounded_fits(position@);
        lemma_bounded_fits(target@);
        lemma_bounded_fits(vel.v@);
        lemma_seek_bounds(position@, target@, vel.v@);
        assert(MAX_ACCELERATION * MAX_ACCELERATION <= COORD_LIMIT * COORD_LIMIT)
            by (nonlinear_arith)
            requires
                MAX_ACCELERATION == 5_000,
                COORD_LIMIT == 1_000_000_000_000,
        ;
    }
    let dir: Vec3 = target.minus(position);
    proof {
        lemma_fits_length(dir@, 2 * COORD_LIMIT);
        lemma_component_le_length(vel.v@);
    }
    let l: i128 = dir.length() as i128;
    let speed: i128 = vel.v.length() as i128;
    let along: i128 = if dir.dot(vel.v) >= 0 {
        speed
    } else {
        -speed
    };
    let one: i128 = SCALE as i128;
    let t: i128 = DECELERATION_TIME_SEC as i128;
    let a: i128 = div_toward_zero(l * one - along * t, DECELERATION_TIME_SEC_SQUARED as i128);
    let held: i64 = if a < -(MAX_ACCELERATION as i128) {
        -MAX_ACCELERATION
    } else if a > MAX_ACCELERATION as i128 {
        MAX_ACCELERATION
    } else {
        a as i64
    };
    let reach: i128 = div_toward_zero(l * one, t);
    let capped: i128 = if reach <= MAX_VELOCITY as i128 {
        reach
    } else {
        MAX_VELOCITY as i128
    };
    proof {
        lemma_quot_small(l * one, t as int);
    }
    let ceiling: i128 = div_toward_zero(99 * capped, 100);
    vel.a = dir.with_length(held);
    vel.target_v = ceiling as i64;
}

/// Sets the steering acceleration and the speed ceiling of every agent.
pub fn follow_target(agents: &mut Vec<BoidBundle>)
    requires
        forall|i: int| 0 <= i < old(agents).len() ==> (#[trigger] old(agents)[i]).wf(),
    ensures
        final(agents).len() == old(agents).len(),
        forall|i: int|
            0 <= i < old(agents).len() ==> steered(old(agents)[i], #[trigger] final(agents)[i]),
        forall|i: int| 0 <= i < final(agents).len() ==> (#[trigger] final(agents)[i]).wf(),
{
    let n: usize = agents.len();
    let mut i: usize = 0;
    while i < n
        invariant
            0 <= i <= n,
            n == agents.len(),
            n == old(agents).len(),
            forall|j: int| 0 <= j < i ==> steered(old(agents)[j], #[trigger] agents[j]),
            forall|j: int| i <= j < n ==> #[trigger] agents[j] == old(agents)[j],
            forall|j: int| 0 <= j < n ==> (#[trigger] old(agents)[j]).wf(),
            forall|j: int| 0 <= j < n ==> (#[trigger] agents[j]).wf(),
        decreases n - i,
    {
        let mut agent: BoidBundle = agents[i];
        assert(agent == old(agents)[i as int]);
        assert(agent.wf());
        let mut vel: Velocity = agent.vel;
        seek(agent.position, agent.target.pos, &mut vel);
        agent.vel = vel;
        assert(agent.wf());
        agents.set(i, agent);
        i = i + 1;
    }
}

/// `after` is `before` with its steering acceleration and speed ceiling set
/// anew, and nothing else changed.
pub open spec fn steered(before: BoidBundle, after: BoidBundle) -> bool {
    &&& after.vel@ == (Motion {
        a: seek_acceleration(before.position@, before.target.pos@, before.vel@.v),
        target_v: seek_speed(before.position@, before.target.pos@),
        ..before.vel@
    })
    &&& after.vel@.a.norm_sq() <= MAX_ACCELERATION * MAX_ACCELERATION
    &&& after.position == before.position
    &&& after.target == before.target
    &&& after.bob == before.bob
}

} // verus!
