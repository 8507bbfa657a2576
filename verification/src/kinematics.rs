//! The kinematic state of an agent and the integrator that advances it.

use vstd::prelude::*;
use crate::fixed::{COORD_LIMIT, SCALE};
use crate::vec3::{V3, Vec3, lemma_bounded_fits, lemma_clamp_length, lemma_scale_bounds};
use crate::boid::BoidBundle;

verus! {

/// Speed that no agent exceeds.
pub const MAX_VELOCITY: i64 = 20_000;

/// Slack above an agent's own speed ceiling, which keeps it from stalling.
pub const BROWNIAN_VELOCITY: i64 = 20;

/// Largest steering acceleration.
pub const MAX_ACCELERATION: i64 = 5_000;

/// Time in which an agent is meant to come to rest at its target.
pub const DECELERATION_TIME_SEC: i64 = 1_000;

/// The square of the deceleration time.
pub const DECELERATION_TIME_SEC_SQUARED: i64 = 1_000;

/// Longest span of time that one step may cover.
pub const MAX_DELTA: i64 = 1_000_000;

/// The kinematic state of the model.
pub struct Motion {
    pub v: V3,
    pub a: V3,
    pub push: V3,
    pub target_v: int,
}

/// Velocity, steering acceleration, acceleration due to collisions, and the
/// agent's own speed ceiling.
#[derive(Clone, Copy, Debug, PartialEq, Eq, Structural)]
pub struct Velocity {
    pub v: Vec3,
    pub a: Vec3,
    /// Acceleration due to collisions.
    pub push: Vec3,
    pub target_v: i64,
}

impl View for Velocity {
    type V = Motion;

    open spec fn view(&self) -> Motion {
        Motion { v: self.v@, a: self.a@, push: self.push@, target_v: self.target_v as int }
    }
}

impl Default for Velocity {
    fn default() -> (r: Velocity)
        ensures
            r@ == (Motion { v: V3::zero(), a: V3::zero(), push: V3::zero(), target_v: 0 }),
            r.wf(),
    {
        let r = Velocity { v: Vec3::zero(), a: Vec3::zero(), push: Vec3::zero(), target_v: 0 };
        assert(r.wf()) by {
            assert(V3::zero().norm_sq() == 0);
        }
        r
    }
}

impl Motion {
    /// The three vectors lie within reach and the speed ceiling within its
    /// range.
    pub open spec fn wf(self) -> bool {
        &&& self.v.bounded()
        &&& self.a.bounded()
        &&& self.push.bounded()
        &&& 0 <= self.target_v <= MAX_VELOCITY
    }

    /// The velocity after a step of `dt`: advanced by the steering
    /// acceleration and held to the agent's own ceiling, then advanced by the
    /// push and held to the global ceiling.
    pub open spec fn step_velocity(self, dt: int) -> V3 {
        let steered = self.v.plus(self.a.scale(dt, SCALE as int)).clamp_length(
            self.target_v + BROWNIAN_VELOCITY,
        );
        steered.plus(self.push.scale(dt, SCALE as int)).clamp_length(MAX_VELOCITY as int)
    }

    /// The position after a step of `dt` from `p`.
    pub open spec fn step_position(self, p: V3, dt: int) -> V3 {
        p.plus(self.step_velocity(dt).scale(dt, SCALE as int))
    }
}

impl Velocity {
    /// The state is one that the pipeline accepts.
    pub open spec fn wf(&self) -> bool {
        self@.wf()
    }

    /// Whether the state is one that the pipeline accepts.
    pub fn is_wf(&self) -> (b: bool)
        ensures
            b == self.wf(),
    {
        self.v.is_bounded() && self.a.is_bounded() && self.push.is_bounded() && 0 <= self.target_v
            && self.target_v <= MAX_VELOCITY
    }
}

/// Whatever the state before, the velocity after a step is within the global
/// ceiling.
pub proof fn lemma_step_within_ceiling(m: Motion, dt: int)
    ensures
        m.step_velocity(dt).norm_sq() <= MAX_VELOCITY * MAX_VELOCITY,
        m.step_velocity(dt).length() <= MAX_VELOCITY,
{
    let steered = m.v.plus(m.a.scale(dt, SCALE as int)).clamp_length(
        m.target_v + BROWNIAN_VELOCITY,
    );
    lemma_clamp_length(steered.plus(m.push.scale(dt, SCALE as int)), MAX_VELOCITY as int);
}

/// Advances one agent by `delta_t`: the velocity from the acceleration and the
/// push, each followed by its clamp, then the position from the new velocity.
pub fn integrate(position: &mut Vec3, vel: &mut Velocity, delta_t: i64)
    requires
        old(position)@.bounded(),
        old(vel).wf(),
        0 <= delta_t <= MAX_DELTA,
    ensures
        final(vel)@ == (Motion { v: old(vel)@.step_velocity(delta_t as int), ..old(vel)@ }),
        final(position)@ == old(vel)@.step_position(old(position)@, delta_t as int),
        final(vel)@.v.norm_sq() <= MAX_VELOCITY * MAX_VELOCITY,
        final(vel).wf(),
        final(position)@.fits(COORD_LIMIT + MAX_VELOCITY * (MAX_DELTA / SCALE)),
{
    let dt: i128 = delta_t as i128;
    let one: i128 = SCALE as i128;
    proof {
        lemma_bounded_fits(vel.v@);
        lemma_bounded_fits(vel.a@);
        lemma_bounded_fits(vel.push@);
        lemma_bounded_fits(position@);
        lemma_scale_bounds(vel.a@, dt as int, one as int, COORD_LIMIT as int, 1000);
        lemma_scale_bounds(vel.push@, dt as int, one as int, COORD_LIMIT as int, 1000);
    }
    let dv: Vec3 = vel.a.scale(dt, one);
    let steered: Vec3 = vel.v.plus(dv).clamp_length_max(vel.target_v + BROWNIAN_VELOCITY);
    let dp: Vec3 = vel.push.scale(dt, one);
    let v: Vec3 = steered.plus(dp).clamp_length_max(MAX_VELOCITY);
    proof {
        lemma_scale_bounds(v@, dt as int, one as int, MAX_VELOCITY as int, 1000);
        assert(MAX_VELOCITY * MAX_VELOCITY <= COORD_LIMIT * COORD_LIMIT) by (nonlinear_arith)
            requires
                MAX_VELOCITY == 20_000,
                COORD_LIMIT == 1_000_000_000_000,
        ;
    }
    let step: Vec3 = v.scale(dt, one);
    vel.v = v;
    *position = position.plus(step);
}

/// Advances every agent by `delta_t`.
pub fn move_step(agents: &mut Vec<BoidBundle>, delta_t: i64)
    requires
        forall|i: int| 0 <= i < old(agents).len() ==> (#[trigger] old(agents)[i]).wf(),
        0 <= delta_t <= MAX_DELTA,
    ensures
        final(agents).len() == old(agents).len(),
        forall|i: int|
            0 <= i < old(agents).len() ==> moved(
                old(agents)[i],
                #[trigger] final(agents)[i],
                delta_t as int,
            ),
{
    let n: usize = agents.len();
    let mut i: usize = 0;
    while i < n
        invariant
            0 <= i <= n,
            n == agents.len(),
            n == old(agents).len(),
            0 <= delta_t <= MAX_DELTA,
            forall|j: int| 0 <= j < i ==> moved(old(agents)[j], #[trigger] agents[j], delta_t as int),
            forall|j: int| i <= j < n ==> #[trigger] agents[j] == old(agents)[j],
            forall|j: int| 0 <= j < n ==> (#[trigger] old(agents)[j]).wf(),
        decreases n - i,
    {
        let mut agent: BoidBundle = agents[i];
        assert(agent == old(agents)[i as int]);
        let mut position: Vec3 = agent.position;
        let mut vel: Velocity = agent.vel;
        integrate(&mut position, &mut vel, delta_t);
        agent.position = position;
        agent.vel = vel;
        agents.set(i, agent);
        i = i + 1;
    }
}

/// `after` is `before` advanced by `dt`: velocity and position are stepped,
/// and nothing else has changed.
pub open spec fn moved(before: BoidBundle, after: BoidBundle, dt: int) -> bool {
    &&& after.vel@ == (Motion { v: before.vel@.step_velocity(dt), ..before.vel@ })
    &&& after.position@ == before.vel@.step_position(before.position@, dt)
    &&& after.vel@.v.norm_sq() <= MAX_VELOCITY * MAX_VELOCITY
    &&& after.target == before.target
    &&& after.bob == before.bob
}

/// Marks an entity that the spatial index holds.
#[derive(Clone, Copy, Debug, PartialEq, Eq, Structural)]
pub struct TrackedByTree;

/// Marks an entity that pushes its neighbours away.
#[derive(Clone, Copy, Debug, PartialEq, Eq, Structural)]
pub struct SoftCollision {
    pub in_tree: TrackedByTree,
}

/// Marks an entity that nothing moves through.
#[derive(Clone, Copy, Debug, PartialEq, Eq, Structural)]
pub struct HardCollision {
    pub in_tree: TrackedByTree,
}

} // verus!
