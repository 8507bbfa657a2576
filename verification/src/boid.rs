//! Agents, and the resolvers that act on them: the soft push away from the
//! nearest neighbour, the hard stop at an obstacle, and the bobbing.
//!
//! The spatial index is not part of this module. A resolver is handed what the
//! index answered: for each agent its nearest neighbour, for each obstacle the
//! entities around it.

use vstd::prelude::*;
use crate::fixed::{
    abs, clamp, max, min, quot, div_toward_zero, COORD_LIMIT, SCALE, lemma_quot_small,
    lemma_quot_zero, lemma_sqrt_ceil,
};
use crate::vec3::{
    V3, Vec3, COMPONENT_LIMIT, lemma_bounded_fits, lemma_fits_length, lemma_with_length,
    lemma_length_zero, lemma_component_le_length, lemma_scale_neg, lemma_scale_sign,
    lemma_longest_component, lemma_reject_exact, lemma_norm_across, lemma_clamp_length,
    lemma_length_bounds_norm,
};
use crate::kinematics::{Motion, Velocity, SoftCollision, TrackedByTree};
use crate::target::Target;
use crate::terrain::ObstacleBundle;

verus! {

/// Share of an agent's own steering effort that a push may reach.
pub const REPEL_COEF: i64 = 50;

/// Largest push.
pub const MAX_REPEL_ACCELERATION: i64 = 2_500;

/// Separation below which two agents are pushed as if they were this far
/// apart.
pub const MIN_SEPARATION: i64 = 10;

/// Distance around an obstacle within which it stops agents.
pub const OBSTACLE_INTERACTION_RADIUS: i64 = 500;

/// Height of the bobbing.
pub const BOB_AMPLITUDE: i64 = 100;

/// Bobbing frequency for each unit of speed.
pub const BOB_FREQ_COEF: i64 = 180;

/// Slowest bobbing.
pub const BOB_FREQ_MIN: i64 = 50;

/// Marks an entity as an agent.
#[derive(Clone, Copy, Debug, PartialEq, Eq, Structural)]
pub struct Boid {}

/// The phase by which an agent's bobbing is shifted.
#[derive(Clone, Copy, Debug, PartialEq, Eq, Structural)]
pub struct Bob {
    pub offset: i64,
}

/// An agent: where it is, where it is going and how it moves.
#[derive(Clone, Copy, Debug, PartialEq, Eq, Structural)]
pub struct BoidBundle {
    pub boid: Boid,
    pub target: Target,
    pub vel: Velocity,
    pub position: Vec3,
    pub bob: Bob,
    pub collision: SoftCollision,
    pub in_tree: TrackedByTree,
}

/// An entity that the spatial index found: its position and, where it is an
/// agent, its number among the agents.
pub type Found = (Vec3, Option<usize>);

/// A whole number drawn by `rand::Rng::gen_range` from the thread's generator,
/// `rand::thread_rng`. The contract claims what the call documents: the number
/// lies in the half-open range, whichever it is. The call panics on an empty
/// range, which the precondition leaves out.
#[verifier::external_body]
pub(crate) fn random_between(low: i64, high: i64) -> (r: i64)
    requires
        low < high,
    ensures
        low <= r < high,
{
    rand::Rng::gen_range(&mut rand::thread_rng(), low..high)
}

impl BoidBundle {
    /// Position, target and kinematic state are ones that the pipeline
    /// accepts.
    pub open spec fn wf(&self) -> bool {
        &&& self.position@.bounded()
        &&& self.target.pos@.bounded()
        &&& self.vel.wf()
    }

    /// Whether the agent is one that the pipeline accepts.
    pub fn is_wf(&self) -> (b: bool)
        ensures
            b == self.wf(),
    {
        self.position.is_bounded() && self.target.pos.is_bounded() && self.vel.is_wf()
    }

    /// An agent at rest, half a unit above the ground at `(x, z)`.
    pub fn at(target: Target, x: i64, z: i64, bob_offset: i64) -> (r: BoidBundle)
        ensures
            r.target == target,
            r.position == (Vec3 { x, y: 500, z }),
            r.bob.offset == bob_offset,
            r.vel@ == (Motion { v: V3::zero(), a: V3::zero(), push: V3::zero(), target_v: 0 }),
    {
        BoidBundle {
            boid: Boid {  },
            target,
            vel: Velocity::default(),
            position: Vec3 { x, y: 500, z },
            bob: Bob { offset: bob_offset },
            collision: SoftCollision { in_tree: TrackedByTree },
            in_tree: TrackedByTree,
        }
    }

    /// An agent at rest at a random place no more than ten units from the
    /// origin along either ground axis, steering toward `target`.
    pub fn with_target(target: Target) -> (r: BoidBundle)
        ensures
            r.target == target,
            -10_000 <= r.position.x < 10_000,
            r.position.y == 500,
            -10_000 <= r.position.z < 10_000,
            -20_000 <= r.bob.offset < 20_000,
            r.vel@ == (Motion { v: V3::zero(), a: V3::zero(), push: V3::zero(), target_v: 0 }),
    {
        let x: i64 = random_between(-10_000, 10_000);
        let z: i64 = random_between(-10_000, 10_000);
        let bob_offset: i64 = random_between(-20_000, 20_000);
        BoidBundle::at(target, x, z, bob_offset)
    }

    /// An agent at rest at a random place no more than ten units from the
    /// origin along either ground axis, steering toward the place opposite
    /// its own.
    pub fn random() -> (r: BoidBundle)
        ensures
            -10_000 <= r.position.x < 10_000,
            r.position.y == 500,
            -10_000 <= r.position.z < 10_000,
            r.target.pos == (Vec3 { x: (-r.position.x) as i64, y: 0, z: (-r.position.z) as i64 }),
            r.target.dir@ == V3::zero(),
            -10_000 <= r.bob.offset < 10_000,
            r.vel@ == (Motion { v: V3::zero(), a: V3::zero(), push: V3::zero(), target_v: 0 }),
    {
        let x: i64 = random_between(-10_000, 10_000);
        let z: i64 = random_between(-10_000, 10_000);
        let bob_offset: i64 = random_between(-10_000, 10_000);
        let target = Target { pos: Vec3 { x: -x, y: 0, z: -z }, dir: Vec3::zero() };
        BoidBundle::at(target, x, z, bob_offset)
    }
}

/// The largest push on an agent whose steering acceleration is `a`: the share
/// `REPEL_COEF` of the length of `a`, and `MAX_REPEL_ACCELERATION` at most.
pub open spec fn repulsion_cap(a: V3) -> int {
    min(quot(a.length() * REPEL_COEF, SCALE as int), MAX_REPEL_ACCELERATION as int)
}

/// The strength of the push between two agents `separation` apart: the
/// inverse of their distance, which counts as `MIN_SEPARATION` at least, and
/// `cap` at most.
pub open spec fn repulsion_strength(separation: V3, cap: int) -> int {
    min(quot(SCALE * SCALE, max(separation.length(), MIN_SEPARATION as int)), cap)
}

/// The push on an agent at `this` away from a neighbour at `other`; zero where
/// the two are at the same place, from which no direction leads away.
pub open spec fn repulsion(this: V3, other: V3, cap: int) -> V3 {
    let separation = this.minus(other);
    separation.with_length(repulsion_strength(separation, cap))
}

/// The nearest neighbour of agent `this` among the entities `found`, which
/// the spatial index gives nearest first: the first that is not the agent
/// itself.
pub open spec fn nearest_other(this: int, found: Seq<Found>) -> Option<Vec3>
    decreases found.len(),
{
    if found.len() == 0 {
        None
    } else if found[0].1 != Some(this as usize) {
        Some(found[0].0)
    } else {
        nearest_other(this, found.drop_first())
    }
}

/// The nearest neighbour of agent `this` among the entities `found`.
pub fn nearest_neighbour(this: usize, found: &Vec<Found>) -> (nearest: Option<Vec3>)
    ensures
        nearest == nearest_other(this as int, found@),
{
    let n: usize = found.len();
    let mut i: usize = 0;
    assert(found@.skip(0) =~= found@);
    while i < n
        invariant
            0 <= i <= n,
            n == found.len(),
            nearest_other(this as int, found@) == nearest_other(this as int, found@.skip(i as int)),
        decreases n - i,
    {
        let entry: Found = found[i];
        let rest = Ghost(found@.skip(i as int));
        assert(rest@[0] == entry);
        assert(rest@.drop_first() =~= found@.skip(i + 1));
        match entry.1 {
            Some(id) => {
                if id != this {
                    return Some(entry.0);
                }
            },
            None => {
                return Some(entry.0);
            },
        }
        i = i + 1;
    }
    assert(found@.skip(n as int).len() == 0);
    None
}

/// The steering acceleration `a` of an agent at `this` after the push away
/// from its nearest neighbour, if it has one.
pub open spec fn pushed(a: V3, this: V3, nearest: Option<Vec3>) -> V3 {
    match nearest {
        Some(other) => a.plus(repulsion(this, other@, repulsion_cap(a))),
        None => a,
    }
}

/// The pushes on two agents away from each other, under the same cap, are
/// opposite.
pub proof fn lemma_repulsion_opposite(a: V3, b: V3, cap: int)
    ensures
        repulsion(b, a, cap) == repulsion(a, b, cap).neg(),
{
    let s = a.minus(b);
    assert(b.minus(a) == s.neg());
    lemma_component_le_length(s);
    lemma_length_zero(s);
    if s.norm_sq() != 0 {
        lemma_scale_neg(s, repulsion_strength(s, cap), s.length());
    } else {
        assert(s.neg() == V3::zero());
    }
    assert((-s.x) * (-s.x) == s.x * s.x) by (nonlinear_arith);
    assert((-s.y) * (-s.y) == s.y * s.y) by (nonlinear_arith);
    assert((-s.z) * (-s.z) == s.z * s.z) by (nonlinear_arith);
    assert(s.neg().norm_sq() == s.norm_sq());
}

/// Two agents at different places, each under a cap that leaves a strength of
/// two thousandths or more, are pushed apart: the push on the one has a
/// positive part along the line from the other to it, the push on the other a
/// negative part along that line. Neither push is zero.
pub proof fn lemma_repulsion_apart(a: V3, b: V3, cap_a: int, cap_b: int)
    requires
        a != b,
        repulsion_strength(a.minus(b), cap_a) >= 2,
        repulsion_strength(b.minus(a), cap_b) >= 2,
    ensures
        repulsion(a, b, cap_a).dot(a.minus(b)) > 0,
        repulsion(b, a, cap_b).dot(a.minus(b)) < 0,
        repulsion(a, b, cap_a) != V3::zero(),
        repulsion(b, a, cap_b) != V3::zero(),
{
    let s = a.minus(b);
    lemma_push_outward(s, repulsion_strength(s, cap_a));
    let t = b.minus(a);
    assert(t != V3::zero());
    lemma_push_outward(t, repulsion_strength(t, cap_b));
    let q = repulsion(b, a, cap_b);
    assert(t == s.neg());
    assert(q.x * (-s.x) == -(q.x * s.x)) by (nonlinear_arith);
    assert(q.y * (-s.y) == -(q.y * s.y)) by (nonlinear_arith);
    assert(q.z * (-s.z) == -(q.z * s.z)) by (nonlinear_arith);
    assert(V3::zero().dot(s) == 0) by (nonlinear_arith);
}

/// The magnitude of the longest component of a vector.
pub open spec fn longest(v: V3) -> int {
    max(abs(v.x), max(abs(v.y), abs(v.z)))
}

/// The push on an agent away from a neighbour at another place is zero
/// exactly where its strength times the longest component of the separation
/// does not reach the distance between the two: where the agent has no
/// steering effort of its own, or the neighbour is far away.
pub proof fn lemma_repulsion_vanishes(a: V3, b: V3, cap: int)
    requires
        a != b,
        cap >= 0,
    ensures
        repulsion(a, b, cap) == V3::zero() <==> longest(a.minus(b)) * repulsion_strength(
            a.minus(b),
            cap,
        ) < a.minus(b).length(),
{
    let s = a.minus(b);
    let l = s.length();
    let m = repulsion_strength(s, cap);
    lemma_length_zero(s);
    lemma_component_le_length(s);
    lemma_quot_small(SCALE * SCALE, max(l, MIN_SEPARATION as int));
    assert(m >= 0);
    lemma_quot_zero(s.x * m, l);
    lemma_quot_zero(s.y * m, l);
    lemma_quot_zero(s.z * m, l);
    lemma_abs_times(s.x, m);
    lemma_abs_times(s.y, m);
    lemma_abs_times(s.z, m);
    let c = longest(s);
    assert(abs(s.x) * m <= c * m && abs(s.y) * m <= c * m && abs(s.z) * m <= c * m)
        by (nonlinear_arith)
        requires
            m >= 0,
            abs(s.x) <= c,
            abs(s.y) <= c,
            abs(s.z) <= c,
    ;
}

proof fn lemma_abs_times(c: int, m: int)
    by (nonlinear_arith)
    requires
        m >= 0,
    ensures
        abs(c * m) == abs(c) * m,
{
}

/// A vector that is not zero, given a length of two or more, has a positive
/// part along itself.
proof fn lemma_push_outward(s: V3, m: int)
    requires
        s != V3::zero(),
        m >= 2,
    ensures
        s.with_length(m).dot(s) > 0,
{
    let l = s.length();
    lemma_length_zero(s);
    lemma_component_le_length(s);
    let r = s.with_length(m);
    assert(r == s.scale(m, l));
    lemma_scale_sign(s.x, m, l);
    lemma_scale_sign(s.y, m, l);
    lemma_scale_sign(s.z, m, l);
    let c = longest(s);
    lemma_longest_component(s, c);
    assert(c * m >= l) by (nonlinear_arith)
        requires
            2 * c >= l,
            m >= 2,
            c >= 0,
    ;
    assert(c > 0);
}

/// Adds to the steering acceleration of one agent the push away from its
/// nearest neighbour.
pub fn repel(position: Vec3, nearest: Option<Vec3>, vel: &mut Velocity)
    requires
        position@.bounded(),
        nearest is Some ==> nearest->0@.bounded(),
        old(vel).a@.bounded(),
    ensures
        final(vel)@ == (Motion { a: pushed(old(vel)@.a, position@, nearest), ..old(vel)@ }),
        final(vel)@.a.fits(COORD_LIMIT + MAX_REPEL_ACCELERATION),
{
    proof {
        lemma_bounded_fits(vel.a@);
    }
    match nearest {
        Some(other) => {
            proof {
                lemma_bounded_fits(position@);
                lemma_bounded_fits(other@);
                lemma_component_le_length(vel.a@);
            }
            let effort: i128 = vel.a.length() as i128;
            let share: i128 = div_toward_zero(effort * (REPEL_COEF as i128), SCALE as i128);
            let cap: i128 = if share <= MAX_REPEL_ACCELERATION as i128 {
                share
            } else {
                MAX_REPEL_ACCELERATION as i128
            };
            let separation: Vec3 = position.minus(other);
            proof {
                lemma_fits_length(separation@, 2 * COORD_LIMIT);
                lemma_component_le_length(separation@);
                lemma_quot_small(effort * REPEL_COEF, SCALE as int);
            }
            let distance: i128 = separation.length() as i128;
            let len: i128 = if distance >= MIN_SEPARATION as i128 {
                distance
            } else {
                MIN_SEPARATION as i128
            };
            let inverse: i128 = div_toward_zero((SCALE as i128) * (SCALE as i128), len);
            proof {
                lemma_quot_small(SCALE * SCALE, len as int);
            }
            let strength: i128 = if inverse <= cap {
                inverse
            } else {
                cap
            };
            let push: Vec3 = separation.with_length(strength as i64);
            vel.a = vel.a.plus(push);
        },
        None => {},
    }
}

/// `after` is `before` with the push away from `nearest` added to its
/// steering acceleration, and nothing else changed.
pub open spec fn repelled(before: BoidBundle, after: BoidBundle, nearest: Option<Vec3>) -> bool {
    &&& after.vel@ == (Motion {
        a: pushed(before.vel@.a, before.position@, nearest),
        ..before.vel@
    })
    &&& after.position == before.position
    &&& after.target == before.target
    &&& after.bob == before.bob
}

/// Every entity found lies within reach.
pub open spec fn all_bounded(found: Seq<Found>) -> bool {
    forall|k: int| 0 <= k < found.len() ==> (#[trigger] found[k]).0@.bounded()
}

proof fn lemma_nearest_other_bounded(this: int, found: Seq<Found>)
    requires
        all_bounded(found),
    ensures
        nearest_other(this, found) is Some ==> nearest_other(this, found)->0@.bounded(),
    decreases found.len(),
{
    if found.len() > 0 && found[0].1 == Some(this as usize) {
        let rest = found.drop_first();
        assert forall|k: int| 0 <= k < rest.len() implies (#[trigger] rest[k]).0@.bounded() by {
            assert(rest[k] == found[k + 1]);
        }
        lemma_nearest_other_bounded(this, rest);
    }
}

/// Pushes every agent away from its nearest neighbour. `found[i]` holds what
/// the spatial index found around agent `i`, nearest first; the agent itself
/// may be among them. No agent's result depends on another agent's state.
pub fn soft_collisions(agents: &mut Vec<BoidBundle>, found: &Vec<Vec<Found>>)
    requires
        found.len() == old(agents).len(),
        forall|i: int| 0 <= i < old(agents).len() ==> (#[trigger] old(agents)[i]).wf(),
        forall|i: int| 0 <= i < found.len() ==> all_bounded((#[trigger] found[i])@),
    ensures
        final(agents).len() == old(agents).len(),
        forall|i: int|
            0 <= i < old(agents).len() ==> repelled(
                old(agents)[i],
                #[trigger] final(agents)[i],
                nearest_other(i, found[i]@),
            ),
{
    let n: usize = agents.len();
    let mut i: usize = 0;
    while i < n
        invariant
            0 <= i <= n,
            n == agents.len(),
            n == old(agents).len(),
            n == found.len(),
            forall|j: int|
                0 <= j < i ==> repelled(
                    old(agents)[j],
                    #[trigger] agents[j],
                    nearest_other(j, found[j]@),
                ),
            forall|j: int| i <= j < n ==> #[trigger] agents[j] == old(agents)[j],
            forall|j: int| 0 <= j < n ==> (#[trigger] old(agents)[j]).wf(),
            forall|j: int| 0 <= j < n ==> all_bounded((#[trigger] found[j])@),
        decreases n - i,
    {
        let mut agent: BoidBundle = agents[i];
        assert(agent == old(agents)[i as int]);
        assert(agent.wf());
        let mut vel: Velocity = agent.vel;
        let other: Option<Vec3> = nearest_neighbour(i, &found[i]);
        proof {
            lemma_nearest_other_bounded(i as int, found[i as int]@);
        }
        repel(agent.position, other, &mut vel);
        agent.vel = vel;
        agents.set(i, agent);
        i = i + 1;
    }
}

/// The kinematic state of an agent that meets an obstacle facing along `n`.
/// The velocity loses its part along `n` and is not left longer than it was.
/// The steering acceleration loses its part along `n` and keeps its length;
/// where nothing is left of it, it is zero.
pub open spec fn slide(m: Motion, n: V3) -> Motion {
    Motion {
        v: m.v.reject_from(n).clamp_length(m.v.length()),
        a: m.a.reject_from(n).with_length(m.a.length()),
        ..m
    }
}

/// An agent whose velocity is the sum of a part `w` along the normal and a
/// part `t` across it keeps exactly the part across: nothing is left along
/// the normal, and the part across is unchanged.
pub proof fn lemma_slide_keeps_tangent(m: Motion, n: V3, w: V3, t: V3)
    requires
        n != V3::zero(),
        w.parallel(n),
        t.dot(n) == 0,
        m.v == w.plus(t),
    ensures
        slide(m, n).v == t,
        slide(m, n).v.dot(n) == 0,
{
    lemma_reject_exact(n, w, t);
    lemma_norm_across(n, w, t);
    lemma_component_le_length(m.v);
    lemma_sqrt_ceil(m.v.norm_sq());
}

/// An agent that moves straight along the normal, toward the obstacle or away
/// from it, is stopped.
pub proof fn lemma_slide_stops_head_on(m: Motion, n: V3)
    requires
        n != V3::zero(),
        m.v.parallel(n),
    ensures
        slide(m, n).v == V3::zero(),
{
    assert(V3::zero().dot(n) == 0) by (nonlinear_arith);
    assert(m.v.plus(V3::zero()) == m.v);
    lemma_slide_keeps_tangent(m, n, m.v, V3::zero());
}

/// Sliding leaves neither the velocity nor the steering acceleration longer.
pub proof fn lemma_slide_no_longer(m: Motion, n: V3)
    ensures
        slide(m, n).v.length() <= m.v.length(),
        slide(m, n).a.length() <= m.a.length(),
        m.v.bounded() ==> slide(m, n).v.bounded(),
        m.a.bounded() ==> slide(m, n).a.bounded(),
{
    lemma_component_le_length(m.v);
    lemma_component_le_length(m.a);
    lemma_clamp_length(m.v.reject_from(n), m.v.length());
    lemma_with_length(m.a.reject_from(n), m.a.length());
    if m.v.bounded() {
        lemma_bounded_fits(m.v);
        lemma_length_bounds_norm(slide(m, n).v, COORD_LIMIT as int);
    }
    if m.a.bounded() {
        lemma_bounded_fits(m.a);
        lemma_length_bounds_norm(slide(m, n).a, COORD_LIMIT as int);
    }
}

/// Resolves one agent against an obstacle that faces along `normal`.
pub fn slide_along(normal: Vec3, vel: &mut Velocity)
    requires
        normal@.bounded(),
        normal@ != V3::zero(),
        old(vel).v@.bounded(),
        old(vel).a@.bounded(),
    ensures
        final(vel)@ == slide(old(vel)@, normal@),
        final(vel).v@.bounded(),
        final(vel).a@.bounded(),
        final(vel).v@.length() <= old(vel).v@.length(),
        final(vel).a@.length() <= old(vel).a@.length(),
{
    proof {
        lemma_bounded_fits(vel.v@);
        lemma_bounded_fits(vel.a@);
        lemma_slide_no_longer(vel@, normal@);
    }
    let speed: i64 = vel.v.length();
    let across: Vec3 = vel.v.reject_from(normal);
    vel.v = across.clamp_length_max(speed);
    let effort: i64 = vel.a.length();
    let drive: Vec3 = vel.a.reject_from(normal);
    vel.a = drive.with_length(effort);
}

/// The normals of the obstacle facing along `n` that meet agent `i`, one for
/// each time that `i` occurs among the entities `ids` around it.
pub open spec fn wall_hits(i: int, n: V3, ids: Seq<usize>) -> Seq<V3>
    decreases ids.len(),
{
    if ids.len() == 0 {
        Seq::empty()
    } else {
        let before = wall_hits(i, n, ids.drop_last());
        if ids.last() == i {
            before.push(n)
        } else {
            before
        }
    }
}

/// The normals that meet agent `i`, obstacle by obstacle in their order.
pub open spec fn hits_on(i: int, walls: Seq<ObstacleBundle>, near: Seq<Vec<usize>>) -> Seq<V3>
    decreases walls.len(),
{
    if walls.len() == 0 || near.len() == 0 {
        Seq::empty()
    } else {
        hits_on(i, walls.drop_last(), near.drop_last()) + wall_hits(
            i,
            walls.last().obstacle.normal@,
            near.last()@,
        )
    }
}

/// The kinematic state after sliding along each of `normals` in turn.
pub open spec fn slide_all(m: Motion, normals: Seq<V3>) -> Motion
    decreases normals.len(),
{
    if normals.len() == 0 {
        m
    } else {
        slide(slide_all(m, normals.drop_last()), normals.last())
    }
}

/// `after` is `before` resolved against `normals` in turn, and nothing else
/// changed.
pub open spec fn resolved(before: BoidBundle, after: BoidBundle, normals: Seq<V3>) -> bool {
    &&& after.vel@ == slide_all(before.vel@, normals)
    &&& after.position == before.position
    &&& after.target == before.target
    &&& after.bob == before.bob
}

proof fn lemma_slide_all_push(m: Motion, normals: Seq<V3>, n: V3)
    ensures
        slide_all(m, normals.push(n)) == slide(slide_all(m, normals), n),
{
    assert(normals.push(n).drop_last() =~= normals);
}

proof fn lemma_wall_hits_step(i: int, n: V3, ids: Seq<usize>, h: int)
    requires
        0 <= h < ids.len(),
    ensures
        wall_hits(i, n, ids.take(h + 1)) == if ids[h] == i {
            wall_hits(i, n, ids.take(h)).push(n)
        } else {
            wall_hits(i, n, ids.take(h))
        },
{
    assert(ids.take(h + 1).drop_last() =~= ids.take(h));
}

proof fn lemma_hits_on_step(i: int, walls: Seq<ObstacleBundle>, near: Seq<Vec<usize>>, w: int)
    requires
        0 <= w < walls.len(),
        walls.len() == near.len(),
    ensures
        hits_on(i, walls.take(w + 1), near.take(w + 1)) == hits_on(i, walls.take(w), near.take(w))
            + wall_hits(i, walls[w].obstacle.normal@, near[w]@),
{
    assert(walls.take(w + 1).drop_last() =~= walls.take(w));
    assert(near.take(w + 1).drop_last() =~= near.take(w));
}

/// Resolves the agents against the obstacles. `near[w]` holds what the spatial
/// index found within `OBSTACLE_INTERACTION_RADIUS` of `walls[w]`: the number
/// of an agent in `agents`, or a larger number for an entity that is none.
/// Each agent named is resolved against that obstacle, in the order given.
pub fn hard_collisions(
    agents: &mut Vec<BoidBundle>,
    walls: &Vec<ObstacleBundle>,
    near: &Vec<Vec<usize>>,
)
    requires
        near.len() == walls.len(),
        forall|i: int| 0 <= i < old(agents).len() ==> (#[trigger] old(agents)[i]).wf(),
        forall|w: int| 0 <= w < walls.len() ==> (#[trigger] walls[w]).obstacle.wf(),
    ensures
        final(agents).len() == old(agents).len(),
        forall|i: int|
            0 <= i < old(agents).len() ==> resolved(
                old(agents)[i],
                #[trigger] final(agents)[i],
                hits_on(i, walls@, near@),
            ),
        forall|i: int| 0 <= i < final(agents).len() ==> (#[trigger] final(agents)[i]).wf(),
{
    let n: usize = agents.len();
    let count: usize = walls.len();
    let mut w: usize = 0;
    while w < count
        invariant
            0 <= w <= count,
            count == walls.len(),
            count == near.len(),
            n == agents.len(),
            n == old(agents).len(),
            forall|i: int|
                0 <= i < n ==> resolved(
                    old(agents)[i],
                    #[trigger] agents[i],
                    hits_on(i, walls@.take(w as int), near@.take(w as int)),
                ),
            forall|i: int| 0 <= i < n ==> (#[trigger] agents[i]).wf(),
            forall|k: int| 0 <= k < walls.len() ==> (#[trigger] walls[k]).obstacle.wf(),
        decreases count - w,
    {
        let normal: Vec3 = walls[w].obstacle.normal;
        let ids: &Vec<usize> = &near[w];
        let found: usize = ids.len();
        let mut h: usize = 0;
        assert(ids@.take(0) =~= Seq::<usize>::empty());
        assert forall|i: int| 0 <= i < n implies resolved(
            old(agents)[i],
            #[trigger] agents[i],
            hits_on(i, walls@.take(w as int), near@.take(w as int)) + wall_hits(
                i,
                normal@,
                ids@.take(0),
            ),
        ) by {
            let base = hits_on(i, walls@.take(w as int), near@.take(w as int));
            assert(base + Seq::<V3>::empty() =~= base);
        }
        while h < found
            invariant
                0 <= h <= found,
                found == ids.len(),
                0 <= w < count,
                count == walls.len(),
                count == near.len(),
                n == agents.len(),
                n == old(agents).len(),
                ids@ == near[w as int]@,
                normal == walls[w as int].obstacle.normal,
                walls[w as int].obstacle.wf(),
                forall|i: int|
                    0 <= i < n ==> resolved(
                        old(agents)[i],
                        #[trigger] agents[i],
                        hits_on(i, walls@.take(w as int), near@.take(w as int)) + wall_hits(
                            i,
                            normal@,
                            ids@.take(h as int),
                        ),
                    ),
                forall|i: int| 0 <= i < n ==> (#[trigger] agents[i]).wf(),
            decreases found - h,
        {
            let id: usize = ids[h];
            let ghost before = agents@;
            if id < n {
                let mut agent: BoidBundle = agents[id];
                let mut vel: Velocity = agent.vel;
                slide_along(normal, &mut vel);
                agent.vel = vel;
                agents.set(id, agent);
            }
            proof {
                assert forall|i: int| 0 <= i < n implies resolved(
                    old(agents)[i],
                    #[trigger] agents[i],
                    hits_on(i, walls@.take(w as int), near@.take(w as int)) + wall_hits(
                        i,
                        normal@,
                        ids@.take(h + 1),
                    ),
                ) by {
                    let base = hits_on(i, walls@.take(w as int), near@.take(w as int));
                    let sofar = wall_hits(i, normal@, ids@.take(h as int));
                    lemma_wall_hits_step(i, normal@, ids@, h as int);
                    assert(resolved(old(agents)[i], before[i], base + sofar));
                    if id == i {
                        assert((base + sofar).push(normal@) =~= base + sofar.push(normal@));
                        lemma_slide_all_push(old(agents)[i].vel@, base + sofar, normal@);
                    } else {
                        assert(agents[i] == before[i]);
                    }
                }
            }
            h = h + 1;
        }
        proof {
            assert(ids@.take(found as int) =~= ids@);
            assert forall|i: int| 0 <= i < n implies resolved(
                old(agents)[i],
                #[trigger] agents[i],
                hits_on(i, walls@.take(w + 1), near@.take(w + 1)),
            ) by {
                lemma_hits_on_step(i, walls@, near@, w as int);
            }
        }
        w = w + 1;
    }
    proof {
        assert(walls@.take(count as int) =~= walls@);
        assert(near@.take(count as int) =~= near@);
    }
}

/// How fast an agent with velocity `v` bobs: in proportion to its speed, and
/// between `BOB_FREQ_MIN` and four times that.
pub open spec fn bob_frequency(v: V3) -> int {
    clamp(quot(v.length() * BOB_FREQ_COEF, SCALE as int), BOB_FREQ_MIN as int, 4 * BOB_FREQ_MIN)
}

/// The angle of an agent's bobbing at the time `elapsed`: its frequency times
/// the time, shifted by the agent's own `offset`.
pub open spec fn bob_phase(v: V3, offset: int, elapsed: int) -> int {
    quot(bob_frequency(v) * (offset + elapsed), SCALE as int)
}

/// The angle of one agent's bobbing at the time `time_elapsed`.
pub fn bob_angle(v: Vec3, offset: i64, time_elapsed: i64) -> (angle: i64)
    requires
        v@.fits(COMPONENT_LIMIT as int),
    ensures
        angle == bob_phase(v@, offset as int, time_elapsed as int),
{
    proof {
        lemma_component_le_length(v@);
        lemma_fits_length(v@, COMPONENT_LIMIT as int);
    }
    let speed: i128 = v.length() as i128;
    let raw: i128 = div_toward_zero(speed * (BOB_FREQ_COEF as i128), SCALE as i128);
    let freq: i128 = if raw < BOB_FREQ_MIN as i128 {
        BOB_FREQ_MIN as i128
    } else if raw > 4 * (BOB_FREQ_MIN as i128) {
        4 * (BOB_FREQ_MIN as i128)
    } else {
        raw
    };
    let shifted: i128 = (offset as i128) + (time_elapsed as i128);
    proof {
        assert(abs(freq * shifted) <= 200 * abs(shifted as int)) by (nonlinear_arith)
            requires
                50 <= freq <= 200,
        ;
        crate::vec3::lemma_quot_le(freq * shifted, SCALE as int, i64::MAX as int);
    }
    let angle: i128 = div_toward_zero(freq * shifted, SCALE as i128);
    angle as i64
}

/// The angle of every agent's bobbing at the time `time_elapsed`. The height
/// of an agent is `BOB_AMPLITUDE` times the sine of its angle.
pub fn bob(agents: &Vec<BoidBundle>, time_elapsed: i64) -> (angles: Vec<i64>)
    requires
        forall|i: int|
            0 <= i < agents.len() ==> (#[trigger] agents[i]).vel.v@.fits(COMPONENT_LIMIT as int),
    ensures
        angles.len() == agents.len(),
        forall|i: int|
            0 <= i < agents.len() ==> #[trigger] angles[i] == bob_phase(
                agents[i].vel.v@,
                agents[i].bob.offset as int,
                time_elapsed as int,
            ),
{
    let n: usize = agents.len();
    let mut angles: Vec<i64> = Vec::new();
    let mut i: usize = 0;
    while i < n
        invariant
            0 <= i <= n,
            n == agents.len(),
            angles.len() == i,
            forall|j: int|
                0 <= j < n ==> (#[trigger] agents[j]).vel.v@.fits(COMPONENT_LIMIT as int),
            forall|j: int|
                0 <= j < i ==> #[trigger] angles[j] == bob_phase(
                    agents[j].vel.v@,
                    agents[j].bob.offset as int,
                    time_elapsed as int,
                ),
        decreases n - i,
    {
        let agent: BoidBundle = agents[i];
        angles.push(bob_angle(agent.vel.v, agent.bob.offset, time_elapsed));
        i = i + 1;
    }
    angles
}

} // verus!
