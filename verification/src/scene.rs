//! The agents and obstacles with which a scene starts.

use vstd::prelude::*;
use crate::vec3::{V3, Vec3};
use crate::boid::{BoidBundle, random_between};
use crate::kinematics::Motion;
use crate::target::Target;
use crate::terrain::ObstacleBundle;

verus! {

/// Agents along one side of the square in which they are to gather.
pub const ROW: usize = 99;

/// Number of obstacles.
pub const OBSTACLES: usize = 99;

/// The agents and the obstacles of a scene.
pub struct Scene {
    pub boids: Vec<BoidBundle>,
    pub obstacles: Vec<ObstacleBundle>,
}

/// The target of the agent in row `i`, column `j`: the places of a square
/// grid, one unit apart, around the origin.
pub open spec fn grid_target(i: int, j: int) -> V3 {
    V3 { x: (i - 49) * 1000, y: 0, z: (j - 49) * 1000 }
}

/// An agent as it starts: at rest near the origin.
pub open spec fn starts(b: BoidBundle) -> bool {
    &&& -10_000 <= b.position.x < 10_000
    &&& b.position.y == 500
    &&& -10_000 <= b.position.z < 10_000
    &&& -20_000 <= b.bob.offset < 20_000
    &&& b.vel@ == (Motion { v: V3::zero(), a: V3::zero(), push: V3::zero(), target_v: 0 })
}

/// An obstacle as it starts: one unit above the ground, no more than a
/// hundred units from the origin along either ground axis, facing along the
/// first axis.
pub open spec fn stands(o: ObstacleBundle) -> bool {
    &&& o.obstacle.normal == (Vec3 { x: 1000, y: 0, z: 0 })
    &&& -100_000 <= o.position.x < 100_000
    &&& o.position.y == 1000
    &&& -100_000 <= o.position.z < 100_000
}

/// A square of agents, each at a random place near the origin and bound for
/// its own place of the grid, and obstacles scattered at random.
pub fn setup() -> (scene: Scene)
    ensures
        scene.boids.len() == ROW * ROW,
        scene.obstacles.len() == OBSTACLES,
        forall|i: int, j: int|
            0 <= i < ROW && 0 <= j < ROW ==> {
                &&& (#[trigger] scene.boids[i * ROW + j]).target.pos@ == grid_target(i, j)
                &&& starts(scene.boids[i * ROW + j])
            },
        forall|k: int| 0 <= k < OBSTACLES ==> stands(#[trigger] scene.obstacles[k]),
{
    let mut boids: Vec<BoidBundle> = Vec::new();
    let mut i: usize = 0;
    while i < ROW
        invariant
            0 <= i <= ROW,
            boids.len() == i * ROW,
            forall|p: int, q: int|
                0 <= p < i && 0 <= q < ROW ==> {
                    &&& (#[trigger] boids[p * ROW + q]).target.pos@ == grid_target(p, q)
                    &&& starts(boids[p * ROW + q])
                },
        decreases ROW - i,
    {
        let mut j: usize = 0;
        while j < ROW
            invariant
                0 <= j <= ROW,
                0 <= i < ROW,
                boids.len() == i * ROW + j,
                forall|p: int, q: int|
                    (0 <= p < i && 0 <= q < ROW) || (p == i && 0 <= q < j) ==> {
                        &&& (#[trigger] boids[p * ROW + q]).target.pos@ == grid_target(p, q)
                        &&& starts(boids[p * ROW + q])
                    },
            decreases ROW - j,
        {
            let x: i64 = (i as i64 - 49) * 1000;
            let z: i64 = (j as i64 - 49) * 1000;
            let target = Target { pos: Vec3 { x, y: 0, z }, dir: Vec3::zero() };
            let ghost before = boids@;
            boids.push(BoidBundle::with_target(target));
            assert forall|p: int, q: int|
                (0 <= p < i && 0 <= q < ROW) || (p == i && 0 <= q < j + 1) implies {
                &&& (#[trigger] boids[p * ROW + q]).target.pos@ == grid_target(p, q)
                &&& starts(boids[p * ROW + q])
            } by {
                if p == i && q == j {
                } else {
                    assert(p * ROW + q < i * ROW + j) by (nonlinear_arith)
                        requires
                            (0 <= p < i && 0 <= q < ROW) || (p == i && 0 <= q < j),
                            ROW == 99,
                    ;
                    assert(boids[p * ROW + q] == before[p * ROW + q]);
                }
            }
            j = j + 1;
        }
        i = i + 1;
    }
    let mut obstacles: Vec<ObstacleBundle> = Vec::new();
    let mut k: usize = 0;
    while k < OBSTACLES
        invariant
            0 <= k <= OBSTACLES,
            obstacles.len() == k,
            forall|m: int| 0 <= m < k ==> stands(#[trigger] obstacles[m]),
        decreases OBSTACLES - k,
    {
        let x: i64 = random_between(-100_000, 100_000);
        let z: i64 = random_between(-100_000, 100_000);
        obstacles.push(
            ObstacleBundle::new(Vec3 { x: 1000, y: 0, z: 0 }, Vec3 { x, y: 1000, z }),
        );
        k = k + 1;
    }
    Scene { boids, obstacles }
}

} // verus!
