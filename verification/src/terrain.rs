//! Static obstacles.

use vstd::prelude::*;
use crate::vec3::{V3, Vec3};
use crate::kinematics::{HardCollision, TrackedByTree};

verus! {

/// A plane that no agent moves through, given by the direction it faces.
#[derive(Clone, Copy, Debug, PartialEq, Eq, Structural)]
pub struct Obstacle {
    pub normal: Vec3,
}

impl Obstacle {
    /// The normal is a direction: within reach and not zero. Its length does
    /// not matter.
    pub open spec fn wf(&self) -> bool {
        &&& self.normal@.bounded()
        &&& self.normal@ != V3::zero()
    }

    /// Whether the obstacle is one that the pipeline accepts.
    pub fn is_wf(&self) -> (b: bool)
        ensures
            b == self.wf(),
    {
        self.normal.is_bounded() && !(self.normal.x == 0 && self.normal.y == 0 && self.normal.z
            == 0)
    }
}

/// An obstacle and where it stands.
#[derive(Clone, Copy, Debug, PartialEq, Eq, Structural)]
pub struct ObstacleBundle {
    pub obstacle: Obstacle,
    pub position: Vec3,
    pub hard_collision: HardCollision,
    pub in_tree: TrackedByTree,
}

impl ObstacleBundle {
    /// An obstacle at `pos` that faces along `normal`.
    pub fn new(normal: Vec3, pos: Vec3) -> (r: ObstacleBundle)
        ensures
            r.obstacle.normal == normal,
            r.position == pos,
    {
        ObstacleBundle {
            obstacle: Obstacle { normal },
            position: pos,
            hard_collision: HardCollision { in_tree: TrackedByTree },
            in_tree: TrackedByTree,
        }
    }
}

} // verus!
