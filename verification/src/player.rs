//! Box selection with the mouse: what a frame's input does to the selection.
//!
//! The decisions are made here; reading the mouse, asking the spatial index
//! and drawing are left to the caller, which is told what to do in a
//! `SelectionUpdate`.

use vstd::prelude::*;
use crate::vec3::{V3, Vec3, lemma_bounded_fits};

verus! {

/// The selection in progress: whether the button is held, where it went down
/// and where the cursor was last.
#[derive(Clone, Copy, Debug, PartialEq, Eq, Structural)]
pub struct Player {
    pub selecting: bool,
    pub corner1: Vec3,
    pub corner3: Vec3,
}

impl Default for Player {
    fn default() -> (r: Player)
        ensures
            !r.selecting,
            r.corner1@ == V3::zero(),
            r.corner3@ == V3::zero(),
            r.wf(),
    {
        assert(V3::zero().norm_sq() == 0);
        Player { selecting: false, corner1: Vec3::zero(), corner3: Vec3::zero() }
    }
}

/// What the mouse and the keyboard report for one frame.
#[derive(Clone, Copy, Debug, PartialEq, Eq, Structural)]
pub struct MouseState {
    /// The select button went down in this frame.
    pub just_pressed: bool,
    /// The select button came up in this frame.
    pub just_released: bool,
    /// The select button is down.
    pub pressed: bool,
    /// A key that adds to the selection, in place of replacing it, is down.
    pub extend: bool,
}

/// The four corners of a region of the ground, in order around it.
#[derive(Clone, Copy, Debug, PartialEq, Eq, Structural)]
pub struct Rect {
    pub corner1: Vec3,
    pub corner2: Vec3,
    pub corner3: Vec3,
    pub corner4: Vec3,
}

/// What the caller is to do after a frame.
#[derive(Clone, Copy, Debug, PartialEq, Eq, Structural)]
pub struct SelectionUpdate {
    /// Unmark every selected entity.
    pub clear: bool,
    /// Mark the entities in this region as selected.
    pub select: Option<Rect>,
    /// Draw the outline of this region.
    pub outline: Option<Rect>,
}

/// The four corners of the model.
pub struct Corners {
    pub corner1: V3,
    pub corner2: V3,
    pub corner3: V3,
    pub corner4: V3,
}

impl View for Rect {
    type V = Corners;

    open spec fn view(&self) -> Corners {
        Corners {
            corner1: self.corner1@,
            corner2: self.corner2@,
            corner3: self.corner3@,
            corner4: self.corner4@,
        }
    }
}

/// The region between two opposite corners whose sides run along `right` and
/// across it.
pub open spec fn region(corner1: V3, corner3: V3, right: V3) -> Corners {
    let dif = corner3.minus(corner1);
    let dif_hor = dif.project_onto(right);
    let dif_vert = dif.minus(dif_hor);
    Corners {
        corner1,
        corner2: corner1.plus(dif_vert),
        corner3,
        corner4: corner1.plus(dif_hor),
    }
}

impl Player {
    /// Both corners lie within reach.
    pub open spec fn wf(&self) -> bool {
        &&& self.corner1@.bounded()
        &&& self.corner3@.bounded()
    }

    /// The selection after a frame in which the cursor was at `point`.
    pub open spec fn after(self, mouse: MouseState, point: Vec3) -> Player {
        Player {
            selecting: if mouse.just_released {
                false
            } else if mouse.just_pressed {
                true
            } else {
                self.selecting
            },
            corner1: if mouse.just_pressed {
                point
            } else {
                self.corner1
            },
            corner3: if mouse.just_released || mouse.pressed {
                point
            } else {
                self.corner3
            },
        }
    }
}

/// The region between the corner where the button went down and `point`.
pub open spec fn dragged(player: Player, mouse: MouseState, point: Vec3, right: V3) -> Corners {
    region(player.after(mouse, point).corner1@, point@, right)
}

fn region_between(corner1: Vec3, corner3: Vec3, right: Vec3) -> (r: Rect)
    requires
        corner1@.bounded(),
        corner3@.bounded(),
        right@.bounded(),
        right@ != V3::zero(),
    ensures
        r@ == region(corner1@, corner3@, right@),
{
    proof {
        lemma_bounded_fits(corner1@);
        lemma_bounded_fits(corner3@);
    }
    let dif: Vec3 = corner3.minus(corner1);
    let dif_hor: Vec3 = dif.project_onto(right);
    let dif_vert: Vec3 = dif.minus(dif_hor);
    Rect {
        corner1,
        corner2: corner1.plus(dif_vert),
        corner3,
        corner4: corner1.plus(dif_hor),
    }
}

/// Takes one frame's input. `point` is where the cursor meets the ground, if
/// it does; `right` is the direction that runs to the right on the screen.
///
/// With no point nothing happens. Else a button that went down starts a
/// selection at the point. A button that came up ends it there: unless the
/// selection is being extended, what was selected is cleared, and the region
/// that was dragged is to be selected. While the button is down the region
/// dragged so far is to be outlined.
pub fn mouse_click_system(
    player: &mut Player,
    mouse: MouseState,
    point: Option<Vec3>,
    right: Vec3,
) -> (update: SelectionUpdate)
    requires
        old(player).wf(),
        point is Some ==> point->0@.bounded(),
        right@.bounded(),
        right@ != V3::zero(),
    ensures
        final(player).wf(),
        point is None ==> *final(player) == *old(player) && update == (SelectionUpdate {
            clear: false,
            select: None,
            outline: None,
        }),
        point is Some ==> {
            &&& *final(player) == old(player).after(mouse, point->0)
            &&& update.clear == (mouse.just_released && !mouse.extend)
            &&& update.select is Some == mouse.just_released
            &&& update.outline is Some == mouse.pressed
            &&& mouse.just_released ==> update.select->0@ == dragged(
                *old(player),
                mouse,
                point->0,
                right@,
            )
            &&& mouse.pressed ==> update.outline->0@ == dragged(
                *old(player),
                mouse,
                point->0,
                right@,
            )
        },
{
    let mut update = SelectionUpdate { clear: false, select: None, outline: None };
    match point {
        None => {},
        Some(p) => {
            if mouse.just_pressed {
                player.selecting = true;
                player.corner1 = p;
            }
            if mouse.just_released {
                player.corner3 = p;
                player.selecting = false;
                if !mouse.extend {
                    update.clear = true;
                }
                update.select = Some(region_between(player.corner1, player.corner3, right));
            }
            if mouse.pressed {
                player.corner3 = p;
                update.outline = Some(region_between(player.corner1, player.corner3, right));
            }
        },
    }
    update
}

} // verus!
