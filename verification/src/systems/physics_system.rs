//! The culling pass of the frame.

use vstd::prelude::*;
use std::collections::HashSet;
use crate::components::Transform;
use crate::resources::ActiveCamera;
use crate::systems::culling_system::{culled_after, CullingSystem, ViewRectangle, VISIBILITY_MARGIN};
use crate::systems::render_system::ScreenDimensions;
use crate::units::is_coord;

verus! {

/// Marks, before a frame is drawn, the entities that the camera does not
/// see.
pub struct PhysicsSystem {}

impl PhysicsSystem {
    /// One pass: with the view of the active camera on the screen, margin
    /// included, every entity of `transforms` that lies inside the view
    /// leaves `culled_ents` and every other entity of `transforms` enters
    /// it, whatever it was before. The pass needs a camera: one must be
    /// chosen and have its row among `transforms`.
    pub fn run(
        &mut self,
        active_camera: &ActiveCamera,
        screen_size: &ScreenDimensions,
        transforms: &Vec<(u64, Transform)>,
        culled_ents: &mut HashSet<u64>,
    )
        requires
            active_camera.is_ready(transforms@),
            is_coord(screen_size.x as int),
            is_coord(screen_size.y as int),
        ensures
            final(culled_ents)@ == culled_after(
                transforms@,
                old(culled_ents)@,
                ViewRectangle::of_camera(
                    active_camera.transform_in(transforms@).unwrap(),
                    *screen_size,
                    VISIBILITY_MARGIN as int,
                ),
            ),
    {
        let mut pass = CullingSystem {  };
        pass.run(active_camera, screen_size, transforms, culled_ents);
    }
}

} // verus!
