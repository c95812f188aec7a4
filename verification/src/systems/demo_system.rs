//! A demonstration: everything but the cameras drifts to the right and
//! starts again from the left.

use vstd::prelude::*;
use std::collections::HashSet;
use crate::components::Transform;
use crate::math::Point2;

verus! {

broadcast use vstd::std_specs::hash::group_hash_axioms;

/// Where the drift ends and where it starts again: 400 pixels either side.
pub const DEMO_EDGE: i64 = 400_000_000;

/// How far an entity drifts in one pass: 2 pixels.
pub const DEMO_STEP: i64 = 2_000_000;

/// Where an entity at `x` is after one pass: `DEMO_STEP` further right, or
/// back at `-DEMO_EDGE` once it has reached `DEMO_EDGE`.
pub open spec fn drifted(x: int) -> int {
    if x < DEMO_EDGE {
        x + DEMO_STEP
    } else {
        -DEMO_EDGE
    }
}

/// `transform` after one pass, for an entity that is no camera.
pub open spec fn drifted_transform(transform: Transform) -> Transform {
    Transform {
        position: Point2 { x: drifted(transform.position.x as int) as i64, y: transform.position.y },
        scale: transform.scale,
    }
}

/// Moves everything but the cameras.
pub struct DemoSystem {}

impl DemoSystem {
    /// One pass: every entity of `transforms` that is none of `cameras`
    /// drifts; the cameras stay.
    pub fn run(&mut self, transforms: &mut Vec<(u64, Transform)>, cameras: &HashSet<u64>)
        ensures
            final(transforms)@.len() == old(transforms)@.len(),
            forall|i: int|
                0 <= i < old(transforms)@.len() ==> #[trigger] final(transforms)@[i] == (
                    old(transforms)@[i].0,
                    if cameras@.contains(old(transforms)@[i].0) {
                        old(transforms)@[i].1
                    } else {
                        drifted_transform(old(transforms)@[i].1)
                    },
                ),
    {
        let mut i: usize = 0;
        while i < transforms.len()
            invariant
                i <= transforms.len(),
                transforms@.len() == old(transforms)@.len(),
                forall|j: int| i <= j < transforms@.len() ==> transforms@[j] == old(transforms)@[j],
                forall|j: int|
                    0 <= j < i ==> #[trigger] transforms@[j] == (
                        old(transforms)@[j].0,
                        if cameras@.contains(old(transforms)@[j].0) {
                            old(transforms)@[j].1
                        } else {
                            drifted_transform(old(transforms)@[j].1)
                        },
                    ),
            decreases transforms.len() - i,
        {
            let entity: u64 = transforms[i].0;
            let transform: Transform = transforms[i].1;
            if !cameras.contains(&entity) {
                let x: i64 = transform.position.x;
                let pos_x: i64 = if x < DEMO_EDGE {
                    x + DEMO_STEP
                } else {
                    -DEMO_EDGE
                };
                let moved = Transform {
                    position: Point2 { x: pos_x, y: transform.position.y },
                    scale: transform.scale,
                };
                transforms.set(i, (entity, moved));
            }
            i = i + 1;
        }
    }
}

} // verus!
