//! Which entities the camera sees.
//!
//! The camera sees a rectangle of the world about its position. The
//! rectangle is as wide as the screen times the camera's scale, and a margin
//! is added to the scale so that an entity just off the screen is still
//! drawn. An entity whose position lies strictly inside the rectangle is
//! seen; every other entity is culled.

use vstd::prelude::*;
use std::collections::HashSet;
use vstd::math::abs;
use crate::components::Transform;
use crate::math::{Point2, Vector2};
use crate::resources::ActiveCamera;
use crate::systems::render_system::ScreenDimensions;
use crate::units::{is_coord, lemma_product_bound, COORD_MAX, SCALE_ONE};

verus! {

broadcast use vstd::std_specs::hash::group_hash_axioms;

/// What is added to the camera's scale before the view is measured: a half.
pub const VISIBILITY_MARGIN: i64 = 500;

/// The part of the world that the camera sees: the rectangle about `center`
/// that is `extent.x / SCALE_ONE` units wide and `extent.y / SCALE_ONE`
/// units high, its border left out.
#[derive(Clone, Copy, Debug, PartialEq, Eq, Structural)]
pub struct ViewRectangle {
    pub center: Point2,
    pub extent: Vector2,
}

impl ViewRectangle {
    /// Whether `(x, y)` lies strictly inside the rectangle: nearer to the
    /// centre than half the extent, along both axes.
    pub open spec fn holds(self, x: int, y: int) -> bool {
        &&& 2 * SCALE_ONE * (x - self.center.x) < self.extent.x
        &&& 2 * SCALE_ONE * (self.center.x - x) < self.extent.x
        &&& 2 * SCALE_ONE * (y - self.center.y) < self.extent.y
        &&& 2 * SCALE_ONE * (self.center.y - y) < self.extent.y
    }

    /// The view of a camera on a screen of the given size, with `margin`
    /// added to the camera's scale.
    pub open spec fn of_camera(camera: Transform, screen_size: ScreenDimensions, margin: int) -> ViewRectangle
        recommends
            camera.in_range(),
            is_coord(screen_size.x as int),
            is_coord(screen_size.y as int),
            0 <= margin <= SCALE_ONE,
    {
        ViewRectangle {
            center: camera.position,
            extent: Vector2 {
                x: (screen_size.x * (camera.scale.x + margin)) as i64,
                y: (screen_size.y * (camera.scale.y + margin)) as i64,
            },
        }
    }

    /// The view of a camera on a screen of the given size, with `margin`
    /// added to the camera's scale.
    pub fn new(camera_transform: &Transform, screen_size: &ScreenDimensions, margin: i64) -> (out:
        ViewRectangle)
        requires
            camera_transform.in_range(),
            is_coord(screen_size.x as int),
            is_coord(screen_size.y as int),
            0 <= margin <= SCALE_ONE,
        ensures
            out == ViewRectangle::of_camera(*camera_transform, *screen_size, margin as int),
            out.center == camera_transform.position,
            out.extent.x == screen_size.x * (camera_transform.scale.x + margin),
            out.extent.y == screen_size.y * (camera_transform.scale.y + margin),
    {
        proof {
            lemma_product_bound(
                screen_size.x as int,
                camera_transform.scale.x + margin,
                1_000_000_000_000,
                1_001_000,
            );
            lemma_product_bound(
                screen_size.y as int,
                camera_transform.scale.y + margin,
                1_000_000_000_000,
                1_001_000,
            );
        }
        ViewRectangle {
            center: camera_transform.position,
            extent: Vector2 {
                x: screen_size.x * (camera_transform.scale.x + margin),
                y: screen_size.y * (camera_transform.scale.y + margin),
            },
        }
    }

    /// Whether `point` lies strictly inside the rectangle.
    pub fn contains(&self, point: Point2) -> (out: bool)
        ensures
            out == self.holds(point.x as int, point.y as int),
    {
        let unit: i128 = 2 * (SCALE_ONE as i128);
        let dx: i128 = point.x as i128 - self.center.x as i128;
        let dy: i128 = point.y as i128 - self.center.y as i128;
        proof {
            lemma_product_bound(unit as int, dx as int, 2_000, 20_000_000_000_000_000_000);
            lemma_product_bound(unit as int, dy as int, 2_000, 20_000_000_000_000_000_000);
            assert(unit * (-dx) == -(unit * dx)) by (nonlinear_arith);
            assert(unit * (-dy) == -(unit * dy)) by (nonlinear_arith);
        }
        let reach_x: i128 = unit * dx;
        let reach_y: i128 = unit * dy;
        let extent_x: i128 = self.extent.x as i128;
        let extent_y: i128 = self.extent.y as i128;
        reach_x < extent_x && -reach_x < extent_x && reach_y < extent_y && -reach_y < extent_y
    }
}

/// The set of culled entities after a pass over `rows`, entity by entity, in
/// the order of the rows: an entity inside the view leaves the set, every
/// other entity of the rows enters it.
pub open spec fn culled_after(rows: Seq<(u64, Transform)>, culled: Set<u64>, view: ViewRectangle) -> Set<u64>
    decreases rows.len(),
{
    if rows.len() == 0 {
        culled
    } else {
        let before = culled_after(rows.drop_last(), culled, view);
        let row = rows.last();
        if view.holds(row.1.position.x as int, row.1.position.y as int) {
            before.remove(row.0)
        } else {
            before.insert(row.0)
        }
    }
}

/// A point lies in the view of a camera just if it lies nearer to the
/// camera's position than `width * (scale.x + margin) / 2` along x and nearer
/// than `height * (scale.y + margin) / 2` along y.
pub proof fn lemma_view_holds_iff_near(
    camera: Transform,
    screen_size: ScreenDimensions,
    margin: int,
    x: int,
    y: int,
)
    requires
        camera.in_range(),
        is_coord(screen_size.x as int),
        is_coord(screen_size.y as int),
        0 <= margin <= SCALE_ONE,
    ensures
        ViewRectangle::of_camera(camera, screen_size, margin).holds(x, y) <==> {
            &&& 2 * SCALE_ONE * abs(x - camera.position.x) < screen_size.x * (camera.scale.x
                + margin)
            &&& 2 * SCALE_ONE * abs(y - camera.position.y) < screen_size.y * (camera.scale.y
                + margin)
        },
{
    lemma_product_bound(screen_size.x as int, camera.scale.x + margin, 1_000_000_000_000, 1_001_000);
    lemma_product_bound(screen_size.y as int, camera.scale.y + margin, 1_000_000_000_000, 1_001_000);
}

/// An entity whose last row is the row `i` is culled after the pass just if
/// it lies at least half the extent of the view from the camera's position,
/// along either axis: it is seen just if it lies nearer than
/// `width * (scale.x + margin) / 2` along x and nearer than
/// `height * (scale.y + margin) / 2` along y.
pub proof fn lemma_culled_iff_outside(
    rows: Seq<(u64, Transform)>,
    culled: Set<u64>,
    camera: Transform,
    screen_size: ScreenDimensions,
    i: int,
)
    requires
        camera.in_range(),
        is_coord(screen_size.x as int),
        is_coord(screen_size.y as int),
        0 <= i < rows.len(),
        forall|j: int| i < j < rows.len() ==> rows[j].0 != rows[i].0,
    ensures
        !culled_after(
            rows,
            culled,
            ViewRectangle::of_camera(camera, screen_size, VISIBILITY_MARGIN as int),
        ).contains(rows[i].0) <==> {
            &&& 2 * SCALE_ONE * abs(rows[i].1.position.x - camera.position.x) < screen_size.x * (
            camera.scale.x + VISIBILITY_MARGIN)
            &&& 2 * SCALE_ONE * abs(rows[i].1.position.y - camera.position.y) < screen_size.y * (
            camera.scale.y + VISIBILITY_MARGIN)
        },
    decreases rows.len(),
{
    let view = ViewRectangle::of_camera(camera, screen_size, VISIBILITY_MARGIN as int);
    lemma_product_bound(
        screen_size.x as int,
        camera.scale.x + VISIBILITY_MARGIN,
        1_000_000_000_000,
        1_001_000,
    );
    lemma_product_bound(
        screen_size.y as int,
        camera.scale.y + VISIBILITY_MARGIN,
        1_000_000_000_000,
        1_001_000,
    );
    if i == rows.len() - 1 {
        assert(rows.last() == rows[i]);
    } else {
        let front = rows.drop_last();
        assert(front[i] == rows[i]);
        assert forall|j: int| i < j < front.len() implies front[j].0 != front[i].0 by {
            assert(front[j] == rows[j]);
        }
        lemma_culled_iff_outside(front, culled, camera, screen_size, i);
    }
}

/// An entity that has no row is culled after the pass just if it was culled
/// before.
pub proof fn lemma_culled_unchanged(
    rows: Seq<(u64, Transform)>,
    culled: Set<u64>,
    view: ViewRectangle,
    entity: u64,
)
    requires
        forall|j: int| 0 <= j < rows.len() ==> rows[j].0 != entity,
    ensures
        culled_after(rows, culled, view).contains(entity) <==> culled.contains(entity),
    decreases rows.len(),
{
    if rows.len() > 0 {
        let front = rows.drop_last();
        assert forall|j: int| 0 <= j < front.len() implies front[j].0 != entity by {
            assert(front[j] == rows[j]);
        }
        lemma_culled_unchanged(front, culled, view, entity);
    }
}

/// The flag of an entity that has a row does not depend on the flags before
/// the pass: it is a snapshot of the positions and the camera.
pub proof fn lemma_culled_is_snapshot(
    rows: Seq<(u64, Transform)>,
    first: Set<u64>,
    second: Set<u64>,
    view: ViewRectangle,
    i: int,
)
    requires
        0 <= i < rows.len(),
    ensures
        culled_after(rows, first, view).contains(rows[i].0) == culled_after(
            rows,
            second,
            view,
        ).contains(rows[i].0),
    decreases rows.len(),
{
    if rows.last().0 != rows[i].0 {
        let front = rows.drop_last();
        assert(front[i] == rows[i]);
        lemma_culled_is_snapshot(front, first, second, view, i);
    }
}

/// A second pass with nothing changed leaves the flags as the first left
/// them.
pub proof fn lemma_culled_twice(rows: Seq<(u64, Transform)>, culled: Set<u64>, view: ViewRectangle)
    ensures
        culled_after(rows, culled_after(rows, culled, view), view) == culled_after(
            rows,
            culled,
            view,
        ),
{
    let once = culled_after(rows, culled, view);
    let twice = culled_after(rows, once, view);
    assert forall|entity: u64| twice.contains(entity) == once.contains(entity) by {
        if exists|i: int| 0 <= i < rows.len() && rows[i].0 == entity {
            let i = choose|i: int| 0 <= i < rows.len() && rows[i].0 == entity;
            lemma_culled_is_snapshot(rows, once, culled, view, i);
        } else {
            lemma_culled_unchanged(rows, once, view, entity);
        }
    }
    assert(twice =~= once);
}

/// A camera that shows more of the world per unit of the screen sees
/// whatever it saw before: no greater scale takes a point out of the view.
pub proof fn lemma_view_grows_with_scale(
    camera: Transform,
    wider: Transform,
    screen_size: ScreenDimensions,
    x: int,
    y: int,
)
    requires
        camera.in_range(),
        wider.in_range(),
        wider.position == camera.position,
        camera.scale.x <= wider.scale.x,
        camera.scale.y <= wider.scale.y,
        0 <= screen_size.x <= COORD_MAX,
        0 <= screen_size.y <= COORD_MAX,
        ViewRectangle::of_camera(camera, screen_size, VISIBILITY_MARGIN as int).holds(x, y),
    ensures
        ViewRectangle::of_camera(wider, screen_size, VISIBILITY_MARGIN as int).holds(x, y),
{
    lemma_product_bound(
        screen_size.x as int,
        camera.scale.x + VISIBILITY_MARGIN,
        1_000_000_000_000,
        1_001_000,
    );
    lemma_product_bound(
        screen_size.y as int,
        camera.scale.y + VISIBILITY_MARGIN,
        1_000_000_000_000,
        1_001_000,
    );
    lemma_product_bound(
        screen_size.x as int,
        wider.scale.x + VISIBILITY_MARGIN,
        1_000_000_000_000,
        1_001_000,
    );
    lemma_product_bound(
        screen_size.y as int,
        wider.scale.y + VISIBILITY_MARGIN,
        1_000_000_000_000,
        1_001_000,
    );
    assert(screen_size.x * (camera.scale.x + VISIBILITY_MARGIN) <= screen_size.x * (wider.scale.x
        + VISIBILITY_MARGIN)) by (nonlinear_arith)
        requires
            0 <= screen_size.x,
            camera.scale.x <= wider.scale.x,
    ;
    assert(screen_size.y * (camera.scale.y + VISIBILITY_MARGIN) <= screen_size.y * (wider.scale.y
        + VISIBILITY_MARGIN)) by (nonlinear_arith)
        requires
            0 <= screen_size.y,
            camera.scale.y <= wider.scale.y,
    ;
}

/// Without a margin, twice the scale sees a rectangle twice as wide and
/// twice as high.
pub proof fn lemma_view_doubles_with_scale(
    camera: Transform,
    doubled: Transform,
    screen_size: ScreenDimensions,
)
    requires
        camera.in_range(),
        doubled.in_range(),
        doubled.scale.x == 2 * camera.scale.x,
        doubled.scale.y == 2 * camera.scale.y,
        is_coord(screen_size.x as int),
        is_coord(screen_size.y as int),
    ensures
        ViewRectangle::of_camera(doubled, screen_size, 0).extent.x == 2 * ViewRectangle::of_camera(
            camera,
            screen_size,
            0,
        ).extent.x,
        ViewRectangle::of_camera(doubled, screen_size, 0).extent.y == 2 * ViewRectangle::of_camera(
            camera,
            screen_size,
            0,
        ).extent.y,
{
    lemma_product_bound(screen_size.x as int, camera.scale.x as int, 1_000_000_000_000, 1_000_000);
    lemma_product_bound(screen_size.y as int, camera.scale.y as int, 1_000_000_000_000, 1_000_000);
    lemma_product_bound(screen_size.x as int, doubled.scale.x as int, 1_000_000_000_000, 1_000_000);
    lemma_product_bound(screen_size.y as int, doubled.scale.y as int, 1_000_000_000_000, 1_000_000);
    assert(screen_size.x * (2 * camera.scale.x) == 2 * (screen_size.x * camera.scale.x))
        by (nonlinear_arith);
    assert(screen_size.y * (2 * camera.scale.y) == 2 * (screen_size.y * camera.scale.y))
        by (nonlinear_arith);
}

/// Marks the entities that the camera does not see.
pub struct CullingSystem {}

impl CullingSystem {
    /// One pass: with the view of the active camera on the screen, margin
    /// included, every entity of `transforms` that lies inside the view
    /// leaves `culled_ents` and every other entity of `transforms` enters
    /// it. The pass needs a camera: one must be chosen and have its row among
    /// `transforms`.
    pub fn run(
        &mut self,
        active_camera: &ActiveCamera,
        screen_size: &ScreenDimensions,
        transforms: &Vec<(u64, Transform)>,
        culled_ents: &mut HashSet<u64>,
    )
        requires
            active_camera.is_ready(transforms@),
            is_coord(screen_size.x as int),
            is_coord(screen_size.y as int),
        ensures
            final(culled_ents)@ == culled_after(
                transforms@,
                old(culled_ents)@,
                ViewRectangle::of_camera(
                    active_camera.transform_in(transforms@).unwrap(),
                    *screen_size,
                    VISIBILITY_MARGIN as int,
                ),
            ),
    {
        let camera_transform = active_camera.transform(transforms).unwrap();
        let camera_rect = ViewRectangle::new(&camera_transform, screen_size, VISIBILITY_MARGIN);
        let mut i: usize = 0;
        while i < transforms.len()
            invariant
                i <= transforms.len(),
                culled_ents@ == culled_after(
                    transforms@.subrange(0, i as int),
                    old(culled_ents)@,
                    camera_rect,
                ),
            decreases transforms.len() - i,
        {
            let entity: u64 = transforms[i].0;
            let position: Point2 = transforms[i].1.position;
            proof {
                let done = transforms@.subrange(0, i + 1);
                assert(done.drop_last() == transforms@.subrange(0, i as int));
                assert(done.last() == transforms@[i as int]);
            }
            if camera_rect.contains(position) {
                culled_ents.remove(&entity);
            } else {
                culled_ents.insert(entity);
            }
            i = i + 1;
        }
        proof {
            assert(transforms@.subrange(0, i as int) == transforms@);
        }
    }
}

} // verus!
