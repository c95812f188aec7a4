//! What a world holds once.

use vstd::prelude::*;
use crate::components::Transform;

verus! {

/// The entity through whose transform the world is seen, if one is chosen.
#[derive(Clone, Copy, Debug, PartialEq, Eq, Structural)]
pub struct ActiveCamera {
    pub entity: Option<u64>,
}

impl Default for ActiveCamera {
    /// No camera.
    fn default() -> (out: ActiveCamera)
        ensures
            out.entity.is_none(),
    {
        ActiveCamera { entity: None }
    }
}

/// The transform of the first row of `entity` among `rows`, if it has a row.
pub open spec fn transform_of(entity: u64, rows: Seq<(u64, Transform)>) -> Option<Transform>
    decreases rows.len(),
{
    if rows.len() == 0 {
        None
    } else if rows.first().0 == entity {
        Some(rows.first().1)
    } else {
        transform_of(entity, rows.drop_first())
    }
}

impl ActiveCamera {
    /// The transform of the camera: of the first row of the chosen entity
    /// among `rows`. There is none where no entity is chosen or the chosen
    /// entity has no row.
    pub open spec fn transform_in(self, rows: Seq<(u64, Transform)>) -> Option<Transform> {
        match self.entity {
            Some(entity) => transform_of(entity, rows),
            None => None,
        }
    }

    /// Whether a camera is chosen, has a row among `rows`, and its transform
    /// is in range: what a pass over the entities asks for.
    pub open spec fn is_ready(self, rows: Seq<(u64, Transform)>) -> bool {
        match self.transform_in(rows) {
            Some(transform) => transform.in_range(),
            None => false,
        }
    }

    /// The transform of the camera among `transforms`, if there is one.
    pub fn transform(&self, transforms: &Vec<(u64, Transform)>) -> (out: Option<Transform>)
        ensures
            out == self.transform_in(transforms@),
    {
        match self.entity {
            None => None,
            Some(entity) => {
                let mut i: usize = 0;
                proof {
                    assert(transforms@.subrange(0, transforms@.len() as int) == transforms@);
                }
                while i < transforms.len()
                    invariant
                        i <= transforms.len(),
                        self.entity == Some(entity),
                        transform_of(entity, transforms@) == transform_of(
                            entity,
                            transforms@.subrange(i as int, transforms@.len() as int),
                        ),
                    decreases transforms.len() - i,
                {
                    let ghost rest = transforms@.subrange(i as int, transforms@.len() as int);
                    proof {
                        assert(rest.first() == transforms@[i as int]);
                        assert(rest.drop_first() == transforms@.subrange(
                            i + 1,
                            transforms@.len() as int,
                        ));
                    }
                    if transforms[i].0 == entity {
                        proof {
                            assert(transform_of(entity, rest) == Some(transforms@[i as int].1));
                        }
                        return Some(transforms[i].1);
                    }
                    i = i + 1;
                }
                proof {
                    assert(transforms@.subrange(i as int, transforms@.len() as int).len() == 0);
                }
                None
            },
        }
    }

    /// Whether a camera is chosen, has a row among `transforms`, and its
    /// transform is in range.
    pub fn check_ready(&self, transforms: &Vec<(u64, Transform)>) -> (out: bool)
        ensures
            out == self.is_ready(transforms@),
    {
        match self.transform(transforms) {
            Some(transform) => transform.is_in_range(),
            None => false,
        }
    }
}

/// The camera has a transform just if an entity is chosen and has a row, and
/// then it is the transform of the first row of that entity.
pub proof fn lemma_transform_in(camera: ActiveCamera, rows: Seq<(u64, Transform)>)
    ensures
        camera.transform_in(rows).is_some() <==> camera.entity.is_some() && exists|i: int|
            0 <= i < rows.len() && rows[i].0 == camera.entity.unwrap(),
        camera.transform_in(rows) matches Some(transform) ==> exists|i: int|
            0 <= i < rows.len() && #[trigger] rows[i] == (camera.entity.unwrap(), transform) && forall|j: int|
                0 <= j < i ==> rows[j].0 != camera.entity.unwrap(),
    decreases rows.len(),
{
    if camera.entity.is_some() && rows.len() > 0 {
        let entity = camera.entity.unwrap();
        let rest = rows.drop_first();
        lemma_transform_in(camera, rest);
        if rows.first().0 == entity {
            assert(rows[0].0 == entity);
            assert(rows[0] == (entity, rows.first().1));
        } else {
            if exists|i: int| 0 <= i < rows.len() && rows[i].0 == entity {
                let i = choose|i: int| 0 <= i < rows.len() && rows[i].0 == entity;
                assert(rest[i - 1] == rows[i]);
            }
            if exists|i: int| 0 <= i < rest.len() && rest[i].0 == entity {
                let i = choose|i: int| 0 <= i < rest.len() && rest[i].0 == entity;
                assert(rows[i + 1] == rest[i]);
            }
            if let Some(transform) = camera.transform_in(rows) {
                let i = choose|i: int|
                    0 <= i < rest.len() && #[trigger] rest[i] == (entity, transform) && forall|j: int|
                        0 <= j < i ==> rest[j].0 != entity;
                assert(rows[i + 1] == rest[i]);
                assert forall|j: int| 0 <= j < i + 1 implies rows[j].0 != entity by {
                    if j > 0 {
                        assert(rest[j - 1] == rows[j]);
                    }
                }
            }
        }
    }
}

} // verus!
