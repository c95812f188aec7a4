use std::collections::HashSet;

use boundless::components::Transform;
use boundless::math::{Point2, Vector2};
use boundless::resources::ActiveCamera;
use boundless::systems::culling_system::CullingSystem;
use boundless::systems::physics_system::PhysicsSystem;
use boundless::systems::render_system::{RenderSystem, ScreenDimensions};
use boundless::units::{PIXEL, SCALE_ONE};
use specs::{Builder, Component, Entity, Join, VecStorage, World, WorldExt};

struct Place {
    x: f32,
    y: f32,
}

impl Component for Place {
    type Storage = VecStorage<Self>;
}

struct Culled;

impl Component for Culled {
    type Storage = VecStorage<Self>;
}

struct Tile;

impl Component for Tile {
    type Storage = VecStorage<Self>;
}

fn to_units(pixels: f32) -> i64 {
    (pixels as f64 * PIXEL as f64).round() as i64
}

fn new_world() -> World {
    let mut world = World::new();
    world.register::<Place>();
    world.register::<Culled>();
    world.register::<Tile>();
    world
}

fn rows_of(world: &World) -> Vec<(u64, Transform)> {
    let entities = world.entities();
    let places = world.read_storage::<Place>();
    (&entities, &places)
        .join()
        .map(|(entity, place)| {
            let transform = Transform {
                position: Point2::new(to_units(place.x), to_units(place.y)),
                scale: Vector2::new(SCALE_ONE, SCALE_ONE),
            };
            (entity.id() as u64, transform)
        })
        .collect()
}

fn culled_of(world: &World) -> HashSet<u64> {
    let entities = world.entities();
    let culled = world.read_storage::<Culled>();
    (&entities, &culled).join().map(|(entity, _)| entity.id() as u64).collect()
}

fn store_culled(world: &World, rows: &Vec<(u64, Transform)>, decided: &HashSet<u64>) {
    let entities = world.entities();
    let mut culled = world.write_storage::<Culled>();
    for (id, _) in rows {
        let entity = entities.entity(*id as u32);
        if decided.contains(id) {
            culled.insert(entity, Culled).unwrap();
        } else {
            culled.remove(entity);
        }
    }
}

fn is_culled(world: &World, entity: Entity) -> bool {
    world.read_storage::<Culled>().get(entity).is_some()
}

#[test]
fn culling_pass_over_an_entity_store() {
    let mut world = new_world();
    let near = world.create_entity().with(Place { x: 0.0, y: 0.0 }).build();
    let far = world.create_entity().with(Place { x: 1000.0, y: 1000.0 }).build();
    let edge = world.create_entity().with(Place { x: 599.5, y: -449.5 }).with(Culled).build();
    let nowhere = world.create_entity().with(Culled).build();
    world.maintain();

    let camera = ActiveCamera { entity: Some(near.id() as u64) };
    let screen = ScreenDimensions { x: 800 * PIXEL, y: 600 * PIXEL };
    let rows = rows_of(&world);
    assert_eq!(rows.len(), 3);
    let mut decided = culled_of(&world);
    CullingSystem {}.run(&camera, &screen, &rows, &mut decided);
    store_culled(&world, &rows, &decided);

    assert!(!is_culled(&world, near));
    assert!(is_culled(&world, far));
    assert!(!is_culled(&world, edge));
    assert!(is_culled(&world, nowhere));
}

#[test]
fn physics_pass_over_an_entity_store() {
    let mut world = new_world();
    let tile = world.create_entity().with(Place { x: 5000.0, y: 0.0 }).with(Tile).build();
    let sprite = world.create_entity().with(Place { x: 5000.0, y: 0.0 }).build();
    let eye = world.create_entity().with(Place { x: 0.0, y: 0.0 }).with(Culled).build();
    let near = world.create_entity().with(Place { x: 10.0, y: 10.0 }).with(Tile).with(Culled).build();
    world.maintain();

    let camera = ActiveCamera { entity: Some(eye.id() as u64) };
    let screen = ScreenDimensions { x: 800 * PIXEL, y: 600 * PIXEL };
    let rows = rows_of(&world);
    let mut decided = culled_of(&world);
    PhysicsSystem {}.run(&camera, &screen, &rows, &mut decided);
    store_culled(&world, &rows, &decided);

    // every entity with a place is decided, tile or not
    assert!(is_culled(&world, tile));
    assert!(is_culled(&world, sprite));
    assert!(!is_culled(&world, eye));
    assert!(!is_culled(&world, near));

    let list = RenderSystem {}.draw(Point2::new(screen.x, screen.y), &camera, &rows, &decided);
    let drawn: Vec<u64> = list.iter().map(|d| d.0).collect();
    assert_eq!(drawn, vec![eye.id() as u64, near.id() as u64]);
    assert_eq!(list[1].1.dest, Point2::new(410 * PIXEL, 290 * PIXEL));
}

#[test]
fn physics_pass_over_the_tiles_of_an_entity_store() {
    let mut world = new_world();
    let tile = world.create_entity().with(Place { x: 5000.0, y: 0.0 }).with(Tile).build();
    let sprite = world.create_entity().with(Place { x: 5000.0, y: 0.0 }).build();
    let eye = world.create_entity().with(Place { x: 0.0, y: 0.0 }).build();
    world.maintain();

    // the caller chooses the rows: here the tiles, and the camera that the pass needs
    let camera = ActiveCamera { entity: Some(eye.id() as u64) };
    let screen = ScreenDimensions { x: 800 * PIXEL, y: 600 * PIXEL };
    let rows: Vec<(u64, Transform)> = {
        let tiles = world.read_storage::<Tile>();
        rows_of(&world)
            .into_iter()
            .filter(|row| {
                row.0 == eye.id() as u64 || tiles.get(world.entities().entity(row.0 as u32)).is_some()
            })
            .collect()
    };
    assert_eq!(rows.len(), 2);
    let mut decided = culled_of(&world);
    PhysicsSystem {}.run(&camera, &screen, &rows, &mut decided);
    store_culled(&world, &rows, &decided);

    assert!(is_culled(&world, tile));
    assert!(!is_culled(&world, sprite));
    assert!(!is_culled(&world, eye));
}
