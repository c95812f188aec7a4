use std::collections::HashSet;

use boundless::components::tiles::{
    create_air, create_dirt, create_grassy_dirt, TileSpritesheet, TileType, TILE_SCALE,
};
use boundless::components::{Rect, Sprite, Transform};
use boundless::math::{Point2, Vector2};
use boundless::systems::demo_system::{DemoSystem, DEMO_EDGE, DEMO_STEP};
use boundless::units::{floor_div, PIXEL, SCALE_ONE};

fn transform(x: i64, y: i64, sx: i64, sy: i64) -> Transform {
    Transform { position: Point2::new(x, y), scale: Vector2::new(sx, sy) }
}

#[test]
fn floor_div_rounds_towards_less() {
    assert_eq!(floor_div(7, 2), 3);
    assert_eq!(floor_div(-7, 2), -4);
    assert_eq!(floor_div(-8, 2), -4);
    assert_eq!(floor_div(0, 5), 0);
    assert_eq!(floor_div(-1, 1_000), -1);
    assert_eq!(floor_div(i128::MAX, 1), i128::MAX);
    assert_eq!(floor_div(i128::MIN + 1, i128::MAX), -1);
}

#[test]
fn sprites_of_the_sheet() {
    let default = Sprite::default();
    assert_eq!(default.spritesheet_dir, "DefaultSpriteSheet");
    assert_eq!(
        (default.x_offset, default.y_offset, default.width, default.height),
        (0, 0, 64, 64)
    );
    let tile = Sprite::tile();
    assert_eq!(tile.spritesheet_dir, "/tiles_spritesheet.png");
    assert_eq!((tile.x_offset, tile.y_offset, tile.width, tile.height), (0, 0, 64, 64));
    let dirt = Sprite::dirt();
    assert_eq!(dirt.spritesheet_dir, "/tiles_spritesheet.png");
    assert_eq!((dirt.x_offset, dirt.y_offset, dirt.width, dirt.height), (0, 0, 64, 64));
    let grass = Sprite::grass();
    assert_eq!(grass.spritesheet_dir, "/tiles_spritesheet.png");
    assert_eq!((grass.x_offset, grass.y_offset, grass.width, grass.height), (64, 0, 64, 64));
}

#[test]
fn rect_holds_its_border() {
    let rect = Rect::new(-10, 20, 30, 40);
    assert!(rect.contains(Point2::new(-10, 20)));
    assert!(rect.contains(Point2::new(20, 60)));
    assert!(rect.contains(Point2::new(0, 30)));
    assert!(!rect.contains(Point2::new(-11, 30)));
    assert!(!rect.contains(Point2::new(21, 30)));
    assert!(!rect.contains(Point2::new(0, 19)));
    assert!(!rect.contains(Point2::new(0, 61)));
}

#[test]
fn rect_of_a_sprite_is_centred_on_the_position() {
    let t = transform(100 * PIXEL, -100 * PIXEL, 250, 500);
    let rect = t.get_rect_from_sprite(&Sprite::tile());
    // 64 * 0.25 = 16 and 64 * 0.5 = 32 pixels
    assert_eq!(rect, Rect::new(92 * PIXEL, -116 * PIXEL, 16 * PIXEL, 32 * PIXEL));
}

#[test]
fn rect_of_the_screen_is_what_the_camera_shows() {
    let cam = transform(0, 0, 2 * SCALE_ONE, SCALE_ONE);
    let rect = cam.get_rect_from_point(Point2::new(800 * PIXEL, 600 * PIXEL));
    assert_eq!(rect, Rect::new(-800 * PIXEL, -300 * PIXEL, 1600 * PIXEL, 600 * PIXEL));
    assert!(rect.contains(Point2::new(800 * PIXEL, 300 * PIXEL)));
    assert!(!rect.contains(Point2::new(800 * PIXEL + 1, 0)));
}

#[test]
fn rect_is_rounded_down() {
    let t = transform(0, 0, 1, 1);
    // 1_500 * 0.001 = 1.5 wide, from -0.75
    let rect = t.get_rect_from_point(Point2::new(1_500, 500));
    assert_eq!(rect, Rect::new(-1, -1, 1, 0));
}

#[test]
fn tiles_are_built_with_their_name_and_picture() {
    let p = Point2::new(3, 4);
    let air = create_air(p);
    assert_eq!(air.transform, transform(3, 4, TILE_SCALE, TILE_SCALE));
    assert_eq!(air.tile_type, TileType::Air);
    assert_eq!(air.name, "Air");
    assert_eq!(air.spritesheet, TileSpritesheet { x: 128, y: 0 });
    let dirt = create_dirt(p);
    assert_eq!(dirt.transform, transform(3, 4, TILE_SCALE, TILE_SCALE));
    assert_eq!(dirt.tile_type, TileType::Dirt);
    assert_eq!(dirt.name, "Dirt");
    assert_eq!(dirt.spritesheet, TileSpritesheet { x: 0, y: 0 });
    let grass = create_grassy_dirt(p);
    assert_eq!(grass.transform, transform(3, 4, TILE_SCALE, TILE_SCALE));
    assert_eq!(grass.tile_type, TileType::GrassyDirt);
    assert_eq!(grass.name, "Grassy Dirt");
    assert_eq!(grass.spritesheet, TileSpritesheet { x: 64, y: 0 });
}

#[test]
fn picture_of_a_tile_is_its_index_on_the_sheet() {
    for tile in [create_air(Point2::new(0, 0)), create_dirt(Point2::new(0, 0)), create_grassy_dirt(Point2::new(0, 0))] {
        assert_eq!(tile.spritesheet.x as usize, 64 * tile.tile_type.get_index());
    }
}

#[test]
fn demo_drifts_everything_but_the_cameras() {
    assert_eq!(DEMO_EDGE, 400 * PIXEL);
    assert_eq!(DEMO_STEP, 2 * PIXEL);
    let mut rows = vec![
        (1, transform(0, 5, SCALE_ONE, SCALE_ONE)),
        (2, transform(0, 5, SCALE_ONE, SCALE_ONE)),
        (3, transform(400 * PIXEL - 1, 6, 250, 250)),
        (4, transform(400 * PIXEL, 7, 250, 250)),
        (5, transform(9000 * PIXEL, 8, 250, 250)),
        (6, transform(i64::MIN, 9, 250, 250)),
    ];
    let cameras: HashSet<u64> = [2].into_iter().collect();
    DemoSystem {}.run(&mut rows, &cameras);
    assert_eq!(
        rows,
        vec![
            (1, transform(2 * PIXEL, 5, SCALE_ONE, SCALE_ONE)),
            (2, transform(0, 5, SCALE_ONE, SCALE_ONE)),
            (3, transform(402 * PIXEL - 1, 6, 250, 250)),
            (4, transform(-400 * PIXEL, 7, 250, 250)),
            (5, transform(-400 * PIXEL, 8, 250, 250)),
            (6, transform(i64::MIN + 2 * PIXEL, 9, 250, 250)),
        ]
    );
}
