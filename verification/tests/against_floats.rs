use boundless::components::Transform;
use boundless::math::{Point2, Vector2};
use boundless::systems::render_system::RenderSystem;
use boundless::systems::world_gen_system::WorldGenSystem;
use boundless::tile_map::tile_to_world;
use boundless::units::{PIXEL, SCALE_ONE};
use nalgebra::{Matrix3, Point3};

fn to_units(pixels: f64) -> i64 {
    (pixels * PIXEL as f64).round() as i64
}

fn to_pixels(units: i64) -> f64 {
    units as f64 / PIXEL as f64
}

fn camera(x: f64, y: f64, sx: f64, sy: f64) -> Transform {
    Transform {
        position: Point2::new(to_units(x), to_units(y)),
        scale: Vector2::new((sx * SCALE_ONE as f64).round() as i64, (sy * SCALE_ONE as f64).round() as i64),
    }
}

fn float_world_to_screen(w: f64, h: f64, cam: (f64, f64, f64, f64)) -> Matrix3<f64> {
    let (cx, cy, sx, sy) = cam;
    let width_scalar = w / (w * sx);
    let height_scalar = h / (h * sy);
    let world2camera = Matrix3::new(1.0, 0.0, -cx, 0.0, -1.0, cy, 0.0, 0.0, 1.0);
    let camera2screen =
        Matrix3::new(width_scalar, 0.0, w / 2.0, 0.0, height_scalar, h / 2.0, 0.0, 0.0, 1.0);
    camera2screen * world2camera
}

#[test]
fn world_to_screen_agrees_with_the_float_matrices() {
    let mut render = RenderSystem {};
    let (w, h) = (800.0, 600.0);
    for cam in [(0.0, 0.0, 1.0, 1.0), (12.5, -40.25, 2.0, 0.5), (-1000.0, 333.0, 0.1, 10.0)] {
        for p in [(0.0, 0.0), (1000.0, 1000.0), (-17.75, 256.5), (99999.0, -99999.0)] {
            let float = float_world_to_screen(w, h, cam) * Point3::new(p.0, p.1, 1.0);
            let whole = render.world_to_screen_coords(
                Point2::new(to_units(w), to_units(h)),
                &camera(cam.0, cam.1, cam.2, cam.3),
                Point2::new(to_units(p.0), to_units(p.1)),
            );
            assert!((to_pixels(whole.x) - float.x).abs() < 1e-4);
            assert!((to_pixels(whole.y) - float.y).abs() < 1e-4);
        }
    }
}

#[test]
fn screen_to_world_agrees_with_the_float_inverse() {
    let (w, h) = (800.0, 600.0);
    for cam in [(0.0, 0.0, 1.0, 1.0), (12.5, -40.25, 2.0, 0.5), (-1000.0, 333.0, 0.1, 10.0)] {
        let inverse = float_world_to_screen(w, h, cam).try_inverse().unwrap();
        for p in [(400.0, 300.0), (0.0, 0.0), (800.0, 600.0), (-17.75, 256.5)] {
            let float = inverse * Point3::new(p.0, p.1, 1.0);
            let whole = RenderSystem::screen_to_world_coords(
                Point2::new(to_units(w), to_units(h)),
                &camera(cam.0, cam.1, cam.2, cam.3),
                Point2::new(to_units(p.0), to_units(p.1)),
            );
            assert!((to_pixels(whole.x) - float.x).abs() < 1e-4);
            assert!((to_pixels(whole.y) - float.y).abs() < 1e-4);
        }
    }
}

#[test]
fn tile_positions_agree_with_the_float_formula() {
    let (tile_size, tile_scale) = (64.0_f64, 0.25_f64);
    for (width, height) in [(128usize, 128usize), (3, 5), (10, 1)] {
        for (x, y) in [(0usize, 0usize), (1, 0), (2, 0), (width - 1, height - 1)] {
            let scaled_size = tile_size * tile_scale;
            let center = scaled_size * 0.5;
            let left = -(width as f64 / 2.0) * scaled_size;
            let bottom = -(height as f64 / 2.0) * scaled_size;
            let float = (left + (x as f64 * scaled_size + center), bottom + (y as f64 * scaled_size + center));
            let whole = tile_to_world(x, y, 64 * PIXEL, SCALE_ONE / 4, width, height);
            assert_eq!(to_pixels(whole.x), float.0);
            assert_eq!(to_pixels(whole.y), float.1);
        }
    }
}

#[test]
fn noise_gives_heights_that_the_world_is_laid_out_from() {
    let world = WorldGenSystem { world_width: 128, world_height: 128 };
    let noise = simdnoise::NoiseBuilder::gradient_1d(world.world_width)
        .generate_scaled((world.world_height / 2) as f32, (world.world_height - 1) as f32);
    let heights: Vec<usize> = noise.iter().map(|n| n.round() as usize).collect();
    assert_eq!(heights.len(), 128);
    let tiles = world.run(&heights);
    assert_eq!(tiles.len(), 128 * 128);
    for x in 0..128usize {
        assert!(heights[x] >= 64 && heights[x] <= 127);
        for y in 0..128usize {
            let name = tiles[x * 128 + y].name;
            if y < heights[x] {
                assert_eq!(name, "Dirt");
            } else if y == heights[x] {
                assert_eq!(name, "Grassy Dirt");
            } else {
                assert_eq!(name, "Air");
            }
        }
    }
}
