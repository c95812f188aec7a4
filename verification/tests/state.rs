use boundless::components::tiles::TileType;
use boundless::components::Transform;
use boundless::math::{Point2, Vector2};
use boundless::state::{InputHandler, State, WORLD_SIDE};
use boundless::systems::input_system::MouseButton;
use boundless::systems::render_system::ScreenDimensions;
use boundless::systems::world_gen_system::WorldGenSystem;
use boundless::units::{PIXEL, SCALE_ONE};

fn new_state() -> State {
    State::new(&vec![64; WORLD_SIDE])
}

fn screen_800_600() -> Point2 {
    Point2::new(800 * PIXEL, 600 * PIXEL)
}

#[test]
fn new_game_starts_at_the_origin() {
    let state = new_state();
    assert_eq!(
        state.camera,
        Transform { position: Point2::new(0, 0), scale: Vector2::new(SCALE_ONE, SCALE_ONE) }
    );
    assert_eq!(state.screen_size, ScreenDimensions { x: 0, y: 0 });
    assert_eq!(state.input_handler, InputHandler { pos_x: 0, pos_y: 0, mouse_down: false });
    assert_eq!(state.world_gen_system, WorldGenSystem { world_width: 128, world_height: 128 });
    assert_eq!(state.tile_map.len(), 128 * 128);
    assert_eq!(state.tile_map[0].tile_type, TileType::Dirt);
    assert_eq!(state.tile_map[64].tile_type, TileType::GrassyDirt);
    assert_eq!(state.tile_map[65].tile_type, TileType::Air);
    assert_eq!(state.tile_map[127 * 128 + 63].tile_type, TileType::Dirt);
}

#[test]
fn right_click_digs_the_tile_under_the_mouse() {
    let mut state = new_state();
    // the screen's centre is the world's origin, in the tile (64, 64)
    let number = 64 * 128 + 64;
    assert_eq!(state.tile_map[number].tile_type, TileType::GrassyDirt);
    let place = state.tile_map[number].transform.position;
    let dug = state.mouse_button_up_event(MouseButton::Right, 400 * PIXEL, 300 * PIXEL, screen_800_600());
    assert_eq!(dug, Some(number));
    assert_eq!(state.tile_map[number].tile_type, TileType::Air);
    assert_eq!(state.tile_map[number].name, "Air");
    assert_eq!(state.tile_map[number].transform.position, place);
    assert_eq!(state.tile_map[number - 1].tile_type, TileType::Dirt);
    assert_eq!(state.tile_map[number + 1].tile_type, TileType::Air);
    assert_eq!(state.tile_map.len(), 128 * 128);
}

#[test]
fn right_click_digs_dirt_too() {
    let mut state = new_state();
    // 20 pixels below the screen's centre: row 64 - 2 = 62
    let dug = state.mouse_button_up_event(MouseButton::Right, 400 * PIXEL, 320 * PIXEL, screen_800_600());
    assert_eq!(dug, Some(64 * 128 + 62));
    assert_eq!(state.tile_map[64 * 128 + 62].tile_type, TileType::Air);
}

#[test]
fn air_is_not_dug() {
    let mut state = new_state();
    // 20 pixels above the screen's centre: row 64 + 1 = 65
    let dug = state.mouse_button_up_event(MouseButton::Right, 400 * PIXEL, 280 * PIXEL, screen_800_600());
    assert_eq!(dug, None);
    assert_eq!(state.tile_map[64 * 128 + 65].tile_type, TileType::Air);
}

#[test]
fn other_buttons_do_not_dig() {
    for button in [MouseButton::Left, MouseButton::Middle, MouseButton::Other] {
        let mut state = new_state();
        let dug = state.mouse_button_up_event(button, 400 * PIXEL, 300 * PIXEL, screen_800_600());
        assert_eq!(dug, None);
        assert_eq!(state.tile_map[64 * 128 + 64].tile_type, TileType::GrassyDirt);
    }
}

#[test]
fn click_beside_the_world_is_ignored() {
    let mut state = new_state();
    state.camera.pan(5000 * PIXEL, 0);
    let dug = state.mouse_button_up_event(MouseButton::Right, 400 * PIXEL, 300 * PIXEL, screen_800_600());
    assert_eq!(dug, None);
    assert!(state.tile_map.iter().all(|t| t.tile_type != TileType::Air || t.name == "Air"));
    assert_eq!(state.tile_map[0].tile_type, TileType::Dirt);
}

#[test]
fn digging_follows_the_camera() {
    let mut state = new_state();
    state.camera.pan(-1016 * PIXEL, -1016 * PIXEL);
    state.camera.zoom(SCALE_ONE);
    let dug = state.mouse_button_up_event(MouseButton::Right, 400 * PIXEL, 300 * PIXEL, screen_800_600());
    assert_eq!(dug, Some(0));
    // 8 pixels right of the centre at scale 2 are 16 pixels in the world: the next column
    let dug = state.mouse_button_up_event(MouseButton::Right, 408 * PIXEL, 300 * PIXEL, screen_800_600());
    assert_eq!(dug, Some(128));
}

#[test]
fn middle_button_starts_and_ends_a_drag() {
    let mut state = new_state();
    state.mouse_button_down_event(MouseButton::Left, 1, 2);
    assert!(!state.input_handler.mouse_down);
    state.mouse_button_down_event(MouseButton::Middle, 1, 2);
    assert!(state.input_handler.mouse_down);
    state.mouse_button_up_event(MouseButton::Left, 1, 2, screen_800_600());
    assert!(state.input_handler.mouse_down);
    state.mouse_button_up_event(MouseButton::Middle, 1, 2, screen_800_600());
    assert!(!state.input_handler.mouse_down);
}

#[test]
fn dragging_pans_the_camera() {
    let mut state = new_state();
    state.mouse_motion_event(10, 10, 5, 5);
    assert_eq!(state.camera.position, Point2::new(0, 0));
    assert_eq!(state.input_handler, InputHandler { pos_x: 0, pos_y: 0, mouse_down: false });
    state.mouse_button_down_event(MouseButton::Middle, 10, 10);
    state.mouse_motion_event(10, 10, 5, 7);
    assert_eq!(state.camera.position, Point2::new(-5, 7));
    assert_eq!(state.input_handler, InputHandler { pos_x: 10, pos_y: 10, mouse_down: true });
    // the mouse is where it last dragged: nothing moves
    state.mouse_motion_event(10, 10, 5, 7);
    assert_eq!(state.camera.position, Point2::new(-5, 7));
    // a drag goes on beyond a million pixels
    state.mouse_motion_event(10, 11, -2_000_000 * PIXEL, 1);
    assert_eq!(state.camera.position, Point2::new(2_000_000 * PIXEL - 5, 8));
    assert_eq!(state.input_handler, InputHandler { pos_x: 10, pos_y: 11, mouse_down: true });
    assert!(state.can_move(10, 12, i64::MIN + 2_000_000 * PIXEL - 4, 0));
    assert!(!state.can_move(10, 12, i64::MIN + 2_000_000 * PIXEL - 6, 0));
    // where the mouse does not drag, any motion can be taken
    assert!(state.can_move(10, 11, i64::MIN, i64::MAX));
}

#[test]
fn wheel_takes_a_tenth_of_its_turn_from_the_scale() {
    let mut state = new_state();
    state.mouse_wheel_event(0, 1_000);
    assert_eq!(state.camera.scale, Vector2::new(900, 900));
    state.mouse_wheel_event(0, -3_000);
    assert_eq!(state.camera.scale, Vector2::new(1_200, 1_200));
    // a tenth of 15 is 1.5, rounded down to 1; a tenth of -15 is -1.5, rounded down to -2
    state.mouse_wheel_event(0, 15);
    assert_eq!(state.camera.scale, Vector2::new(1_199, 1_199));
    state.mouse_wheel_event(0, -15);
    assert_eq!(state.camera.scale, Vector2::new(1_201, 1_201));
}

#[test]
fn wheel_never_zooms_below_the_floor() {
    let mut state = new_state();
    for _ in 0..50 {
        state.mouse_wheel_event(0, 1_000);
    }
    assert_eq!(state.camera.scale, Vector2::new(100, 100));
    state.mouse_wheel_event(0, i64::MAX);
    assert_eq!(state.camera.scale, Vector2::new(100, 100));
}

#[test]
fn wheel_zooms_out_beyond_a_thousand() {
    let mut state = new_state();
    // scale 1000, and a turn that adds a tenth
    state.camera.scale = Vector2::new(1_000_000, 1_000_000);
    state.mouse_wheel_event(0, -1_000);
    assert_eq!(state.camera.scale, Vector2::new(1_000_100, 1_000_100));
    // a turn that adds three thousand
    state.mouse_wheel_event(0, -30_000_000);
    assert_eq!(state.camera.scale, Vector2::new(4_000_100, 4_000_100));
    assert!(state.can_wheel(i64::MIN));
    state.mouse_wheel_event(0, i64::MIN);
    assert_eq!(
        state.camera.scale,
        Vector2::new(922_337_203_689_477_681, 922_337_203_689_477_681)
    );
}

#[test]
fn wheel_holds_each_axis_to_the_floor_on_its_own() {
    let mut state = new_state();
    state.camera.scale = Vector2::new(150, 5_000);
    state.mouse_wheel_event(123, 10_000);
    assert_eq!(state.camera.scale, Vector2::new(100, 4_000));
}

#[test]
fn wheel_that_cannot_be_held_is_told_beforehand() {
    let mut state = new_state();
    state.camera.scale = Vector2::new(i64::MAX - 5, SCALE_ONE);
    // a tenth of -50 is -5, of -51 it is -5.1, rounded down to -6
    assert!(state.can_wheel(-50));
    assert!(!state.can_wheel(-51));
    assert!(state.can_wheel(i64::MAX));
}

#[test]
fn resize_sets_the_size_of_the_screen() {
    let mut state = new_state();
    state.resize_event(1024 * PIXEL, 768 * PIXEL);
    assert_eq!(state.screen_size, ScreenDimensions { x: 1024 * PIXEL, y: 768 * PIXEL });
}

#[test]
fn events_within_the_range_keep_the_game_well_formed() {
    let mut state = new_state();
    assert!(state.is_wf());
    state.resize_event(800 * PIXEL, 600 * PIXEL);
    state.mouse_button_down_event(MouseButton::Middle, 0, 0);
    state.mouse_motion_event(1, 1, 500 * PIXEL, -500 * PIXEL);
    state.mouse_wheel_event(0, -5_000);
    state.mouse_button_up_event(MouseButton::Right, 0, 0, screen_800_600());
    assert!(state.is_wf());
    state.tile_map.pop();
    assert!(!state.is_wf());
}

#[test]
fn a_drag_beyond_the_range_leaves_a_game_that_says_so() {
    let mut state = new_state();
    state.mouse_button_down_event(MouseButton::Middle, 0, 0);
    state.mouse_motion_event(1, 1, -1_000_001 * PIXEL, 0);
    assert_eq!(state.camera.position, Point2::new(1_000_001 * PIXEL, 0));
    assert!(!state.is_wf());
    state.mouse_motion_event(2, 2, 2 * PIXEL, 0);
    assert!(state.is_wf());
}

#[test]
fn game_with_a_camera_out_of_range_is_not_well_formed() {
    let mut state = new_state();
    state.camera.scale = Vector2::new(0, SCALE_ONE);
    assert!(!state.is_wf());
    state.camera.zoom(0);
    assert!(state.is_wf());
    state.world_gen_system = WorldGenSystem { world_width: 128, world_height: 127 };
    assert!(!state.is_wf());
}
