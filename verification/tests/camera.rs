use boundless::components::{Transform, ZOOM_FLOOR};
use boundless::math::{Point2, Vector2};
use boundless::systems::input_system::{
    GodCameraSystem, InputEvent, InputManager, MouseButton, ScrollDirection, ZOOM_STEP,
};
use boundless::units::{COORD_MAX, PIXEL, SCALE_MAX, SCALE_ONE};

fn camera(x: i64, y: i64, sx: i64, sy: i64) -> Transform {
    Transform { position: Point2::new(x, y), scale: Vector2::new(sx, sy) }
}

#[test]
fn floor_and_step_are_a_tenth() {
    assert_eq!(ZOOM_FLOOR * 10, SCALE_ONE);
    assert_eq!(ZOOM_STEP * 10, SCALE_ONE);
}

#[test]
fn pan_adds_to_the_position() {
    let mut cam = camera(10, 20, SCALE_ONE, SCALE_ONE);
    cam.pan(5, -50);
    assert_eq!(cam, camera(15, -30, SCALE_ONE, SCALE_ONE));
}

#[test]
fn pan_goes_on_beyond_the_range_of_the_matrices() {
    let mut cam = camera(COORD_MAX - 1, -COORD_MAX + 1, SCALE_ONE, SCALE_ONE);
    cam.pan(5, -5);
    assert_eq!(cam.position, Point2::new(COORD_MAX + 4, -COORD_MAX - 4));
    assert!(!cam.is_in_range());
    // a drag by -1 pixel at a million pixels
    let mut cam = camera(COORD_MAX, 0, SCALE_ONE, SCALE_ONE);
    cam.pan(PIXEL, 0);
    assert_eq!(cam.position, Point2::new(COORD_MAX + PIXEL, 0));
    let mut cam = camera(0, 0, SCALE_ONE, SCALE_ONE);
    cam.pan(i64::MAX, i64::MIN);
    assert_eq!(cam.position, Point2::new(i64::MAX, i64::MIN));
}

#[test]
fn pan_can_go_as_far_as_a_position_can_be_held() {
    let cam = camera(10, -10, SCALE_ONE, SCALE_ONE);
    assert!(cam.can_pan(i64::MAX - 10, i64::MIN + 10));
    assert!(!cam.can_pan(i64::MAX - 9, 0));
    assert!(!cam.can_pan(0, i64::MIN + 9));
    assert!(cam.can_pan(i64::MIN, i64::MAX));
}

#[test]
fn zoom_adds_to_the_scale_along_both_axes() {
    let mut cam = camera(1, 2, 1_000, 2_000);
    cam.zoom(250);
    assert_eq!(cam, camera(1, 2, 1_250, 2_250));
    cam.zoom(-1_000);
    assert_eq!(cam, camera(1, 2, 250, 1_250));
}

#[test]
fn zoom_stops_at_the_floor() {
    let mut cam = camera(0, 0, 150, 1_000);
    cam.zoom(-100);
    assert_eq!(cam.scale, Vector2::new(ZOOM_FLOOR, 900));
    cam.zoom(-50);
    assert_eq!(cam.scale, Vector2::new(ZOOM_FLOOR, 850));
}

#[test]
fn repeated_zoom_in_never_goes_below_the_floor() {
    let mut cam = camera(0, 0, SCALE_ONE, 5 * SCALE_ONE);
    for _ in 0..100 {
        cam.zoom(-1000 * SCALE_ONE);
        assert_eq!(cam.scale, Vector2::new(ZOOM_FLOOR, ZOOM_FLOOR));
    }
    cam.zoom(i64::MIN);
    assert_eq!(cam.scale, Vector2::new(ZOOM_FLOOR, ZOOM_FLOOR));
}

#[test]
fn zoom_lifts_a_scale_of_zero_to_the_floor() {
    let mut cam = camera(0, 0, 0, -5);
    cam.zoom(0);
    assert_eq!(cam.scale, Vector2::new(ZOOM_FLOOR, ZOOM_FLOOR));
}

#[test]
fn zoom_goes_on_beyond_the_range_of_the_matrices() {
    let mut cam = camera(0, 0, SCALE_MAX - 1, SCALE_ONE);
    cam.zoom(10);
    assert_eq!(cam.scale, Vector2::new(SCALE_MAX + 9, SCALE_ONE + 10));
    assert!(!cam.is_in_range());
    // one notch out at a scale of a thousand
    let mut cam = camera(0, 0, SCALE_MAX, SCALE_MAX);
    cam.zoom(ZOOM_STEP);
    assert_eq!(cam.scale, Vector2::new(SCALE_MAX + 100, SCALE_MAX + 100));
    cam.zoom(i64::MAX - SCALE_MAX - 100);
    assert_eq!(cam.scale, Vector2::new(i64::MAX, i64::MAX));
}

#[test]
fn zoom_can_go_as_far_as_a_scale_can_be_held() {
    let cam = camera(0, 0, 10, 20);
    assert!(cam.can_zoom(i64::MAX - 20));
    assert!(!cam.can_zoom(i64::MAX - 19));
    assert!(cam.can_zoom(i64::MIN));
    assert!(cam.can_zoom(0));
}

#[test]
fn zoom_holds_each_axis_to_the_floor_on_its_own() {
    let mut cam = camera(0, 0, 150, 5_000);
    cam.zoom(-1_000);
    assert_eq!(cam.scale, Vector2::new(ZOOM_FLOOR, 4_000));
    let mut cam = camera(0, 0, i64::MIN, i64::MAX);
    cam.zoom(0);
    assert_eq!(cam.scale, Vector2::new(ZOOM_FLOOR, i64::MAX));
}

#[test]
fn frame_reset_forgets_the_press_only() {
    let mut manager = InputManager { left_click_pressed: true, left_click_down: true };
    manager.frame_reset();
    assert_eq!(manager, InputManager { left_click_pressed: false, left_click_down: true });
    assert_eq!(
        InputManager::default(),
        InputManager { left_click_pressed: false, left_click_down: false }
    );
}

#[test]
fn left_button_sets_and_clears_the_flags() {
    let mut manager = InputManager::default();
    let mut cam = camera(0, 0, SCALE_ONE, SCALE_ONE);
    GodCameraSystem::handle(&InputEvent::MouseButtonPressed(MouseButton::Left), &mut manager, &mut cam);
    assert_eq!(manager, InputManager { left_click_pressed: true, left_click_down: true });
    GodCameraSystem::handle(&InputEvent::MouseButtonReleased(MouseButton::Left), &mut manager, &mut cam);
    assert_eq!(manager, InputManager { left_click_pressed: true, left_click_down: false });
    assert_eq!(cam, camera(0, 0, SCALE_ONE, SCALE_ONE));
}

#[test]
fn other_buttons_change_nothing() {
    for button in [MouseButton::Right, MouseButton::Middle, MouseButton::Other] {
        let mut manager = InputManager::default();
        let mut cam = camera(0, 0, SCALE_ONE, SCALE_ONE);
        GodCameraSystem::handle(&InputEvent::MouseButtonPressed(button), &mut manager, &mut cam);
        assert_eq!(manager, InputManager::default());
        let mut manager = InputManager { left_click_pressed: true, left_click_down: true };
        GodCameraSystem::handle(&InputEvent::MouseButtonReleased(button), &mut manager, &mut cam);
        assert_eq!(manager, InputManager { left_click_pressed: true, left_click_down: true });
    }
}

#[test]
fn dragging_pans_against_x_and_along_y() {
    let mut manager = InputManager { left_click_pressed: false, left_click_down: true };
    let mut cam = camera(100, 100, SCALE_ONE, SCALE_ONE);
    let moved = InputEvent::MouseMoved { delta_x: 30, delta_y: 7 };
    GodCameraSystem::handle(&moved, &mut manager, &mut cam);
    assert_eq!(cam.position, Point2::new(70, 107));
    let far = InputEvent::MouseMoved { delta_x: 2 * COORD_MAX, delta_y: -2 * COORD_MAX };
    GodCameraSystem::handle(&far, &mut manager, &mut cam);
    assert_eq!(cam.position, Point2::new(70 - 2 * COORD_MAX, 107 - 2 * COORD_MAX));
    let mut cam = camera(-1, 0, SCALE_ONE, SCALE_ONE);
    let farthest = InputEvent::MouseMoved { delta_x: i64::MIN, delta_y: 0 };
    assert!(GodCameraSystem::can_handle(&farthest, &manager, &cam));
    GodCameraSystem::handle(&farthest, &mut manager, &mut cam);
    assert_eq!(cam.position, Point2::new(i64::MAX, 0));
}

#[test]
fn moving_without_the_button_does_not_pan() {
    let mut manager = InputManager::default();
    let mut cam = camera(100, 100, SCALE_ONE, SCALE_ONE);
    GodCameraSystem::handle(&InputEvent::MouseMoved { delta_x: 30, delta_y: 7 }, &mut manager, &mut cam);
    assert_eq!(cam.position, Point2::new(100, 100));
}

#[test]
fn wheel_up_zooms_in_and_wheel_down_zooms_out() {
    let mut manager = InputManager::default();
    let mut cam = camera(0, 0, SCALE_ONE, SCALE_ONE);
    GodCameraSystem::handle(&InputEvent::MouseWheelMoved(ScrollDirection::ScrollUp), &mut manager, &mut cam);
    assert_eq!(cam.scale, Vector2::new(900, 900));
    GodCameraSystem::handle(&InputEvent::MouseWheelMoved(ScrollDirection::ScrollDown), &mut manager, &mut cam);
    GodCameraSystem::handle(&InputEvent::MouseWheelMoved(ScrollDirection::ScrollDown), &mut manager, &mut cam);
    assert_eq!(cam.scale, Vector2::new(1_100, 1_100));
    GodCameraSystem::handle(&InputEvent::MouseWheelMoved(ScrollDirection::ScrollLeft), &mut manager, &mut cam);
    GodCameraSystem::handle(&InputEvent::MouseWheelMoved(ScrollDirection::ScrollRight), &mut manager, &mut cam);
    GodCameraSystem::handle(&InputEvent::Other, &mut manager, &mut cam);
    assert_eq!(cam.scale, Vector2::new(1_100, 1_100));
}

#[test]
fn wheel_up_stops_at_the_floor() {
    let mut manager = InputManager::default();
    let mut cam = camera(0, 0, 250, 150);
    let events = vec![InputEvent::MouseWheelMoved(ScrollDirection::ScrollUp); 20];
    GodCameraSystem {}.run(&events, &mut manager, &mut cam);
    assert_eq!(cam.scale, Vector2::new(ZOOM_FLOOR, ZOOM_FLOOR));
}

#[test]
fn a_frame_of_events_is_answered_in_order() {
    let mut manager = InputManager::default();
    let mut cam = camera(0, 0, SCALE_ONE, SCALE_ONE);
    let events = vec![
        InputEvent::MouseMoved { delta_x: 1000, delta_y: 1000 },
        InputEvent::MouseButtonPressed(MouseButton::Left),
        InputEvent::MouseMoved { delta_x: 3 * PIXEL, delta_y: 4 * PIXEL },
        InputEvent::MouseWheelMoved(ScrollDirection::ScrollDown),
        InputEvent::MouseMoved { delta_x: 1, delta_y: 1 },
        InputEvent::MouseButtonReleased(MouseButton::Left),
        InputEvent::MouseMoved { delta_x: 1000, delta_y: 1000 },
    ];
    GodCameraSystem {}.run(&events, &mut manager, &mut cam);
    assert_eq!(cam, camera(-3 * PIXEL - 1, 4 * PIXEL + 1, 1_100, 1_100));
    assert_eq!(manager, InputManager { left_click_pressed: false, left_click_down: false });
}

#[test]
fn a_frame_ends_with_the_press_forgotten_and_the_button_still_down() {
    let mut manager = InputManager::default();
    let mut cam = camera(0, 0, SCALE_ONE, SCALE_ONE);
    let events = vec![InputEvent::MouseButtonPressed(MouseButton::Left)];
    GodCameraSystem {}.run(&events, &mut manager, &mut cam);
    assert_eq!(manager, InputManager { left_click_pressed: false, left_click_down: true });
    GodCameraSystem {}.run(&Vec::new(), &mut manager, &mut cam);
    assert_eq!(manager, InputManager { left_click_pressed: false, left_click_down: true });
}

#[test]
fn transform_in_range_has_a_near_position_and_scales_above_zero() {
    assert!(camera(0, 0, 1, 1).is_in_range());
    assert!(camera(COORD_MAX, -COORD_MAX, SCALE_MAX, SCALE_MAX).is_in_range());
    assert!(!camera(COORD_MAX + 1, 0, SCALE_ONE, SCALE_ONE).is_in_range());
    assert!(!camera(0, -COORD_MAX - 1, SCALE_ONE, SCALE_ONE).is_in_range());
    assert!(!camera(0, 0, 0, SCALE_ONE).is_in_range());
    assert!(!camera(0, 0, SCALE_ONE, -1).is_in_range());
    assert!(!camera(0, 0, SCALE_MAX + 1, SCALE_ONE).is_in_range());
    assert!(Point2::new(COORD_MAX, 0).is_in_range());
    assert!(!Point2::new(0, COORD_MAX + 1).is_in_range());
}

#[test]
fn zooming_keeps_the_scale_at_or_above_the_floor() {
    let mut cam = camera(0, 0, SCALE_ONE, SCALE_ONE);
    for (dx, dy, dz) in [(5, -5, i64::MIN), (-5, 5, 1_000_000_000), (COORD_MAX, 0, -1)] {
        cam.pan(dx, dy);
        cam.zoom(dz);
        assert!(cam.scale.x >= ZOOM_FLOOR && cam.scale.y >= ZOOM_FLOOR);
    }
    assert_eq!(cam, camera(COORD_MAX, 0, 1_000_000_099, 1_000_000_099));
}

#[test]
fn wheel_down_adds_a_tenth_at_every_scale() {
    let mut manager = InputManager::default();
    for scale in [ZOOM_FLOOR, SCALE_ONE, SCALE_MAX, 5 * SCALE_MAX, i64::MAX - 100] {
        let mut cam = camera(0, 0, scale, scale);
        let down = InputEvent::MouseWheelMoved(ScrollDirection::ScrollDown);
        assert!(GodCameraSystem::can_handle(&down, &manager, &cam));
        GodCameraSystem::handle(&down, &mut manager, &mut cam);
        assert_eq!(cam.scale, Vector2::new(scale + 100, scale + 100));
    }
}

#[test]
fn wheel_up_takes_a_tenth_down_to_the_floor() {
    let mut manager = InputManager::default();
    for (scale, after) in [(100, 100), (150, 100), (200, 100), (201, 101), (1_000_100, 1_000_000)] {
        let mut cam = camera(0, 0, scale, 2 * scale);
        let up = InputEvent::MouseWheelMoved(ScrollDirection::ScrollUp);
        GodCameraSystem::handle(&up, &mut manager, &mut cam);
        assert_eq!(cam.scale.x, after);
        assert_eq!(cam.scale.y, (2 * scale - 100).max(100));
    }
}

#[test]
fn events_that_cannot_be_held_are_told_beforehand() {
    let up = InputManager::default();
    let down = InputManager { left_click_pressed: false, left_click_down: true };
    let cam = camera(i64::MAX, i64::MIN, i64::MAX - 50, SCALE_ONE);
    let left = InputEvent::MouseMoved { delta_x: -1, delta_y: 0 };
    let below = InputEvent::MouseMoved { delta_x: 0, delta_y: -1 };
    let right = InputEvent::MouseMoved { delta_x: 1, delta_y: 1 };
    let wheel_down = InputEvent::MouseWheelMoved(ScrollDirection::ScrollDown);
    let wheel_up = InputEvent::MouseWheelMoved(ScrollDirection::ScrollUp);
    assert!(!GodCameraSystem::can_handle(&left, &down, &cam));
    assert!(!GodCameraSystem::can_handle(&below, &down, &cam));
    assert!(GodCameraSystem::can_handle(&right, &down, &cam));
    assert!(GodCameraSystem::can_handle(&left, &up, &cam));
    assert!(!GodCameraSystem::can_handle(&wheel_down, &up, &cam));
    assert!(GodCameraSystem::can_handle(&wheel_up, &up, &cam));
    assert!(GodCameraSystem::can_handle(&InputEvent::Other, &down, &cam));
    let press = InputEvent::MouseButtonPressed(MouseButton::Left);
    let release = InputEvent::MouseButtonReleased(MouseButton::Left);
    assert!(GodCameraSystem::can_run(&vec![left, press, right, release, left], &up, &cam));
    assert!(!GodCameraSystem::can_run(&vec![press, left], &up, &cam));
    assert!(GodCameraSystem::can_run(&vec![wheel_up, wheel_down], &up, &cam));
    assert!(!GodCameraSystem::can_run(&vec![wheel_up, wheel_down, wheel_down], &up, &cam));
    assert!(GodCameraSystem::can_run(&Vec::new(), &down, &cam));
}
