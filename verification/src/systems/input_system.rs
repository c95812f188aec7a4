//! The camera that the mouse moves: dragging with the left button pans it,
//! the wheel zooms it.

use vstd::prelude::*;
use crate::components::{Transform, ZOOM_FLOOR};

verus! {

/// What one notch of the wheel adds to the camera's scale or takes from it:
/// a tenth.
pub const ZOOM_STEP: i64 = 100;

/// A button of the mouse.
#[derive(Clone, Copy, Debug, PartialEq, Eq, Structural)]
pub enum MouseButton {
    Left,
    Right,
    Middle,
    Other,
}

/// The way the wheel was turned.
#[derive(Clone, Copy, Debug, PartialEq, Eq, Structural)]
pub enum ScrollDirection {
    ScrollUp,
    ScrollDown,
    ScrollLeft,
    ScrollRight,
}

/// What the mouse did. `Other` stands for every event that the camera does
/// not answer.
#[derive(Clone, Copy, Debug, PartialEq, Eq, Structural)]
pub enum InputEvent {
    MouseButtonPressed(MouseButton),
    MouseButtonReleased(MouseButton),
    MouseMoved { delta_x: i64, delta_y: i64 },
    MouseWheelMoved(ScrollDirection),
    Other,
}

/// What is remembered of the left button: whether it was pressed in this
/// frame, and whether it is held down.
#[derive(Clone, Copy, Debug, PartialEq, Eq, Structural)]
pub struct InputManager {
    pub left_click_pressed: bool,
    pub left_click_down: bool,
}

impl Default for InputManager {
    fn default() -> (out: InputManager)
        ensures
            out == (InputManager { left_click_pressed: false, left_click_down: false }),
    {
        InputManager { left_click_pressed: false, left_click_down: false }
    }
}

impl InputManager {
    /// Forgets that the button was pressed in this frame.
    pub fn frame_reset(&mut self)
        ensures
            *final(self) == (InputManager {
                left_click_pressed: false,
                left_click_down: old(self).left_click_down,
            }),
    {
        self.left_click_pressed = false;
    }
}

/// The input manager and the camera's transform after `event`.
///
/// Pressing the left button sets both flags and releasing it clears
/// `left_click_down`. While the left button is down, moving the mouse by
/// `(delta_x, delta_y)` pans the camera by `(-delta_x, delta_y)`. Turning the
/// wheel up takes `ZOOM_STEP` from the scale and turning it down adds as
/// much. Nothing else changes anything.
pub open spec fn after_event(
    input_manager: InputManager,
    transform: Transform,
    event: InputEvent,
) -> (InputManager, Transform) {
    match event {
        InputEvent::MouseButtonPressed(MouseButton::Left) => (
            InputManager { left_click_pressed: true, left_click_down: true },
            transform,
        ),
        InputEvent::MouseButtonReleased(MouseButton::Left) => (
            InputManager {
                left_click_pressed: input_manager.left_click_pressed,
                left_click_down: false,
            },
            transform,
        ),
        InputEvent::MouseMoved { delta_x, delta_y } => if input_manager.left_click_down {
            (input_manager, transform.panned(-delta_x, delta_y as int))
        } else {
            (input_manager, transform)
        },
        InputEvent::MouseWheelMoved(ScrollDirection::ScrollUp) => (
            input_manager,
            transform.zoomed(-ZOOM_STEP),
        ),
        InputEvent::MouseWheelMoved(ScrollDirection::ScrollDown) => (
            input_manager,
            transform.zoomed(ZOOM_STEP as int),
        ),
        _ => (input_manager, transform),
    }
}

/// The input manager and the camera's transform after `events`, one after
/// the other.
pub open spec fn after_events(
    input_manager: InputManager,
    transform: Transform,
    events: Seq<InputEvent>,
) -> (InputManager, Transform)
    decreases events.len(),
{
    if events.len() == 0 {
        (input_manager, transform)
    } else {
        let before = after_events(input_manager, transform, events.drop_last());
        after_event(before.0, before.1, events.last())
    }
}

/// Whether `event` leaves the camera with a position that can be held: a
/// drag must not carry it beyond what an `i64` holds, and the wheel must not
/// raise its scale beyond that.
pub open spec fn event_fits(
    input_manager: InputManager,
    transform: Transform,
    event: InputEvent,
) -> bool {
    match event {
        InputEvent::MouseMoved { delta_x, delta_y } => input_manager.left_click_down
            ==> transform.pan_fits(-delta_x, delta_y as int),
        InputEvent::MouseWheelMoved(ScrollDirection::ScrollDown) => transform.zoom_fits(
            ZOOM_STEP as int,
        ),
        _ => true,
    }
}

/// Whether every one of `events`, answered one after the other, leaves the
/// camera with a position and a scale that can be held.
pub open spec fn events_fit(
    input_manager: InputManager,
    transform: Transform,
    events: Seq<InputEvent>,
) -> bool {
    forall|i: int|
        0 <= i < events.len() ==> {
            let before = after_events(input_manager, transform, events.subrange(0, i));
            event_fits(before.0, before.1, #[trigger] events[i])
        }
}

/// Whatever the mouse does, the scale of a camera that was at or above
/// `ZOOM_FLOOR` stays there, and so above zero.
pub proof fn lemma_events_keep_floor(
    input_manager: InputManager,
    transform: Transform,
    events: Seq<InputEvent>,
)
    requires
        events_fit(input_manager, transform, events),
        transform.scale.x >= ZOOM_FLOOR,
        transform.scale.y >= ZOOM_FLOOR,
    ensures
        after_events(input_manager, transform, events).1.scale.x >= ZOOM_FLOOR,
        after_events(input_manager, transform, events).1.scale.y >= ZOOM_FLOOR,
    decreases events.len(),
{
    if events.len() > 0 {
        let front = events.drop_last();
        assert forall|i: int| 0 <= i < front.len() implies {
            let before = after_events(input_manager, transform, front.subrange(0, i));
            event_fits(before.0, before.1, #[trigger] front[i])
        } by {
            assert(front.subrange(0, i) == events.subrange(0, i));
            assert(front[i] == events[i]);
        }
        lemma_events_keep_floor(input_manager, transform, front);
        assert(events.subrange(0, events.len() - 1) == front);
        assert(events[events.len() - 1] == events.last());
    }
}

/// Lets the mouse move the camera.
pub struct GodCameraSystem {}

impl GodCameraSystem {
    /// Whether `event` can be answered: what `handle` asks for.
    pub fn can_handle(event: &InputEvent, input_manager: &InputManager, transform: &Transform) -> (out:
        bool)
        ensures
            out == event_fits(*input_manager, *transform, *event),
    {
        match *event {
            InputEvent::MouseMoved { delta_x, delta_y } => {
                if input_manager.left_click_down {
                    transform.can_pan_wide(-(delta_x as i128), delta_y as i128)
                } else {
                    true
                }
            },
            InputEvent::MouseWheelMoved(scroll_dir) => {
                if let ScrollDirection::ScrollDown = scroll_dir {
                    transform.can_zoom(ZOOM_STEP)
                } else {
                    true
                }
            },
            _ => true,
        }
    }

    /// Whether the events of one frame can be answered: what `run` asks for.
    pub fn can_run(events: &Vec<InputEvent>, input_manager: &InputManager, transform: &Transform) -> (out:
        bool)
        ensures
            out == events_fit(*input_manager, *transform, events@),
    {
        let mut manager: InputManager = *input_manager;
        let mut camera: Transform = *transform;
        let mut i: usize = 0;
        while i < events.len()
            invariant
                i <= events.len(),
                (manager, camera) == after_events(
                    *input_manager,
                    *transform,
                    events@.subrange(0, i as int),
                ),
                forall|j: int|
                    0 <= j < i ==> {
                        let before = after_events(
                            *input_manager,
                            *transform,
                            events@.subrange(0, j),
                        );
                        event_fits(before.0, before.1, #[trigger] events@[j])
                    },
            decreases events.len() - i,
        {
            if !GodCameraSystem::can_handle(&events[i], &manager, &camera) {
                return false;
            }
            proof {
                let done = events@.subrange(0, i + 1);
                assert(done.drop_last() == events@.subrange(0, i as int));
                assert(done.last() == events@[i as int]);
            }
            GodCameraSystem::handle(&events[i], &mut manager, &mut camera);
            i = i + 1;
        }
        true
    }

    /// Answers one event.
    pub fn handle(event: &InputEvent, input_manager: &mut InputManager, transform: &mut Transform)
        requires
            event_fits(*old(input_manager), *old(transform), *event),
        ensures
            (*final(input_manager), *final(transform)) == after_event(
                *old(input_manager),
                *old(transform),
                *event,
            ),
            old(transform).scale.x >= ZOOM_FLOOR ==> final(transform).scale.x >= ZOOM_FLOOR,
            old(transform).scale.y >= ZOOM_FLOOR ==> final(transform).scale.y >= ZOOM_FLOOR,
    {
        match *event {
            InputEvent::MouseButtonPressed(mouse_button) => {
                if let MouseButton::Left = mouse_button {
                    input_manager.left_click_down = true;
                    input_manager.left_click_pressed = true;
                }
            },
            InputEvent::MouseButtonReleased(mouse_button) => {
                if let MouseButton::Left = mouse_button {
                    input_manager.left_click_down = false;
                }
            },
            InputEvent::MouseMoved { delta_x, delta_y } => {
                if input_manager.left_click_down {
                    transform.pan_wide(-(delta_x as i128), delta_y as i128);
                }
            },
            InputEvent::MouseWheelMoved(scroll_dir) => {
                if let ScrollDirection::ScrollUp = scroll_dir {
                    transform.zoom(-ZOOM_STEP);
                } else if let ScrollDirection::ScrollDown = scroll_dir {
                    transform.zoom(ZOOM_STEP);
                }
            },
            _ => {},
        }
    }

    /// Answers the events of one frame, one after the other, and then
    /// forgets that the button was pressed in this frame.
    pub fn run(
        &mut self,
        events: &Vec<InputEvent>,
        input_manager: &mut InputManager,
        transform: &mut Transform,
    )
        requires
            events_fit(*old(input_manager), *old(transform), events@),
        ensures
            *final(transform) == after_events(*old(input_manager), *old(transform), events@).1,
            *final(input_manager) == (InputManager {
                left_click_pressed: false,
                left_click_down: after_events(
                    *old(input_manager),
                    *old(transform),
                    events@,
                ).0.left_click_down,
            }),
            old(transform).scale.x >= ZOOM_FLOOR && old(transform).scale.y >= ZOOM_FLOOR ==> {
                &&& final(transform).scale.x >= ZOOM_FLOOR
                &&& final(transform).scale.y >= ZOOM_FLOOR
            },
    {
        proof {
            if old(transform).scale.x >= ZOOM_FLOOR && old(transform).scale.y >= ZOOM_FLOOR {
                lemma_events_keep_floor(*old(input_manager), *old(transform), events@);
            }
        }
        let mut i: usize = 0;
        while i < events.len()
            invariant
                i <= events.len(),
                events_fit(*old(input_manager), *old(transform), events@),
                (*input_manager, *transform) == after_events(
                    *old(input_manager),
                    *old(transform),
                    events@.subrange(0, i as int),
                ),
            decreases events.len() - i,
        {
            proof {
                let done = events@.subrange(0, i + 1);
                assert(done.drop_last() == events@.subrange(0, i as int));
                assert(done.last() == events@[i as int]);
            }
            GodCameraSystem::handle(&events[i], input_manager, transform);
            i = i + 1;
        }
        proof {
            assert(events@.subrange(0, i as int) == events@);
        }
        input_manager.frame_reset();
    }
}

} // verus!
