use engine_core::fx::FX_ONE;
use engine_core::input::{InputManager, KeyState};

#[test]
fn key_press_sets_state_and_edge() {
    let mut input = InputManager::new();
    assert_eq!(input.get_key_state(10), KeyState::Released);
    assert!(!input.is_key_pressed(10));
    input.process_key_event(10, true);
    assert!(input.is_key_pressed(10));
    // a fresh press is not an edge: nothing was recorded released before
    assert!(!input.is_key_down(10));
    input.process_key_event(10, false);
    assert!(input.is_key_released(10));
    input.process_key_event(10, true);
    // released-then-pressed is the pressed edge
    assert!(input.is_key_down(10));
}

#[test]
fn next_frame_clears_edges_and_delta() {
    let mut input = InputManager::new();
    input.process_key_event(7, false);
    assert!(input.is_key_released(7));
    input.process_cursor_moved(FX_ONE, FX_ONE, 800 * FX_ONE, 600 * FX_ONE);
    assert_ne!(input.get_mouse_delta().x, 0);
    input.next_frame();
    assert!(!input.is_key_released(7));
    assert!(input.is_key_up(7));
    assert_eq!(input.get_mouse_delta().x, 0);
    assert_eq!(input.get_mouse_delta().y, 0);
}

#[test]
fn buttons_mirror_key_logic() {
    let mut input = InputManager::new();
    input.process_button_event(1, true);
    assert!(input.is_button_pressed(1));
    assert!(!input.is_button_down(1));
    input.process_button_event(1, false);
    assert!(input.is_button_released(1));
    assert_eq!(input.get_button_state(2), KeyState::Released);
}

#[test]
fn confined_cursor_recentres() {
    let mut input = InputManager::new();
    assert_eq!(input.take_pending_mouse_mode(), Some(true));
    assert_eq!(input.take_pending_mouse_mode(), Some(false));
    assert_eq!(input.take_pending_mouse_mode(), None);
    input.set_confined(true);
    let action = input.process_cursor_moved(
        100 * FX_ONE,
        100 * FX_ONE,
        800 * FX_ONE,
        600 * FX_ONE,
    );
    // the caller is told to move the real cursor back to the centre
    assert_eq!(action.map(|c| (c.x, c.y)), Some((400 * FX_ONE, 300 * FX_ONE)));
    assert_eq!(input.get_mouse_pos().x, 400 * FX_ONE);
    // reporting the centre itself asks for nothing
    let again = input.process_cursor_moved(
        400 * FX_ONE,
        300 * FX_ONE,
        800 * FX_ONE,
        600 * FX_ONE,
    );
    assert!(again.is_none());
}

#[test]
fn scroll_accumulates() {
    let mut input = InputManager::new();
    input.process_scroll(FX_ONE);
    input.process_scroll(2 * FX_ONE);
    assert_eq!(input.mouse_wheel_delta, 3 * FX_ONE);
}
