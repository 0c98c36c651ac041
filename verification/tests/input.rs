use gigantomachia::input::Input;

const SPACE: u32 = 32;
const KEY_W: u32 = 87;
const RIGHT_BUTTON: u32 = 1;

#[test]
fn quick_taps_survive_until_update_and_repeats_do_not_retrigger() {
    let mut input = Input::default();
    input.key(SPACE, true);
    input.key(SPACE, false);
    assert!(input.pressed(SPACE));
    assert!(!input.held(SPACE));
    input.end_frame();
    assert!(!input.pressed(SPACE));
    input.key(KEY_W, true);
    input.end_frame();
    input.key(KEY_W, true);
    assert!(input.held(KEY_W));
    assert!(!input.pressed(KEY_W));
    input.clear();
    assert!(!input.held(KEY_W));
}

#[test]
fn mouse_buttons_are_held_until_release_or_cursor_leaves() {
    let mut input = Input::default();
    input.mouse_button(RIGHT_BUTTON, true);
    assert!(input.mouse_held(RIGHT_BUTTON));
    input.end_frame();
    assert!(input.mouse_held(RIGHT_BUTTON));
    input.mouse_button(RIGHT_BUTTON, false);
    assert!(!input.mouse_held(RIGHT_BUTTON));
    input.mouse_button(RIGHT_BUTTON, true);
    input.key(KEY_W, true);
    input.cursor_left();
    assert!(!input.mouse_held(RIGHT_BUTTON));
    assert!(input.held(KEY_W));
    assert!(input.pressed(KEY_W));
}

#[test]
fn clearing_forgets_keys_presses_and_buttons() {
    let mut input = Input::default();
    input.key(SPACE, true);
    input.mouse_button(RIGHT_BUTTON, true);
    input.clear();
    assert!(!input.held(SPACE));
    assert!(!input.pressed(SPACE));
    assert!(!input.mouse_held(RIGHT_BUTTON));
    input.key(SPACE, true);
    assert!(input.pressed(SPACE), "a key held before clearing presses again");
}
