use fool_engine::input::{
    ime_summary, Key,
    mouse_button_from_name, ElementState, EventState, Ime, InputState, KeyRepr, MouseButton,
    SimpleInput, WindowInput,
};

fn key(k: u32, state: ElementState) -> WindowInput {
    WindowInput::KeyboardInput { key: Some(k), state }
}

#[test]
fn key_press_and_hold() {
    let mut s = EventState::default();
    assert!(!s.handle_event(key(65, ElementState::Pressed)));
    assert!(s.key_pressed(65));
    assert!(s.key_held(65));
    assert!(!s.key_released(65));
}

#[test]
fn repeated_press_of_held_key_is_ignored() {
    let mut s = EventState::default();
    s.handle_event(key(65, ElementState::Pressed));
    s.begin_frame();
    assert!(!s.key_pressed(65));
    s.handle_event(key(65, ElementState::Pressed));
    assert!(!s.key_pressed(65));
    assert!(s.key_held(65));
}

#[test]
fn press_then_release_in_one_frame() {
    let mut s = EventState::default();
    s.handle_event(key(7, ElementState::Pressed));
    s.handle_event(key(7, ElementState::Released));
    assert!(s.key_pressed(7));
    assert!(s.key_released(7));
    assert!(!s.key_held(7));
}

#[test]
fn release_of_unheld_key_is_ignored() {
    let mut s = EventState::default();
    s.handle_event(key(9, ElementState::Released));
    assert!(!s.key_released(9));
    assert!(!s.key_held(9));
}

#[test]
fn key_without_code_is_ignored() {
    let mut s = EventState::default();
    s.handle_event(WindowInput::KeyboardInput { key: None, state: ElementState::Pressed });
    assert!(s.keys_held.is_empty());
}

#[test]
fn new_frame_keeps_held_keys() {
    let mut s = EventState::default();
    s.handle_event(key(1, ElementState::Pressed));
    s.handle_event(WindowInput::ReceivedCharacter('x'));
    s.begin_frame();
    assert!(s.key_held(1));
    assert!(!s.key_pressed(1));
    assert_eq!(s.char, None);
}

#[test]
fn mouse_buttons() {
    let mut s = EventState::default();
    s.handle_event(WindowInput::MouseInput { button: MouseButton::Left, state: ElementState::Pressed });
    assert!(s.mouse_pressed(MouseButton::Left));
    assert!(!s.mouse_pressed(MouseButton::Right));
    s.handle_event(WindowInput::MouseInput { button: MouseButton::Left, state: ElementState::Released });
    assert!(!s.mouse_pressed(MouseButton::Left));
    assert!(s.mouse_released(MouseButton::Left));
    s.begin_frame();
    assert!(!s.mouse_released(MouseButton::Left));
}

#[test]
fn mouse_button_codes_are_distinct() {
    assert_eq!(MouseButton::Left.code(), 0);
    assert_eq!(MouseButton::Right.code(), 1);
    assert_eq!(MouseButton::Middle.code(), 2);
    assert_eq!(MouseButton::Other(0).code(), 3);
    assert_eq!(MouseButton::Other(7).code(), 10);
}

#[test]
fn window_state_events() {
    let mut s = EventState::default();
    s.handle_event(WindowInput::CursorEntered);
    assert!(s.mouse_entered);
    s.handle_event(WindowInput::CursorLeft);
    assert!(!s.mouse_entered);
    s.handle_event(WindowInput::Focused(true));
    assert!(s.focused);
    s.handle_event(WindowInput::Ime(Ime::Commit("ok".to_string())));
    assert_eq!(s.ime, Ime::Commit("ok".to_string()));
}

#[test]
fn close_request_asks_for_exit_and_stays() {
    let mut s = EventState::default();
    assert!(s.handle_event(WindowInput::CloseRequested));
    assert!(s.is_exit);
    s.handle_event(WindowInput::Other);
    s.begin_frame();
    assert!(s.is_exit);
    let mut t = EventState::default();
    t.request_exit();
    assert!(t.is_exit);
}

#[test]
fn simple_input_records_everything() {
    let mut s = InputState::default();
    s.handle_event(SimpleInput::KeyPressed(3));
    s.handle_event(SimpleInput::KeyPressed(3));
    s.handle_event(SimpleInput::KeyReleased(3));
    assert!(s.key_pressed(3));
    assert!(s.key_released(3));
    s.handle_event(SimpleInput::MousePressed(MouseButton::Middle));
    assert!(s.mouse_pressed(MouseButton::Middle));
    s.handle_event(SimpleInput::MouseReleased(MouseButton::Middle));
    assert!(s.mouse_released(MouseButton::Middle));
    assert!(s.mouse_pressed(MouseButton::Middle));
    s.handle_event(SimpleInput::Focused);
    s.handle_event(SimpleInput::MouseEntered);
    s.begin_frame();
    assert!(!s.key_pressed(3));
    assert!(!s.mouse_pressed(MouseButton::Middle));
    assert!(s.focused);
    assert!(s.mouse_entered);
    s.handle_event(SimpleInput::Unfocused);
    s.handle_event(SimpleInput::MouseExited);
    assert!(!s.focused);
    assert!(!s.mouse_entered);
}

#[test]
fn button_names() {
    assert_eq!(mouse_button_from_name("left"), Some(MouseButton::Left));
    assert_eq!(mouse_button_from_name("RIGHT"), Some(MouseButton::Right));
    assert_eq!(mouse_button_from_name("Middle"), Some(MouseButton::Middle));
    assert_eq!(mouse_button_from_name("back"), None);
    assert_eq!(mouse_button_from_name("lef"), None);
}

#[test]
fn key_repr_fields() {
    let n = KeyRepr::Named("Enter".to_string());
    assert_eq!(n.kind(), "mamed");
    assert_eq!(n.value(), "Enter");
    let c = KeyRepr::Character("a".to_string());
    assert_eq!(c.kind(), "character");
    assert_eq!(c.value(), "a");
}

#[test]
fn ime_summary_of_a_frame() {
    use_ime_summary();
}

fn use_ime_summary() {
    let events = vec![
        Ime::Enabled,
        Ime::Preedit("ni".to_string(), Some((0, 2))),
        Ime::Commit("你".to_string()),
        Ime::Preedit("".to_string(), None),
        Ime::Commit("好".to_string()),
        Ime::Disabled,
    ];
    let (commit, preedit, enable) = ime_summary(&events);
    assert_eq!(commit, "你好");
    assert_eq!(preedit, Some(("ni".to_string(), Some((0, 2)))));
    assert_eq!(enable, Some(false));
    let (c, p, e) = ime_summary(&[]);
    assert_eq!(c, "");
    assert_eq!(p, None);
    assert_eq!(e, None);
}

#[test]
fn keys_as_scripts_see_them() {
    let keys = vec![
        Key::Named("Enter".to_string()),
        Key::Unidentified,
        Key::Character("a".to_string()),
    ];
    let r = KeyRepr::from_keys(&keys);
    assert_eq!(r, vec![KeyRepr::Named("Enter".to_string()), KeyRepr::Character("a".to_string())]);
}
