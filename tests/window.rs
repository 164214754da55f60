use engine_core::state::State;
use engine_core::types::{CVarValue, Message};
use engine_core::window::{key_message, record_window_size, resize_message, KeyAction, WindowSize};

#[test]
fn key_actions_map_to_messages() {
    assert_eq!(key_message(65, 38, KeyAction::Press), Some(Message::KeyPressed(65, 38)));
    assert_eq!(key_message(65, 38, KeyAction::Release), Some(Message::KeyReleased(65, 38)));
    assert_eq!(key_message(65, 38, KeyAction::Repeat), None);
    assert_eq!(key_message(-1, 0, KeyAction::Press), Some(Message::KeyPressed(u32::MAX, 0)));
}

#[test]
fn resize_message_carries_size() {
    assert_eq!(resize_message(1024, 768), Message::WindowResized(1024, 768));
    assert_eq!(resize_message(-2, 0), Message::WindowResized(u32::MAX - 1, 0));
}

#[test]
fn window_size_follows_resize_only() {
    let mut size = WindowSize { width: 800, height: 600 };
    size.on_event(&Message::MouseMoved(5, 5));
    assert_eq!(size, WindowSize { width: 800, height: 600 });
    size.on_event(&Message::WindowResized(1024, 768));
    assert_eq!(size, WindowSize { width: 1024, height: 768 });
}

#[test]
fn record_window_size_skips_unregistered_names() {
    let mut state = State::new();
    state.register("window_width", CVarValue::Int(800));
    record_window_size(&mut state, &Message::WindowResized(640, 480));
    assert_eq!(state.get("window_width"), &CVarValue::Int(640));
    assert!(!state.contains("window_height"));
    record_window_size(&mut state, &Message::KeyPressed(1, 1));
    assert_eq!(state.get("window_width"), &CVarValue::Int(640));
}
