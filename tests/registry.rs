use engine_core::state::State;
use engine_core::types::CVarValue;

#[test]
fn register_then_get_then_set() {
    let mut state = State::new();
    state.register("x", CVarValue::Int(1));
    assert_eq!(state.get("x"), &CVarValue::Int(1));
    state.set("x", CVarValue::Int(2));
    assert_eq!(state.get("x"), &CVarValue::Int(2));
}

#[test]
fn set_unregistered_is_ignored() {
    let mut state = State::new();
    state.register("x", CVarValue::Int(1));
    state.set("unregistered", CVarValue::Int(1));
    assert!(!state.contains("unregistered"));
    assert!(state.contains("x"));
    assert_eq!(state.get("x"), &CVarValue::Int(1));
}

#[test]
fn register_existing_name_overwrites() {
    let mut state = State::new();
    state.register("window_title", CVarValue::Str("first".to_string()));
    state.register("window_title", CVarValue::Str("second".to_string()));
    assert_eq!(state.get("window_title").as_str(), "second");
}

#[test]
fn distinct_names_are_kept_apart() {
    let mut state = State::new();
    state.register("window_width", CVarValue::Int(800));
    state.register("window_height", CVarValue::Int(600));
    state.set("window_width", CVarValue::Int(1024));
    assert_eq!(state.get("window_width").as_int(), 1024);
    assert_eq!(state.get("window_height").as_int(), 600);
}

#[test]
fn typed_accessors_return_held_value() {
    assert_eq!(CVarValue::Int(-7).as_int(), -7);
    assert_eq!(CVarValue::Float(1.5f32.to_bits()).as_float(), 1.5f32.to_bits());
    assert_eq!(f32::from_bits(CVarValue::Float(0.25f32.to_bits()).as_float()), 0.25f32);
    assert_eq!(CVarValue::Str("title".to_string()).as_str(), "title");
}

#[test]
fn empty_registry_contains_nothing() {
    let state = State::new();
    assert!(!state.contains("x"));
    assert!(!state.contains(""));
}
