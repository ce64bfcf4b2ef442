use knoten_core::keys::{key_to_name, name_to_key, ui_get_key_pressed, ui_is_key_down, KeyCode};

#[test]
fn names_map_to_keys() {
    assert_eq!(name_to_key("0"), Some(KeyCode::Key0));
    assert_eq!(name_to_key("Plus"), Some(KeyCode::Equal));
    assert_eq!(name_to_key("Asterisk"), Some(KeyCode::Key8));
    assert_eq!(name_to_key("Escape"), Some(KeyCode::Escape));
    assert_eq!(name_to_key("Nope"), None);
}

#[test]
fn keys_map_to_names() {
    assert_eq!(key_to_name(KeyCode::NumPad7), "7");
    assert_eq!(key_to_name(KeyCode::NumPadAsterisk), "Asterisk");
    assert_eq!(key_to_name(KeyCode::NumPadDot), "Period");
    assert_eq!(key_to_name(KeyCode::Other), "");
}

#[test]
fn key_down_checks_the_held_keys() {
    let down = vec![KeyCode::C, KeyCode::Key8];
    assert!(ui_is_key_down("C", &down));
    assert!(ui_is_key_down("Asterisk", &down));
    assert!(!ui_is_key_down("Enter", &down));
    assert!(!ui_is_key_down("Unknown", &down));
}

#[test]
fn first_pressed_key_is_reported() {
    assert_eq!(ui_get_key_pressed(&vec![KeyCode::NumPadEnter, KeyCode::C]), "Enter");
    assert_eq!(ui_get_key_pressed(&vec![]), "");
}
