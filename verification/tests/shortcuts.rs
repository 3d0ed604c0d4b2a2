use spe::shortcuts::{arrow_key_result, key_to_message, Key, Modifiers, NamedKey, Shortcut};

/// The command modifier alone.
fn command() -> Modifiers {
    Modifiers {
        control: true,
        ..Modifiers::empty()
    }
}

/// The command and shift modifiers.
fn command_shift() -> Modifiers {
    Modifiers {
        control: true,
        shift: true,
        ..Modifiers::empty()
    }
}

fn alt() -> Modifiers {
    Modifiers {
        alt: true,
        ..Modifiers::empty()
    }
}

fn character(c: &str) -> Key {
    Key::Character(c.to_string())
}

#[test]
fn tests_ctrl_o_maps_to_open() {
    let msg = key_to_message(&character("o"), command());
    assert!(matches!(msg, Some(Shortcut::OpenFile)));
}

#[test]
fn tests_ctrl_s_maps_to_save() {
    let msg = key_to_message(&character("s"), command());
    assert!(matches!(msg, Some(Shortcut::Save)));
}

#[test]
fn tests_ctrl_shift_s_maps_to_save_as() {
    let msg = key_to_message(&character("s"), command_shift());
    assert!(matches!(msg, Some(Shortcut::SaveAs)));
}

#[test]
fn tests_ctrl_z_maps_to_undo() {
    let msg = key_to_message(&character("z"), command());
    assert!(matches!(msg, Some(Shortcut::Undo)));
}

#[test]
fn tests_ctrl_shift_z_maps_to_redo() {
    let msg = key_to_message(&character("z"), command_shift());
    assert!(matches!(msg, Some(Shortcut::Redo)));
}

#[test]
fn tests_f9_maps_to_toggle_sidebar() {
    let msg = key_to_message(&Key::Named(NamedKey::F9), Modifiers::empty());
    assert!(matches!(msg, Some(Shortcut::ToggleSidebar)));
}

#[test]
fn tests_escape_maps_to_deselect() {
    let msg = key_to_message(&Key::Named(NamedKey::Escape), Modifiers::empty());
    assert!(matches!(msg, Some(Shortcut::DeselectOverlay)));
}

#[test]
fn ctrl_enter_maps_to_deselect_same_as_escape() {
    let msg = key_to_message(&Key::Named(NamedKey::Enter), command());
    assert!(matches!(msg, Some(Shortcut::DeselectOverlay)));
}

#[test]
fn tests_delete_maps_to_delete_overlay() {
    let msg = key_to_message(&Key::Named(NamedKey::Delete), Modifiers::empty());
    assert!(matches!(msg, Some(Shortcut::DeleteOverlay)));
}

#[test]
fn tests_page_up_maps_to_previous() {
    let msg = key_to_message(&Key::Named(NamedKey::PageUp), Modifiers::empty());
    assert!(matches!(msg, Some(Shortcut::PreviousPage)));
}

#[test]
fn tests_ctrl_plus_maps_to_zoom_in() {
    let msg = key_to_message(&character("+"), command());
    assert!(matches!(msg, Some(Shortcut::ZoomIn)));
}

#[test]
fn tests_ctrl_minus_maps_to_zoom_out() {
    let msg = key_to_message(&character("-"), command());
    assert!(matches!(msg, Some(Shortcut::ZoomOut)));
}

#[test]
fn ctrl_zero_maps_to_zoom_fit_width() {
    let msg = key_to_message(&character("0"), command());
    assert!(matches!(msg, Some(Shortcut::ZoomFitWidth)));
}

#[test]
fn arrow_up_maps_to_font_size_arrow_pressed_increment() {
    let msg = key_to_message(&Key::Named(NamedKey::ArrowUp), Modifiers::empty());
    assert!(matches!(msg, Some(Shortcut::FontSizeArrowPressed(true))));
}

#[test]
fn arrow_down_maps_to_font_size_arrow_pressed_decrement() {
    let msg = key_to_message(&Key::Named(NamedKey::ArrowDown), Modifiers::empty());
    assert!(matches!(msg, Some(Shortcut::FontSizeArrowPressed(false))));
}

#[test]
fn alt_modified_arrow_up_does_not_map_to_font_size_arrow_pressed() {
    let msg = key_to_message(&Key::Named(NamedKey::ArrowUp), alt());
    assert!(msg.is_none());
}

#[test]
fn alt_modified_arrow_down_does_not_map_to_font_size_arrow_pressed() {
    let msg = key_to_message(&Key::Named(NamedKey::ArrowDown), alt());
    assert!(msg.is_none());
}

#[test]
fn arrow_key_result_increments_when_focused() {
    assert!(matches!(arrow_key_result(true, true), Some(true)));
}

#[test]
fn arrow_key_result_decrements_when_focused() {
    assert!(matches!(arrow_key_result(true, false), Some(false)));
}

#[test]
fn arrow_key_result_is_noop_when_unfocused_and_increment() {
    assert!(arrow_key_result(false, true).is_none());
}

#[test]
fn arrow_key_result_is_noop_when_unfocused_and_decrement() {
    assert!(arrow_key_result(false, false).is_none());
}

#[test]
fn capital_letters_with_command_map_to_their_shifted_actions() {
    assert_eq!(key_to_message(&character("S"), command()), Some(Shortcut::SaveAs));
    assert_eq!(key_to_message(&character("Z"), command()), Some(Shortcut::Redo));
    assert_eq!(key_to_message(&character("="), command()), Some(Shortcut::ZoomIn));
}

#[test]
fn keys_without_their_modifiers_do_nothing() {
    assert_eq!(key_to_message(&character("o"), Modifiers::empty()), None);
    assert_eq!(key_to_message(&Key::Named(NamedKey::Enter), Modifiers::empty()), None);
    assert_eq!(key_to_message(&Key::Named(NamedKey::Delete), command()), None);
    assert_eq!(key_to_message(&character("-"), command_shift()), None);
    assert_eq!(key_to_message(&Key::Unidentified, command()), None);
}
