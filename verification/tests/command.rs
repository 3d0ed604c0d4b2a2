use spe::command::Command;
use spe::fonts::FontRegistry;
use spe::overlay::{PdfPosition, TextOverlay};

/// Stand-in programs for the four bundled script fonts; the registry keeps
/// the bytes it is given and never reads them.
const BUNDLED_PROGRAMS: [&[u8]; 4] = [b"great-vibes", b"dancing-script", b"pinyon-script", b"pacifico"];


fn sample_overlay() -> TextOverlay<f32> {
    let registry = FontRegistry::new(BUNDLED_PROGRAMS);
    TextOverlay {
        page: 1,
        position: PdfPosition { x: 72.0, y: 720.0 },
        text: "Hello".to_string(),
        font: registry.default_font(),
        font_size: 12.0,
        width: None,
        min_height: None,
    }
}

#[test]
fn place_overlay_apply_adds_to_vec() {
    let mut overlays = vec![];
    let cmd = Command::PlaceOverlay {
        overlay: sample_overlay(),
    };
    cmd.apply(&mut overlays);
    assert_eq!(overlays.len(), 1);
    assert_eq!(overlays[0].text, "Hello");
}

#[test]
fn place_overlay_reverse_removes_from_vec() {
    let mut overlays = vec![sample_overlay()];
    let cmd = Command::PlaceOverlay {
        overlay: sample_overlay(),
    };
    cmd.reverse(&mut overlays);
    assert!(overlays.is_empty());
}

#[test]
fn delete_overlay_round_trip() {
    let overlay = sample_overlay();
    let mut overlays = vec![overlay.clone()];
    let cmd = Command::DeleteOverlay {
        overlay: overlay.clone(),
        index: 0,
    };
    cmd.apply(&mut overlays);
    assert!(overlays.is_empty());
    cmd.reverse(&mut overlays);
    assert_eq!(overlays.len(), 1);
    assert_eq!(overlays[0].text, "Hello");
}

#[test]
fn move_overlay_round_trip() {
    let mut overlays = vec![sample_overlay()];
    let from = PdfPosition { x: 72.0, y: 720.0 };
    let to = PdfPosition { x: 200.0, y: 500.0 };
    let cmd = Command::MoveOverlay { index: 0, from, to };
    cmd.apply(&mut overlays);
    assert!((overlays[0].position.x - 200.0).abs() < f32::EPSILON);
    assert!((overlays[0].position.y - 500.0).abs() < f32::EPSILON);
    cmd.reverse(&mut overlays);
    assert!((overlays[0].position.x - 72.0).abs() < f32::EPSILON);
    assert!((overlays[0].position.y - 720.0).abs() < f32::EPSILON);
}

#[test]
fn edit_text_round_trip() {
    let mut overlays = vec![sample_overlay()];
    let cmd = Command::EditText {
        index: 0,
        old_text: "Hello".to_string(),
        new_text: "World".to_string(),
    };
    cmd.apply(&mut overlays);
    assert_eq!(overlays[0].text, "World");
    cmd.reverse(&mut overlays);
    assert_eq!(overlays[0].text, "Hello");
}

#[test]
fn change_font_round_trip() {
    let registry = FontRegistry::new(BUNDLED_PROGRAMS);
    let helvetica = registry.default_font();
    let courier = registry.find_by_name("Courier").unwrap();
    let mut overlays = vec![sample_overlay()];
    let cmd = Command::ChangeOverlayFont {
        index: 0,
        old_font: helvetica,
        new_font: courier,
    };
    cmd.apply(&mut overlays);
    assert_eq!(overlays[0].font, courier);
    cmd.reverse(&mut overlays);
    assert_eq!(overlays[0].font, helvetica);
}

#[test]
fn change_font_size_round_trip() {
    let mut overlays = vec![sample_overlay()];
    let cmd = Command::ChangeOverlayFontSize {
        index: 0,
        old_size: 12.0,
        new_size: 24.0,
    };
    cmd.apply(&mut overlays);
    assert!((overlays[0].font_size - 24.0).abs() < f32::EPSILON);
    cmd.reverse(&mut overlays);
    assert!((overlays[0].font_size - 12.0).abs() < f32::EPSILON);
}

#[test]
fn full_undo_redo_cycle() {
    let mut overlays = vec![];
    let mut undo_stack: Vec<Command<f32>> = vec![];
    let mut redo_stack: Vec<Command<f32>> = vec![];

    // Place overlay
    let cmd = Command::PlaceOverlay {
        overlay: sample_overlay(),
    };
    cmd.apply(&mut overlays);
    undo_stack.push(cmd);
    redo_stack.clear();
    assert_eq!(overlays.len(), 1);

    // Undo
    let cmd = undo_stack.pop().unwrap();
    cmd.reverse(&mut overlays);
    redo_stack.push(cmd);
    assert!(overlays.is_empty());

    // Redo
    let cmd = redo_stack.pop().unwrap();
    cmd.apply(&mut overlays);
    undo_stack.push(cmd);
    assert_eq!(overlays.len(), 1);
}

#[test]
fn delete_at_middle_index_restores_correctly() {
    let registry = FontRegistry::new(BUNDLED_PROGRAMS);
    let courier = registry.find_by_name("Courier").unwrap();
    let times = registry.find_by_name("Times Roman").unwrap();
    let mut overlays = vec![
        sample_overlay(),
        TextOverlay {
            page: 1,
            position: PdfPosition { x: 100.0, y: 600.0 },
            text: "Second".to_string(),
            font: courier,
            font_size: 14.0,
            width: None,
            min_height: None,
        },
        TextOverlay {
            page: 1,
            position: PdfPosition { x: 200.0, y: 500.0 },
            text: "Third".to_string(),
            font: times,
            font_size: 16.0,
            width: None,
            min_height: None,
        },
    ];
    let deleted = overlays[1].clone();
    let cmd = Command::DeleteOverlay {
        overlay: deleted,
        index: 1,
    };
    cmd.apply(&mut overlays);
    assert_eq!(overlays.len(), 2);
    assert_eq!(overlays[0].text, "Hello");
    assert_eq!(overlays[1].text, "Third");
    cmd.reverse(&mut overlays);
    assert_eq!(overlays.len(), 3);
    assert_eq!(overlays[1].text, "Second");
}

#[test]
fn resize_overlay_round_trip() {
    let mut overlay = sample_overlay();
    overlay.width = Some(200.0);
    let mut overlays = vec![overlay];
    let cmd = Command::ResizeOverlay {
        index: 0,
        old_width: 200.0,
        new_width: 300.0,
    };
    cmd.apply(&mut overlays);
    assert!((overlays[0].width.unwrap() - 300.0).abs() < f32::EPSILON);
    cmd.reverse(&mut overlays);
    assert!((overlays[0].width.unwrap() - 200.0).abs() < f32::EPSILON);
}

#[test]
fn place_and_delete_change_the_overlay_count_but_edits_do_not() {
    let place: Command<f32> = Command::PlaceOverlay { overlay: sample_overlay() };
    let delete: Command<f32> = Command::DeleteOverlay { overlay: sample_overlay(), index: 0 };
    let edit: Command<f32> = Command::EditText {
        index: 0,
        old_text: "a".to_string(),
        new_text: "b".to_string(),
    };
    assert!(place.changes_overlay_count());
    assert!(delete.changes_overlay_count());
    assert!(!edit.changes_overlay_count());
}

#[test]
fn undo_then_redo_restores_each_command_kind() {
    let registry = FontRegistry::new(BUNDLED_PROGRAMS);
    let courier = registry.find_by_name("Courier").unwrap();
    let base = vec![sample_overlay()];
    let commands: Vec<Command<f32>> = vec![
        Command::MoveOverlay { index: 0, from: PdfPosition { x: 72.0, y: 720.0 }, to: PdfPosition { x: 1.0, y: 2.0 } },
        Command::EditText { index: 0, old_text: "Hello".to_string(), new_text: "Bye".to_string() },
        Command::ChangeOverlayFont { index: 0, old_font: registry.default_font(), new_font: courier },
        Command::ChangeOverlayFontSize { index: 0, old_size: 12.0, new_size: 30.0 },
        Command::PlaceOverlay { overlay: sample_overlay() },
        Command::DeleteOverlay { overlay: sample_overlay(), index: 0 },
    ];
    for cmd in &commands {
        let mut overlays = base.clone();
        cmd.apply(&mut overlays);
        let applied = overlays.clone();
        cmd.reverse(&mut overlays);
        assert_eq!(overlays, base);
        cmd.apply(&mut overlays);
        assert_eq!(overlays, applied);
    }
}
