use spe::fonts::FontRegistry;
use spe::overlay::{OverlayBox, PdfPosition, TextOverlay};

/// Stand-in programs for the four bundled script fonts; the registry keeps
/// the bytes it is given and never reads them.
const BUNDLED_PROGRAMS: [&[u8]; 4] = [b"great-vibes", b"dancing-script", b"pinyon-script", b"pacifico"];


#[test]
fn a_single_line_overlay_has_no_box() {
    let registry = FontRegistry::new(BUNDLED_PROGRAMS);
    let overlay: TextOverlay<f32> = TextOverlay {
        page: 1,
        position: PdfPosition { x: 72.0, y: 720.0 },
        text: "Hello".to_string(),
        font: registry.default_font(),
        font_size: 12.0,
        width: None,
        min_height: None,
    };
    assert_eq!(OverlayBox::of(&overlay), None);
}

#[test]
fn an_overlay_box_round_trips_through_an_overlay() {
    let registry = FontRegistry::new(BUNDLED_PROGRAMS);
    let mut overlay: TextOverlay<f32> = TextOverlay {
        page: 1,
        position: PdfPosition { x: 72.0, y: 720.0 },
        text: "Hello".to_string(),
        font: registry.default_font(),
        font_size: 12.0,
        width: Some(200.0),
        min_height: Some(90.0),
    };
    let original = OverlayBox::of(&overlay).unwrap();
    assert_eq!(
        original,
        OverlayBox {
            width: 200.0,
            min_height: 90.0
        }
    );

    OverlayBox {
        width: 300.0,
        min_height: 45.0,
    }
    .apply_to(&mut overlay);
    assert_eq!(overlay.width, Some(300.0));
    assert_eq!(overlay.min_height, Some(45.0));

    original.apply_to(&mut overlay);
    assert_eq!(OverlayBox::of(&overlay), Some(original));
}

#[test]
fn an_absent_minimum_height_reads_as_no_extra_room() {
    let registry = FontRegistry::new(BUNDLED_PROGRAMS);
    let overlay: TextOverlay<f32> = TextOverlay {
        page: 1,
        position: PdfPosition { x: 72.0, y: 720.0 },
        text: "Hello".to_string(),
        font: registry.default_font(),
        font_size: 12.0,
        width: Some(200.0),
        min_height: None,
    };
    assert_eq!(OverlayBox::of(&overlay).unwrap().min_height, 0.0);
}

#[test]
fn pdf_position_construction() {
    let pos: PdfPosition<f32> = PdfPosition { x: 100.0, y: 200.0 };
    assert_eq!(pos.x, 100.0);
    assert_eq!(pos.y, 200.0);
}

#[test]
fn pdf_position_is_copy() {
    let pos: PdfPosition<f32> = PdfPosition { x: 10.0, y: 20.0 };
    let pos2 = pos;
    assert_eq!(pos, pos2);
}

#[test]
fn text_overlay_construction() {
    let registry = FontRegistry::new(BUNDLED_PROGRAMS);
    let helvetica = registry.default_font();
    let overlay: TextOverlay<f32> = TextOverlay {
        page: 1,
        position: PdfPosition { x: 72.0, y: 720.0 },
        text: "Hello".to_string(),
        font: helvetica,
        font_size: 12.0,
        width: None,
        min_height: None,
    };
    assert_eq!(overlay.page, 1);
    assert_eq!(overlay.position.x, 72.0);
    assert_eq!(overlay.position.y, 720.0);
    assert_eq!(overlay.text, "Hello");
    assert_eq!(overlay.font, helvetica);
    assert_eq!(overlay.font_size, 12.0);
    assert!(overlay.width.is_none());
}

#[test]
fn text_overlay_clone() {
    let registry = FontRegistry::new(BUNDLED_PROGRAMS);
    let courier = registry.find_by_name("Courier").unwrap();
    let overlay: TextOverlay<f32> = TextOverlay {
        page: 1,
        position: PdfPosition { x: 72.0, y: 720.0 },
        text: "Hello".to_string(),
        font: courier,
        font_size: 14.0,
        width: None,
        min_height: None,
    };
    let cloned = overlay.clone();
    assert_eq!(overlay, cloned);
}

#[test]
fn text_overlay_width_none_by_default() {
    let registry = FontRegistry::new(BUNDLED_PROGRAMS);
    let overlay: TextOverlay<f32> = TextOverlay {
        page: 1,
        position: PdfPosition { x: 72.0, y: 720.0 },
        text: "Hello".to_string(),
        font: registry.default_font(),
        font_size: 12.0,
        width: None,
        min_height: None,
    };
    assert!(overlay.width.is_none());
}

#[test]
fn text_overlay_min_height_defaults_to_none() {
    let registry = FontRegistry::new(BUNDLED_PROGRAMS);
    let overlay: TextOverlay<f32> = TextOverlay {
        page: 1,
        position: PdfPosition { x: 72.0, y: 720.0 },
        text: "Hello".to_string(),
        font: registry.default_font(),
        font_size: 12.0,
        width: None,
        min_height: None,
    };
    assert!(
        overlay.min_height.is_none(),
        "an overlay only has a minimum height once one is dragged out for it"
    );
}

#[test]
fn text_overlay_remembers_a_dragged_minimum_height() {
    let registry = FontRegistry::new(BUNDLED_PROGRAMS);
    let overlay: TextOverlay<f32> = TextOverlay {
        page: 1,
        position: PdfPosition { x: 72.0, y: 720.0 },
        text: "Hello".to_string(),
        font: registry.default_font(),
        font_size: 12.0,
        width: Some(200.0),
        min_height: Some(90.0),
    };
    assert!((overlay.min_height.unwrap() - 90.0).abs() < f32::EPSILON);
}

#[test]
fn text_overlay_width_some_for_multiline() {
    let registry = FontRegistry::new(BUNDLED_PROGRAMS);
    let overlay: TextOverlay<f32> = TextOverlay {
        page: 1,
        position: PdfPosition { x: 72.0, y: 720.0 },
        text: "Hello".to_string(),
        font: registry.default_font(),
        font_size: 12.0,
        width: Some(200.0),
        min_height: None,
    };
    assert!((overlay.width.unwrap() - 200.0).abs() < f32::EPSILON);
}
