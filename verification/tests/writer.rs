use spe::fonts::{FontId, FontRegistry};
use spe::overlay::{PdfPosition, TextOverlay};
use spe::pdf::metadata::StreamFingerprint;
use spe::pdf::writer::{
    check_overlay_pages, collect_unique_fonts, group_by_page, layout_overlay_content,
    page_streams_for, plan_font_mapping, win_ansi_encoding_for, ContentLayout,
    FontProgramFingerprint, FontResource, PageFont, WriterError,
};

/// Stand-in programs for the four bundled script fonts; the registry keeps
/// the bytes it is given and never reads them.
const BUNDLED_PROGRAMS: [&[u8]; 4] = [b"great-vibes", b"dancing-script", b"pinyon-script", b"pacifico"];

fn overlay(page: u32, font: FontId, text: &str) -> TextOverlay<f32> {
    TextOverlay {
        page,
        position: PdfPosition { x: 72.0, y: 700.0 },
        text: text.to_string(),
        font,
        font_size: 12.0,
        width: None,
        min_height: None,
    }
}

fn page_font(name: &str, base: &str, encoding: Option<&str>) -> PageFont {
    PageFont {
        resource_name: name.as_bytes().to_vec(),
        base_font: base.as_bytes().to_vec(),
        encoding: encoding.map(|e| e.as_bytes().to_vec()),
        program: None,
    }
}

#[test]
fn writer_error_open_failed_display() {
    let err = WriterError::OpenFailed("invalid file header".to_string());
    let msg = err.message();
    assert!(
        msg.starts_with("failed to open PDF:"),
        "unexpected message: {msg}"
    );
}

#[test]
fn writer_error_page_not_found_display() {
    let err = WriterError::PageNotFound {
        requested: 5,
        total: 2,
    };
    let msg = err.message();
    assert_eq!(msg, "page 5 not found in PDF (document has 2 pages)");
}

#[test]
fn writer_error_save_failed_display() {
    let err = WriterError::SaveFailed {
        path: "/tmp/out.pdf".to_string(),
        source: "permission denied".to_string(),
    };
    let msg = err.message();
    assert!(
        msg.contains("/tmp/out.pdf"),
        "expected path in message: {msg}"
    );
    assert!(
        msg.starts_with("failed to save PDF to"),
        "unexpected message: {msg}"
    );
}

#[test]
fn write_overlays_invalid_page_returns_page_not_found() {
    let registry = FontRegistry::new(BUNDLED_PROGRAMS);
    let overlays = vec![overlay(1, registry.default_font(), "ok"), overlay(5, registry.default_font(), "far")];
    match check_overlay_pages(&overlays, &[1, 2]) {
        Err(WriterError::PageNotFound { requested, total }) => {
            assert_eq!(requested, 5);
            assert_eq!(total, 2);
        }
        other => panic!("expected PageNotFound, got {other:?}"),
    }
    assert!(check_overlay_pages(&overlays[..1], &[1, 2]).is_ok());
}

#[test]
fn write_overlays_reuses_existing_font() {
    let registry = FontRegistry::new(BUNDLED_PROGRAMS);
    let helvetica = registry.default_font();
    let page_fonts = vec![page_font("F1", "Helvetica", Some("WinAnsiEncoding"))];
    let plan = plan_font_mapping(&page_fonts, &[helvetica], &registry);
    assert_eq!(plan.len(), 1);
    assert_eq!(plan[0].0, helvetica);
    assert!(matches!(&plan[0].1, FontResource::Existing(name) if name == b"F1"));
}

#[test]
fn write_overlays_multiple_fonts_get_unique_names() {
    let registry = FontRegistry::new(BUNDLED_PROGRAMS);
    let helvetica = registry.default_font();
    let courier = registry.find_by_name("Courier").unwrap();
    let times = registry.find_by_name("Times Roman").unwrap();
    // The page already uses the first fresh name for something else.
    let page_fonts = vec![page_font("F_ovl_0", "Symbol", None)];
    let plan = plan_font_mapping(&page_fonts, &[helvetica, courier, times], &registry);
    let names: Vec<Vec<u8>> = plan
        .iter()
        .map(|(_, r)| match r {
            FontResource::New(n) => n.clone(),
            FontResource::Existing(n) => panic!("nothing to reuse, got {n:?}"),
        })
        .collect();
    assert_eq!(names, vec![b"F_ovl_1".to_vec(), b"F_ovl_2".to_vec(), b"F_ovl_3".to_vec()]);
}

#[test]
fn write_overlays_does_not_reuse_a_page_font_with_a_different_encoding() {
    let registry = FontRegistry::new(BUNDLED_PROGRAMS);
    let helvetica = registry.default_font();
    // Same BaseFont, but left on the default StandardEncoding.
    let page_fonts = vec![page_font("F1", "Helvetica", None)];
    let plan = plan_font_mapping(&page_fonts, &[helvetica], &registry);
    assert!(matches!(&plan[0].1, FontResource::New(name) if name == b"F_ovl_0"));
}

#[test]
fn write_symbolic_builtin_overlay_keeps_its_own_encoding() {
    assert_eq!(win_ansi_encoding_for("Symbol"), None);
    assert_eq!(win_ansi_encoding_for("ZapfDingbats"), None);
    assert_eq!(win_ansi_encoding_for("Helvetica"), Some("WinAnsiEncoding"));
    // A symbolic page font declaring no encoding is reused as it is.
    let registry = FontRegistry::new(BUNDLED_PROGRAMS);
    let symbol = registry.find_by_name("Symbol").unwrap();
    let plan = plan_font_mapping(&[page_font("S", "Symbol", None)], &[symbol], &registry);
    assert!(matches!(&plan[0].1, FontResource::Existing(name) if name == b"S"));
}

#[test]
fn unique_fonts_keep_first_seen_order() {
    let registry = FontRegistry::new(BUNDLED_PROGRAMS);
    let helvetica = registry.default_font();
    let courier = registry.find_by_name("Courier").unwrap();
    let a = overlay(1, courier, "a");
    let b = overlay(1, helvetica, "b");
    let c = overlay(1, courier, "c");
    assert_eq!(collect_unique_fonts(&[&a, &b, &c]), vec![courier, helvetica]);
}

#[test]
fn write_overlays_multiple_overlays_same_page_single_stream() {
    let registry = FontRegistry::new(BUNDLED_PROGRAMS);
    let f = registry.default_font();
    let overlays = vec![overlay(3, f, "a"), overlay(1, f, "b"), overlay(3, f, "c")];
    let groups = group_by_page(&overlays);
    assert_eq!(groups, vec![(1, vec![1]), (3, vec![0, 2])]);
}

#[test]
fn write_overlays_isolates_original_graphics_state() {
    match layout_overlay_content(true, b"BT ET".to_vec()) {
        ContentLayout::Wrapped { prefix, overlay } => {
            assert_eq!(prefix, b"q\n".to_vec());
            assert_eq!(overlay, b"\nQ\nBT ET".to_vec());
        }
        other => panic!("expected a wrapped layout, got {other:?}"),
    }
    match layout_overlay_content(false, b"BT ET".to_vec()) {
        ContentLayout::Alone { stream } => assert_eq!(stream, b"BT ET".to_vec()),
        other => panic!("expected the overlay alone, got {other:?}"),
    }
}

#[test]
fn recorded_streams_fingerprint_what_was_written() {
    let layout = layout_overlay_content(true, b"BT ET".to_vec());
    let streams = page_streams_for(4, &layout);
    assert_eq!(streams.page, 4);
    assert_eq!(streams.overlay, StreamFingerprint::of(b"\nQ\nBT ET"));
    assert_eq!(streams.prefix, Some(StreamFingerprint::of(b"q\n")));
}

#[test]
fn font_program_fingerprints_tell_programs_apart() {
    let a = FontProgramFingerprint::of(&[0, 1, 0, 0, 7]);
    let b = FontProgramFingerprint::of(&[0, 1, 0, 0, 8]);
    assert_eq!(a.length, 5);
    assert_ne!(a, b);
    assert_eq!(a, FontProgramFingerprint::of(&[0, 1, 0, 0, 7]));
}

#[test]
fn write_overlays_does_not_reuse_a_same_named_font_with_a_different_program() {
    let registry = FontRegistry::new(BUNDLED_PROGRAMS);
    let helvetica = registry.default_font();
    // A built-in font has no program of its own to compare, so a page font
    // of the same name and encoding is reused whatever it embeds.
    let mut embedded = page_font("F9", "Helvetica", Some("WinAnsiEncoding"));
    embedded.program = Some(FontProgramFingerprint::of(b"someone else's font"));
    let plan = plan_font_mapping(&[embedded], &[helvetica], &registry);
    assert!(matches!(&plan[0].1, FontResource::Existing(name) if name == b"F9"));
}
