use spe::fonts::FontRegistry;
use spe::overlay::{PdfPosition, TextOverlay};
use spe::pdf::metadata::{
    check_version, overlay_records, resolve_overlays, MetadataError, OverlayMetadata,
    OverlayRecord, PageStreams, StreamFingerprint, METADATA_VERSION,
};

/// Stand-in programs for the four bundled script fonts; the registry keeps
/// the bytes it is given and never reads them.
const BUNDLED_PROGRAMS: [&[u8]; 4] = [b"great-vibes", b"dancing-script", b"pinyon-script", b"pacifico"];

fn sample_overlay(registry: &FontRegistry) -> TextOverlay<f32> {
    TextOverlay {
        page: 1,
        position: PdfPosition { x: 72.0, y: 720.0 },
        text: "Hello".to_string(),
        font: registry.default_font(),
        font_size: 12.0,
        width: Some(200.0),
        min_height: Some(90.0),
    }
}

#[test]
fn fingerprint_distinguishes_different_bytes() {
    let a = StreamFingerprint::of(b"BT (Hello) Tj ET");
    let b = StreamFingerprint::of(b"BT (World) Tj ET");
    assert_ne!(a, b);
    assert_eq!(a, StreamFingerprint::of(b"BT (Hello) Tj ET"));
}

#[test]
fn fingerprint_distinguishes_same_length_different_content() {
    let a = StreamFingerprint::of(b"aaaa");
    let b = StreamFingerprint::of(b"aaab");
    assert_eq!(a.length, b.length);
    assert_ne!(a.hash, b.hash);
}

#[test]
fn fingerprint_of_empty_input_is_the_offset_basis() {
    let fp = StreamFingerprint::of(b"");
    assert_eq!(fp.length, 0);
    assert_eq!(fp.hash, 0xcbf2_9ce4_8422_2325);
}

#[test]
fn fingerprint_of_a_single_byte_matches_fnv1a() {
    // FNV-1a 64 of "a" is 0xaf63dc4c8601ec8c.
    let fp = StreamFingerprint::of(b"a");
    assert_eq!(fp.length, 1);
    assert_eq!(fp.hash, 0xaf63_dc4c_8601_ec8c);
}

#[test]
fn records_and_resolution_round_trip_to_an_identical_overlay_model() {
    let registry = FontRegistry::new(BUNDLED_PROGRAMS);
    let overlays = vec![
        sample_overlay(&registry),
        TextOverlay {
            page: 2,
            position: PdfPosition { x: 10.5, y: 400.25 },
            text: "Second".to_string(),
            font: registry.find_by_name("Courier").expect("Courier exists"),
            font_size: 9.5,
            width: None,
            min_height: None,
        },
    ];
    let records = overlay_records(&overlays, &registry);
    assert_eq!(records[0].font_family, "Helvetica");
    assert_eq!(records[1].font_family, "Courier");
    let metadata = OverlayMetadata {
        version: METADATA_VERSION,
        overlays: records,
        streams: vec![],
    };
    let restored = resolve_overlays(&metadata, &registry);
    assert_eq!(restored.overlays, overlays);
    assert!(restored.missing_fonts.is_empty());
}

#[test]
fn future_version_is_rejected() {
    let metadata: OverlayMetadata<f32> = OverlayMetadata {
        version: METADATA_VERSION + 1,
        overlays: vec![],
        streams: vec![],
    };
    assert!(matches!(
        check_version(&metadata),
        Err(MetadataError::UnsupportedVersion { found }) if found == METADATA_VERSION + 1
    ));
}

#[test]
fn current_version_is_accepted() {
    let metadata: OverlayMetadata<f32> = OverlayMetadata {
        version: METADATA_VERSION,
        overlays: vec![],
        streams: vec![PageStreams { page: 1, overlay: StreamFingerprint::of(b"ops"), prefix: None }],
    };
    assert!(check_version(&metadata).is_ok());
}

#[test]
fn unknown_font_falls_back_to_default_and_is_reported() {
    let registry = FontRegistry::new(BUNDLED_PROGRAMS);
    let metadata = OverlayMetadata {
        version: METADATA_VERSION,
        overlays: vec![
            OverlayRecord {
                page: 1,
                x: 72.0f32,
                y: 720.0,
                text: "Ghost font".to_string(),
                font_family: "Uninstalled Family".to_string(),
                font_size: 12.0,
                width: None,
                min_height: None,
            },
            OverlayRecord {
                page: 1,
                x: 72.0,
                y: 700.0,
                text: "Same ghost".to_string(),
                font_family: "Uninstalled Family".to_string(),
                font_size: 12.0,
                width: None,
                min_height: None,
            },
        ],
        streams: vec![],
    };
    let restored = resolve_overlays(&metadata, &registry);
    assert_eq!(restored.overlays[0].font, registry.default_font());
    assert_eq!(
        restored.missing_fonts,
        vec!["Uninstalled Family".to_string()],
        "each missing family is reported once"
    );
}

#[test]
fn every_metadata_error_has_its_sentence() {
    assert_eq!(
        MetadataError::InvalidJson("expected value at line 1 column 1".to_string()).message(),
        "overlay metadata is not valid JSON: expected value at line 1 column 1"
    );
    assert_eq!(
        MetadataError::UnsupportedVersion { found: 7 }.message(),
        "overlay metadata version 7 is newer than this build understands (1)"
    );
    assert_eq!(
        MetadataError::InvalidValue("overlay on page 2 has an invalid width".to_string()).message(),
        "overlay metadata has an invalid value: overlay on page 2 has an invalid width"
    );
}
