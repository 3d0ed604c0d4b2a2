use spe::fonts::FontRegistry;
use spe::overlay::{PdfPosition, TextOverlay};
use spe::pdf::metadata::{
    overlay_records, OverlayMetadata, OverlayRecord, PageStreams, StreamFingerprint,
    METADATA_VERSION,
};
use spe::pdf::reedit::{
    metadata_payload, plan_reopen, plan_strips, validate_streams, PageContents, ReopenPlan,
    StaleReason, MAX_METADATA_BYTES,
};
use spe::pdf::writer::{layout_overlay_content, page_streams_for, ContentLayout};

/// Stand-in programs for the four bundled script fonts; the registry keeps
/// the bytes it is given and never reads them.
const BUNDLED_PROGRAMS: [&[u8]; 4] = [b"great-vibes", b"dancing-script", b"pinyon-script", b"pacifico"];

#[test]
fn metadata_cap_is_ten_megabytes() {
    assert_eq!(MAX_METADATA_BYTES, 10_485_760);
}

/// The overlay content the writer put on a page.
const OVERLAY_CONTENT: &[u8] = b"BT /F_ovl_0 12 Tf 72 650 Td (Overlaid) Tj ET";

/// A page that had content of its own and was saved with an overlay: its
/// content streams are the `q` prefix (object 10), its original content
/// (object 11) and the overlay stream (object 12).
fn saved_page(page: u32) -> (PageContents, PageStreams) {
    let layout = layout_overlay_content(true, OVERLAY_CONTENT.to_vec());
    let streams = page_streams_for(page, &layout);
    let ContentLayout::Wrapped { prefix, overlay } = layout else {
        panic!("a page with content is wrapped");
    };
    let base = 10 * page;
    let contents = PageContents {
        page,
        content_ids: vec![(base, 0), (base + 1, 0), (base + 2, 0)],
        first_stream: Some(prefix),
        last_stream: Some(overlay),
    };
    (contents, streams)
}

/// A page nothing was written on: one content stream of its own.
fn untouched_page(page: u32) -> PageContents {
    PageContents {
        page,
        content_ids: vec![(10 * page, 0)],
        first_stream: Some(b"BT (Page) Tj ET".to_vec()),
        last_stream: Some(b"BT (Page) Tj ET".to_vec()),
    }
}

fn overlay_on(page: u32, registry: &FontRegistry, text: &str) -> TextOverlay<f32> {
    TextOverlay {
        page,
        position: PdfPosition { x: 72.0, y: 650.0 },
        text: text.to_string(),
        font: registry.default_font(),
        font_size: 12.0,
        width: Some(200.0),
        min_height: None,
    }
}

/// A saved re-editable one-page document and the overlays baked into it.
fn saved_reeditable() -> (Vec<PageContents>, OverlayMetadata<f32>, Vec<TextOverlay<f32>>, FontRegistry) {
    let registry = FontRegistry::new(BUNDLED_PROGRAMS);
    let overlays = vec![overlay_on(1, &registry, "Overlaid")];
    let (page, streams) = saved_page(1);
    let meta = OverlayMetadata {
        version: METADATA_VERSION,
        overlays: overlay_records(&overlays, &registry),
        streams: vec![streams],
    };
    (vec![page], meta, overlays, registry)
}

fn stale_reason(plan: ReopenPlan<f32>) -> String {
    match plan {
        ReopenPlan::Stale(reason) => reason.message(),
        ReopenPlan::Restore { .. } => panic!("expected Stale"),
    }
}

#[test]
fn saved_file_restores_overlays_and_strips_app_streams() {
    let (pages, meta, overlays, registry) = saved_reeditable();
    let ReopenPlan::Restore {
        strips,
        overlays: restored,
        missing_fonts,
    } = plan_reopen(&pages, &meta, &registry)
    else {
        panic!("expected Restore");
    };
    assert_eq!(restored, overlays);
    assert!(missing_fonts.is_empty());
    assert_eq!(strips.len(), 1);
    assert_eq!(strips[0].page, 1);
    assert_eq!(strips[0].remove, vec![(12, 0), (10, 0)]);
    assert_eq!(strips[0].contents, vec![(11, 0)], "prefix and overlay streams stripped");
}

#[test]
fn tampered_overlay_stream_opens_flat_with_reason() {
    let (mut pages, meta, _, registry) = saved_reeditable();
    let mut tampered = pages[0].last_stream.clone().unwrap();
    tampered.extend_from_slice(b"\n% edited elsewhere\n");
    pages[0].last_stream = Some(tampered);

    let reason = stale_reason(plan_reopen(&pages, &meta, &registry));
    assert!(
        reason.contains("page 1"),
        "reason should name the mismatched page, got: {reason}"
    );
}

#[test]
fn duplicate_page_stream_record_opens_flat_without_panic() {
    let (pages, mut meta, _, registry) = saved_reeditable();
    let dup = meta.streams[0];
    meta.streams.push(dup);

    let reason = stale_reason(plan_reopen(&pages, &meta, &registry));
    assert!(
        reason.contains("page 1"),
        "reason should name the duplicated page, got: {reason}"
    );
}

#[test]
fn overlay_naming_an_out_of_range_page_opens_flat() {
    let (pages, mut meta, _, registry) = saved_reeditable();
    meta.overlays[0].page = 9999;
    meta.streams.clear();

    let reason = stale_reason(plan_reopen(&pages, &meta, &registry));
    assert!(
        reason.contains("9999"),
        "reason should name the out-of-range page, got: {reason}"
    );
}

#[test]
fn stream_record_naming_a_page_with_no_overlay_opens_flat() {
    let (pages, mut meta, _, registry) = saved_reeditable();
    // Drop the overlay but keep its still-valid-fingerprint stream record.
    meta.overlays.clear();

    let reason = stale_reason(plan_reopen(&pages, &meta, &registry));
    assert!(
        reason.contains("page 1"),
        "reason should name the orphaned stream's page, got: {reason}"
    );
}

#[test]
fn metadata_naming_a_missing_page_opens_flat() {
    let (pages, mut meta, _, registry) = saved_reeditable();
    // The metadata references page 7, which does not exist.
    meta.overlays[0].page = 7;
    meta.streams[0].page = 7;

    assert!(matches!(
        plan_reopen(&pages, &meta, &registry),
        ReopenPlan::Stale(_)
    ));
}

#[test]
fn overlay_naming_a_page_the_document_lacks_is_rejected_by_validate_streams() {
    let pages = vec![untouched_page(1)];
    let meta = OverlayMetadata {
        version: METADATA_VERSION,
        overlays: vec![OverlayRecord {
            page: 5,
            x: 0.0f32,
            y: 0.0,
            text: "x".to_string(),
            font_family: "Helvetica".to_string(),
            font_size: 12.0,
            width: None,
            min_height: None,
        }],
        streams: vec![],
    };

    let err = validate_streams(&pages, &meta).expect_err("page 5 does not exist").message();
    assert!(
        err.contains("does not have"),
        "expected a page-existence rejection, got: {err}"
    );
    assert!(err.contains('5'), "reason should name the page, got: {err}");
}

#[test]
fn strip_app_streams_with_exactly_prefix_and_overlay_leaves_empty_contents() {
    let pages = vec![PageContents {
        page: 1,
        content_ids: vec![(1, 0), (2, 0)],
        first_stream: Some(b"stream 0".to_vec()),
        last_stream: Some(b"stream 1".to_vec()),
    }];
    let streams = vec![PageStreams {
        page: 1,
        overlay: StreamFingerprint::of(b"overlay"),
        prefix: Some(StreamFingerprint::of(b"prefix")),
    }];

    let strips = plan_strips(&pages, &streams);

    assert_eq!(strips.len(), 1);
    assert!(strips[0].contents.is_empty(), "both app streams removed, no content left");
    assert_eq!(strips[0].remove, vec![(2, 0), (1, 0)]);
}

#[test]
fn strip_app_streams_with_prefix_original_and_overlay_leaves_a_direct_reference() {
    let pages = vec![PageContents {
        page: 1,
        content_ids: vec![(1, 0), (2, 0), (3, 0)],
        first_stream: Some(b"stream 0".to_vec()),
        last_stream: Some(b"stream 2".to_vec()),
    }];
    let streams = vec![PageStreams {
        page: 1,
        overlay: StreamFingerprint::of(b"overlay"),
        prefix: Some(StreamFingerprint::of(b"prefix")),
    }];

    let strips = plan_strips(&pages, &streams);

    assert_eq!(strips[0].contents, vec![(2, 0)], "only the original stream survives");
    assert_eq!(strips[0].remove, vec![(3, 0), (1, 0)]);
}

#[test]
fn multi_page_restore_strips_streams_on_both_overlaid_pages() {
    let registry = FontRegistry::new(BUNDLED_PROGRAMS);
    let overlays = vec![
        overlay_on(1, &registry, "Overlay one"),
        overlay_on(3, &registry, "Overlay three"),
    ];
    let (page1, streams1) = saved_page(1);
    let (page3, streams3) = saved_page(3);
    let pages = vec![page1, untouched_page(2), page3];
    let meta = OverlayMetadata {
        version: METADATA_VERSION,
        overlays: overlay_records(&overlays, &registry),
        streams: vec![streams1, streams3],
    };

    let ReopenPlan::Restore {
        strips,
        overlays: restored,
        ..
    } = plan_reopen(&pages, &meta, &registry)
    else {
        panic!("expected Restore");
    };
    assert_eq!(restored, overlays);
    let stripped: Vec<u32> = strips.iter().map(|s| s.page).collect();
    assert_eq!(stripped, vec![1, 3], "page 2 carried no overlay and is untouched");
    for strip in &strips {
        assert_eq!(strip.contents.len(), 1, "page {}'s overlay stream must be stripped", strip.page);
    }
}

#[test]
fn every_stale_reason_names_its_page() {
    let cases = [
        (StaleReason::MissingPage(4), "an overlay names page 4, which the document does not have"),
        (StaleReason::NoStreamRecord(4), "page 4 carries an overlay but no recorded stream to strip"),
        (StaleReason::NoOverlayForStream(4), "page 4 has a recorded stream but no overlay to restore"),
        (StaleReason::DuplicatePage(4), "metadata names page 4 more than once"),
        (StaleReason::UnknownStreamPage(4), "metadata names page 4, which the document does not have"),
        (StaleReason::OverlayStreamChanged(4), "page 4's overlay stream was changed by another tool"),
        (StaleReason::ContentChanged(4), "page 4's content was changed by another tool"),
    ];
    for (reason, sentence) in cases {
        assert_eq!(reason.message(), sentence);
    }
}

#[test]
fn a_changed_original_content_is_reported() {
    let (mut pages, meta, _, registry) = saved_reeditable();
    pages[0].first_stream = Some(b"q\nq\n".to_vec());
    assert!(matches!(
        plan_reopen(&pages, &meta, &registry),
        ReopenPlan::Stale(StaleReason::ContentChanged(1))
    ));
}

#[test]
fn an_overlay_without_a_stream_record_is_reported() {
    let (pages, mut meta, _, registry) = saved_reeditable();
    meta.streams.clear();
    assert!(matches!(
        plan_reopen(&pages, &meta, &registry),
        ReopenPlan::Stale(StaleReason::NoStreamRecord(1))
    ));
}

#[test]
fn a_stream_record_for_a_page_the_document_lacks_is_reported() {
    let (pages, mut meta, _, registry) = saved_reeditable();
    meta.overlays[0].page = 1;
    let extra = OverlayRecord {
        page: 8,
        ..meta.overlays[0].clone()
    };
    meta.overlays.push(extra);
    meta.streams.push(PageStreams {
        page: 8,
        ..meta.streams[0]
    });
    // The overlay on page 8 is caught first: its page does not exist.
    assert!(matches!(
        plan_reopen(&pages, &meta, &registry),
        ReopenPlan::Stale(StaleReason::MissingPage(8))
    ));
    let only_streams = OverlayMetadata {
        version: METADATA_VERSION,
        overlays: vec![meta.overlays[0].clone()],
        streams: vec![meta.streams[0], PageStreams { page: 8, ..meta.streams[0] }],
    };
    assert!(matches!(
        plan_reopen(&pages, &only_streams, &registry),
        ReopenPlan::Stale(StaleReason::NoOverlayForStream(8))
    ));
}

#[test]
fn a_metadata_payload_over_the_cap_is_not_read() {
    assert_eq!(metadata_payload(vec![b'a'; MAX_METADATA_BYTES + 1]), None);
}

#[test]
fn a_metadata_payload_at_the_cap_is_read() {
    let text = metadata_payload(vec![b'a'; MAX_METADATA_BYTES]).unwrap();
    assert_eq!(text.len(), MAX_METADATA_BYTES);
}

#[test]
fn a_metadata_payload_is_decoded_as_utf8() {
    assert_eq!(
        metadata_payload("{\"v\":\"é\"}".as_bytes().to_vec()),
        Some("{\"v\":\"é\"}".to_string())
    );
    assert_eq!(metadata_payload(vec![b'{', 0xFF, b'}']), None);
}
