//! Overlay re-editing metadata: the versioned record of what a save wrote, and
//! content stream fingerprints that tell whether another tool changed it since.

use vstd::prelude::*;

use crate::fonts::{
    FontEntry, FontId, FontRegistry, display_names_resolve, first_named, has_id, ids_distinct,
    lemma_display_name_finds_entry,
};
use crate::overlay::{PdfPosition, TextOverlay};
use crate::text::{decimal, push_decimal};

verus! {

/// Version of the overlay metadata this build writes and understands.
pub const METADATA_VERSION: u32 = 1;

/// FNV-1a 64-bit offset basis.
pub const FNV_OFFSET_BASIS: u64 = 0xcbf2_9ce4_8422_2325;

/// FNV-1a 64-bit prime.
pub const FNV_PRIME: u64 = 0x100_0000_01b3;

/// The 64-bit FNV-1a hash of `bytes`: starting from the offset basis, each
/// byte is xored in and the state multiplied by the prime, modulo 2^64.
pub open spec fn fnv1a(bytes: Seq<u8>) -> u64
    decreases bytes.len(),
{
    if bytes.len() == 0 {
        FNV_OFFSET_BASIS
    } else {
        (fnv1a(bytes.drop_last()) ^ (bytes.last() as u64)).wrapping_mul(FNV_PRIME)
    }
}

/// Length and FNV-1a hash of `bytes`, computed in one pass.
pub fn fnv1a_fingerprint(bytes: &[u8]) -> (r: (usize, u64))
    ensures
        r.0 == bytes@.len(),
        r.1 == fnv1a(bytes@),
{
    let mut hash: u64 = FNV_OFFSET_BASIS;
    let mut i: usize = 0;
    while i < bytes.len()
        invariant
            i <= bytes@.len(),
            hash == fnv1a(bytes@.take(i as int)),
        decreases bytes.len() - i,
    {
        assert(bytes@.take(i + 1).drop_last() =~= bytes@.take(i as int));
        hash = hash ^ (bytes[i] as u64);
        hash = hash.wrapping_mul(FNV_PRIME);
        i = i + 1;
    }
    assert(bytes@.take(bytes@.len() as int) =~= bytes@);
    (bytes.len(), hash)
}

/// A cheap identity for a content stream: byte length plus an FNV-1a hash, the
/// same scheme the writer uses for TrueType font programs. Distinguishes
/// same-length streams a length-only check would conflate.
#[derive(Debug, Clone, Copy, PartialEq, Eq, Structural)]
pub struct StreamFingerprint {
    pub length: usize,
    pub hash: u64,
}

impl StreamFingerprint {
    /// The fingerprint of `bytes`.
    pub fn of(bytes: &[u8]) -> (r: Self)
        ensures
            r.length == bytes@.len(),
            r.hash == fnv1a(bytes@),
    {
        let (length, hash) = fnv1a_fingerprint(bytes);
        StreamFingerprint { length, hash }
    }
}

/// The content streams the writer added to one page: the overlay stream and,
/// when the page had original content to isolate, the `q` prefix stream.
#[derive(Debug, Clone, Copy, PartialEq, Eq, Structural)]
pub struct PageStreams {
    pub page: u32,
    pub overlay: StreamFingerprint,
    pub prefix: Option<StreamFingerprint>,
}

/// One overlay as stored in the metadata. The font is stored by display name
/// (e.g. "Helvetica"), resolved back through the registry on reopen.
#[derive(Debug, Clone, PartialEq)]
pub struct OverlayRecord<F> {
    pub page: u32,
    pub x: F,
    pub y: F,
    pub text: String,
    pub font_family: String,
    pub font_size: F,
    pub width: Option<F>,
    pub min_height: Option<F>,
}

/// The full metadata payload.
#[derive(Debug, Clone, PartialEq)]
pub struct OverlayMetadata<F> {
    pub version: u32,
    pub overlays: Vec<OverlayRecord<F>>,
    pub streams: Vec<PageStreams>,
}

/// Why stored metadata was not accepted.
#[derive(Debug)]
pub enum MetadataError {
    /// The payload is not valid JSON of the metadata shape; holds the parser's reason.
    InvalidJson(String),
    /// The payload was written by a newer build.
    UnsupportedVersion { found: u32 },
    /// The payload holds a value no save could have produced.
    InvalidValue(String),
}

/// The sentence for each metadata error.
pub open spec fn metadata_error_message(e: MetadataError) -> Seq<char> {
    match e {
        MetadataError::InvalidJson(reason) => "overlay metadata is not valid JSON: "@ + reason@,
        MetadataError::UnsupportedVersion { found } => "overlay metadata version "@ + decimal(
            found as nat,
        ) + " is newer than this build understands ("@ + decimal(METADATA_VERSION as nat)
            + ")"@,
        MetadataError::InvalidValue(what) => "overlay metadata has an invalid value: "@ + what@,
    }
}

impl MetadataError {
    /// A sentence describing the error.
    pub fn message(&self) -> (r: String)
        ensures
            r@ == metadata_error_message(*self),
    {
        let mut s = String::new();
        match self {
            MetadataError::InvalidJson(reason) => {
                s.append("overlay metadata is not valid JSON: ");
                s.append(reason.as_str());
            },
            MetadataError::UnsupportedVersion { found } => {
                s.append("overlay metadata version ");
                push_decimal(&mut s, *found as u64);
                s.append(" is newer than this build understands (");
                push_decimal(&mut s, METADATA_VERSION as u64);
                s.append(")");
            },
            MetadataError::InvalidValue(what) => {
                s.append("overlay metadata has an invalid value: ");
                s.append(what.as_str());
            },
        }
        s
    }
}

/// Whether `record` stores `overlay`, naming its font by the display name of
/// the registry entry with the overlay's font id.
pub open spec fn records<F>(record: OverlayRecord<F>, overlay: TextOverlay<F>, fonts: Seq<FontEntry>) -> bool {
    &&& record.page == overlay.page
    &&& record.x == overlay.position.x
    &&& record.y == overlay.position.y
    &&& record.text == overlay.text
    &&& record.font_size == overlay.font_size
    &&& record.width == overlay.width
    &&& record.min_height == overlay.min_height
    &&& exists|i: int| 0 <= i < fonts.len() && fonts[i].id == overlay.font
        && record.font_family@ == fonts[i].display_name@
}

/// The records a save stores for `overlays`, one per overlay in order. Every
/// overlay's font must be registered.
pub fn overlay_records<F: Copy>(overlays: &[TextOverlay<F>], registry: &FontRegistry) -> (r: Vec<OverlayRecord<F>>)
    requires
        registry.well_formed(),
        forall|i: int| 0 <= i < overlays@.len() ==> has_id(registry@, #[trigger] overlays@[i].font),
    ensures
        r@.len() == overlays@.len(),
        forall|i: int| 0 <= i < overlays@.len() ==> records(#[trigger] r@[i], overlays@[i], registry@),
{
    let mut out: Vec<OverlayRecord<F>> = Vec::new();
    let mut i: usize = 0;
    while i < overlays.len()
        invariant
            i <= overlays@.len(),
            registry.well_formed(),
            forall|k: int| 0 <= k < overlays@.len() ==> has_id(registry@, #[trigger] overlays@[k].font),
            out@.len() == i,
            forall|k: int| 0 <= k < i ==> records(#[trigger] out@[k], overlays@[k], registry@),
        decreases overlays.len() - i,
    {
        let o = &overlays[i];
        let entry = registry.get(o.font);
        let family = String::from_str(entry.display_name);
        let ghost k = choose|k: int| 0 <= k < registry@.len() && registry@[k] == *entry;
        out.push(OverlayRecord {
            page: o.page,
            x: o.position.x,
            y: o.position.y,
            text: o.text.clone(),
            font_family: family,
            font_size: o.font_size,
            width: o.width,
            min_height: o.min_height,
        });
        assert(records(out@[i as int], overlays@[i as int], registry@));
        i = i + 1;
    }
    out
}

/// Reject metadata written by a newer build than this one.
pub fn check_version<F>(metadata: &OverlayMetadata<F>) -> (r: Result<(), MetadataError>)
    ensures
        r is Ok <==> metadata.version <= METADATA_VERSION,
        r matches Err(e) ==> e == (MetadataError::UnsupportedVersion { found: metadata.version }),
{
    if metadata.version > METADATA_VERSION {
        Err(MetadataError::UnsupportedVersion { found: metadata.version })
    } else {
        Ok(())
    }
}

/// The font an overlay restored from `record` uses: the first registered font
/// its family names, or the default font when none does.
pub open spec fn resolved_font<F>(record: OverlayRecord<F>, fonts: Seq<FontEntry>) -> FontId {
    match first_named(fonts, record.font_family@) {
        Some(i) => fonts[i].id,
        None => fonts[0].id,
    }
}

/// The overlay restored from `record`.
pub open spec fn restored<F>(record: OverlayRecord<F>, fonts: Seq<FontEntry>) -> TextOverlay<F> {
    TextOverlay {
        page: record.page,
        position: PdfPosition { x: record.x, y: record.y },
        text: record.text,
        font: resolved_font(record, fonts),
        font_size: record.font_size,
        width: record.width,
        min_height: record.min_height,
    }
}

/// The families among `records` that no registered font has, each once, in
/// first-seen order.
pub open spec fn missing_families<F>(records: Seq<OverlayRecord<F>>, fonts: Seq<FontEntry>) -> Seq<Seq<char>>
    decreases records.len(),
{
    if records.len() == 0 {
        Seq::empty()
    } else {
        let prev = missing_families(records.drop_last(), fonts);
        let family = records.last().font_family@;
        if first_named(fonts, family) is None && !prev.contains(family) {
            prev.push(family)
        } else {
            prev
        }
    }
}

/// Overlays reconstructed from metadata, plus the font families that are no
/// longer installed and fell back to the default font (deduplicated, in
/// first-seen order).
pub struct RestoredOverlays<F> {
    pub overlays: Vec<TextOverlay<F>>,
    pub missing_fonts: Vec<String>,
}

/// Whether `v` holds a string with the characters `s`.
fn contains_string(v: &Vec<String>, s: &String) -> (r: bool)
    ensures
        r == v@.map_values(|t: String| t@).contains(s@),
{
    let ghost views = v@.map_values(|t: String| t@);
    let mut i: usize = 0;
    while i < v.len()
        invariant
            i <= v@.len(),
            views == v@.map_values(|t: String| t@),
            forall|j: int| 0 <= j < i ==> views[j] != s@,
        decreases v.len() - i,
    {
        if v[i] == *s {
            assert(views[i as int] == s@);
            return true;
        }
        i = i + 1;
    }
    false
}

/// Resolve overlay records back into the in-memory model, substituting the
/// default font for families the registry no longer knows.
pub fn resolve_overlays<F: Copy>(metadata: &OverlayMetadata<F>, registry: &FontRegistry) -> (r: RestoredOverlays<F>)
    requires
        registry.well_formed(),
    ensures
        r.overlays@.len() == metadata.overlays@.len(),
        forall|i: int| 0 <= i < r.overlays@.len() ==> #[trigger] r.overlays@[i] == restored(metadata.overlays@[i], registry@),
        r.missing_fonts@.map_values(|t: String| t@) == missing_families(metadata.overlays@, registry@),
{
    let records = &metadata.overlays;
    let mut overlays: Vec<TextOverlay<F>> = Vec::new();
    let mut missing_fonts: Vec<String> = Vec::new();
    let default = registry.default_font();
    let mut i: usize = 0;
    while i < records.len()
        invariant
            i <= records@.len(),
            registry.well_formed(),
            default == registry@[0].id,
            overlays@.len() == i,
            forall|k: int| 0 <= k < i ==> #[trigger] overlays@[k] == restored(records@[k], registry@),
            missing_fonts@.map_values(|t: String| t@) == missing_families(records@.take(i as int), registry@),
        decreases records.len() - i,
    {
        let record = &records[i];
        assert(records@.take(i + 1).drop_last() =~= records@.take(i as int));
        let found = registry.find_by_name(record.font_family.as_str());
        let font = match found {
            Some(id) => id,
            None => {
                if !contains_string(&missing_fonts, &record.font_family) {
                    let ghost before = missing_fonts@;
                    missing_fonts.push(record.font_family.clone());
                    assert(missing_fonts@.map_values(|t: String| t@) =~= before.map_values(|t: String| t@).push(record.font_family@));
                }
                default
            },
        };
        overlays.push(TextOverlay {
            page: record.page,
            position: PdfPosition { x: record.x, y: record.y },
            text: record.text.clone(),
            font,
            font_size: record.font_size,
            width: record.width,
            min_height: record.min_height,
        });
        i = i + 1;
    }
    assert(records@.take(records@.len() as int) =~= records@);
    RestoredOverlays { overlays, missing_fonts }
}

/// Round-trip law: records stored for overlays whose fonts are registered
/// restore exactly those overlays, with no family reported missing, as long as
/// every font's display name finds that font.
pub proof fn lemma_records_restore<F>(
    stored: Seq<OverlayRecord<F>>,
    overlays: Seq<TextOverlay<F>>,
    fonts: Seq<FontEntry>,
)
    requires
        ids_distinct(fonts),
        display_names_resolve(fonts),
        stored.len() == overlays.len(),
        forall|i: int| 0 <= i < stored.len() ==> records(#[trigger] stored[i], overlays[i], fonts),
    ensures
        forall|i: int| 0 <= i < stored.len() ==> #[trigger] restored(stored[i], fonts) == overlays[i],
        missing_families(stored, fonts) == Seq::<Seq<char>>::empty(),
    decreases stored.len(),
{
    assert forall|i: int| 0 <= i < stored.len() implies #[trigger] restored(stored[i], fonts) == overlays[i] by {
        assert(records(stored[i], overlays[i], fonts));
        let k = choose|k: int| 0 <= k < fonts.len() && fonts[k].id == overlays[i].font
            && stored[i].font_family@ == fonts[k].display_name@;
        lemma_display_name_finds_entry(fonts, k);
    }
    if stored.len() > 0 {
        let n = stored.len() - 1;
        assert forall|i: int| 0 <= i < stored.drop_last().len() implies records(#[trigger] stored.drop_last()[i], overlays.drop_last()[i], fonts) by {
            assert(stored.drop_last()[i] == stored[i]);
            assert(overlays.drop_last()[i] == overlays[i]);
        }
        lemma_records_restore(stored.drop_last(), overlays.drop_last(), fonts);
        assert(records(stored[n], overlays[n], fonts));
        let k = choose|k: int| 0 <= k < fonts.len() && fonts[k].id == overlays[n].font
            && stored[n].font_family@ == fonts[k].display_name@;
        lemma_display_name_finds_entry(fonts, k);
    }
}

} // verus!
