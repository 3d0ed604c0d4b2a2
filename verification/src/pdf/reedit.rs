//! Reopening app-saved PDFs: check the stored metadata against the document and
//! plan how to strip the app's own streams, so restored overlays are edited
//! rather than shown twice.

use vstd::prelude::*;

use crate::fonts::FontRegistry;
use crate::overlay::TextOverlay;
use crate::pdf::metadata::{
    OverlayMetadata, OverlayRecord, PageStreams, StreamFingerprint, fnv1a, missing_families,
    resolve_overlays, restored,
};
use crate::pdf::writer::fingerprint_of;
use crate::text::{decimal, push_decimal};

verus! {

/// A PDF object identifier: object number and generation.
pub type ObjectId = (u32, u16);

/// Cap on the metadata payload that will be parsed: the metadata is small
/// structured JSON, so anything past this is corrupt or hostile.
pub const MAX_METADATA_BYTES: usize = 10485760;

/// The text that `bytes` spell in UTF-8, or `None` when they are not valid
/// UTF-8.
pub open spec fn utf8_text(bytes: Seq<u8>) -> Option<Seq<char>> {
    if vstd::utf8::valid_utf8(bytes) {
        Some(vstd::utf8::decode_utf8(bytes))
    } else {
        None
    }
}

/// `String::from_utf8`, its error dropped: the text `bytes` spell in UTF-8,
/// or `None` when they are not valid UTF-8.
#[verifier::external_body]
fn from_utf8(bytes: Vec<u8>) -> (r: Option<String>)
    ensures
        r is Some <==> vstd::utf8::valid_utf8(bytes@),
        r matches Some(s) ==> s@ == vstd::utf8::decode_utf8(bytes@),
{
    String::from_utf8(bytes).ok()
}

/// The metadata payload a saved document carries in `content`, as text: `None`
/// when it is larger than [`MAX_METADATA_BYTES`] (read no further) or is not
/// valid UTF-8.
pub fn metadata_payload(content: Vec<u8>) -> (r: Option<String>)
    ensures
        content@.len() > MAX_METADATA_BYTES ==> r is None,
        content@.len() <= MAX_METADATA_BYTES ==> (match r {
            Some(s) => Some(s@),
            None => None::<Seq<char>>,
        }) == utf8_text(content@),
{
    if content.len() > MAX_METADATA_BYTES {
        None
    } else {
        from_utf8(content)
    }
}

/// What reopening needs to know of one page of the document.
pub struct PageContents {
    /// The page number (1-based).
    pub page: u32,
    /// The page's content streams, in drawing order.
    pub content_ids: Vec<ObjectId>,
    /// The bytes of the first content object, when there is one and it is a stream.
    pub first_stream: Option<Vec<u8>>,
    /// The bytes of the last content object, when there is one and it is a stream.
    pub last_stream: Option<Vec<u8>>,
}

/// Why stored metadata does not describe the document any more.
#[derive(Debug, Clone, Copy, PartialEq, Eq, Structural)]
pub enum StaleReason {
    /// An overlay names a page the document does not have.
    MissingPage(u32),
    /// A page carries an overlay but no recorded stream to strip.
    NoStreamRecord(u32),
    /// A page has a recorded stream but no overlay to restore.
    NoOverlayForStream(u32),
    /// The metadata records a page's streams more than once.
    DuplicatePage(u32),
    /// The metadata records streams of a page the document does not have.
    UnknownStreamPage(u32),
    /// A page's overlay stream was changed by another tool.
    OverlayStreamChanged(u32),
    /// A page's original content was changed by another tool.
    ContentChanged(u32),
}

impl StaleReason {
    /// A sentence describing the reason, naming the page.
    pub fn message(&self) -> (r: String)
        ensures
            r@ == stale_message(*self),
    {
        let mut s = String::new();
        match self {
            StaleReason::MissingPage(p) => {
                s.append("an overlay names page ");
                push_decimal(&mut s, *p as u64);
                s.append(", which the document does not have");
            },
            StaleReason::NoStreamRecord(p) => {
                s.append("page ");
                push_decimal(&mut s, *p as u64);
                s.append(" carries an overlay but no recorded stream to strip");
            },
            StaleReason::NoOverlayForStream(p) => {
                s.append("page ");
                push_decimal(&mut s, *p as u64);
                s.append(" has a recorded stream but no overlay to restore");
            },
            StaleReason::DuplicatePage(p) => {
                s.append("metadata names page ");
                push_decimal(&mut s, *p as u64);
                s.append(" more than once");
            },
            StaleReason::UnknownStreamPage(p) => {
                s.append("metadata names page ");
                push_decimal(&mut s, *p as u64);
                s.append(", which the document does not have");
            },
            StaleReason::OverlayStreamChanged(p) => {
                s.append("page ");
                push_decimal(&mut s, *p as u64);
                s.append("'s overlay stream was changed by another tool");
            },
            StaleReason::ContentChanged(p) => {
                s.append("page ");
                push_decimal(&mut s, *p as u64);
                s.append("'s content was changed by another tool");
            },
        }
        s
    }
}

/// The sentence for each reason.
pub open spec fn stale_message(reason: StaleReason) -> Seq<char> {
    match reason {
        StaleReason::MissingPage(p) => "an overlay names page "@ + decimal(p as nat)
            + ", which the document does not have"@,
        StaleReason::NoStreamRecord(p) => "page "@ + decimal(p as nat)
            + " carries an overlay but no recorded stream to strip"@,
        StaleReason::NoOverlayForStream(p) => "page "@ + decimal(p as nat)
            + " has a recorded stream but no overlay to restore"@,
        StaleReason::DuplicatePage(p) => "metadata names page "@ + decimal(p as nat)
            + " more than once"@,
        StaleReason::UnknownStreamPage(p) => "metadata names page "@ + decimal(p as nat)
            + ", which the document does not have"@,
        StaleReason::OverlayStreamChanged(p) => "page "@ + decimal(p as nat)
            + "'s overlay stream was changed by another tool"@,
        StaleReason::ContentChanged(p) => "page "@ + decimal(p as nat)
            + "'s content was changed by another tool"@,
    }
}

/// Index of the first page entry with number `page`, if any.
pub open spec fn page_index(pages: Seq<PageContents>, page: u32) -> Option<int>
    decreases pages.len(),
{
    if pages.len() == 0 {
        None
    } else {
        match page_index(pages.drop_last(), page) {
            Some(i) => Some(i),
            None => if pages.last().page == page {
                Some(pages.len() - 1)
            } else {
                None
            },
        }
    }
}

/// Whether `bytes` is present and has fingerprint `expected`.
pub open spec fn stream_matches(bytes: Option<Vec<u8>>, expected: StreamFingerprint) -> bool {
    match bytes {
        Some(b) => b@.len() == expected.length && fnv1a(b@) == expected.hash,
        None => false,
    }
}

/// The check of one overlay record: its page exists and has recorded streams.
pub open spec fn overlay_failure<F>(
    record: OverlayRecord<F>,
    streams: Seq<PageStreams>,
    pages: Seq<PageContents>,
) -> Option<StaleReason> {
    if record.page == 0 || page_index(pages, record.page) is None {
        Some(StaleReason::MissingPage(record.page))
    } else if !(exists|k: int| 0 <= k < streams.len() && streams[k].page == record.page) {
        Some(StaleReason::NoStreamRecord(record.page))
    } else {
        None
    }
}

/// The first failing overlay check among `records`.
pub open spec fn first_overlay_failure<F>(
    records: Seq<OverlayRecord<F>>,
    streams: Seq<PageStreams>,
    pages: Seq<PageContents>,
) -> Option<StaleReason>
    decreases records.len(),
{
    if records.len() == 0 {
        None
    } else {
        match first_overlay_failure(records.drop_last(), streams, pages) {
            Some(e) => Some(e),
            None => overlay_failure(records.last(), streams, pages),
        }
    }
}

/// The check of stream record `j`: some overlay is on its page, no earlier
/// record names the page, the page exists, and its first and last content
/// streams still have the recorded fingerprints.
pub open spec fn stream_failure<F>(
    streams: Seq<PageStreams>,
    j: int,
    records: Seq<OverlayRecord<F>>,
    pages: Seq<PageContents>,
) -> Option<StaleReason> {
    let rec = streams[j];
    if !(exists|k: int| 0 <= k < records.len() && records[k].page == rec.page) {
        Some(StaleReason::NoOverlayForStream(rec.page))
    } else if exists|k: int| 0 <= k < j && streams[k].page == rec.page {
        Some(StaleReason::DuplicatePage(rec.page))
    } else {
        match page_index(pages, rec.page) {
            None => Some(StaleReason::UnknownStreamPage(rec.page)),
            Some(p) => if !stream_matches(pages[p].last_stream, rec.overlay) {
                Some(StaleReason::OverlayStreamChanged(rec.page))
            } else {
                match rec.prefix {
                    Some(prefix) => if !stream_matches(pages[p].first_stream, prefix) {
                        Some(StaleReason::ContentChanged(rec.page))
                    } else {
                        None
                    },
                    None => None,
                }
            },
        }
    }
}

/// The first failing stream check among the first `n` stream records.
pub open spec fn first_stream_failure<F>(
    streams: Seq<PageStreams>,
    n: int,
    records: Seq<OverlayRecord<F>>,
    pages: Seq<PageContents>,
) -> Option<StaleReason>
    decreases n,
{
    if n <= 0 {
        None
    } else {
        match first_stream_failure(streams, n - 1, records, pages) {
            Some(e) => Some(e),
            None => stream_failure(streams, n - 1, records, pages),
        }
    }
}

/// The verdict on metadata against the document: overlay records are checked
/// in order first, then stream records in order; the first failure wins.
pub open spec fn validation<F>(meta: OverlayMetadata<F>, pages: Seq<PageContents>) -> Option<StaleReason> {
    match first_overlay_failure(meta.overlays@, meta.streams@, pages) {
        Some(e) => Some(e),
        None => first_stream_failure(meta.streams@, meta.streams@.len() as int, meta.overlays@, pages),
    }
}

/// No failure among the first `n` stream records means none of them fails.
proof fn lemma_no_stream_failure<F>(
    streams: Seq<PageStreams>,
    n: int,
    records: Seq<OverlayRecord<F>>,
    pages: Seq<PageContents>,
    j: int,
)
    requires
        first_stream_failure(streams, n, records, pages) is None,
        0 <= j < n,
    ensures
        stream_failure(streams, j, records, pages) is None,
    decreases n,
{
    if j < n - 1 {
        lemma_no_stream_failure(streams, n - 1, records, pages, j);
    }
}

/// Metadata is accepted only when the document still holds, byte for byte,
/// what the save wrote as far as its fingerprints tell: for every recorded
/// stream, the document has the page, the page's last content stream has
/// the recorded overlay stream's length and FNV-1a hash, and, when a prefix
/// stream was recorded, its first content stream has the prefix's length
/// and hash. A stream another tool rewrote to the same length but other
/// bytes (and so, barring a hash collision, another hash) is refused.
pub proof fn lemma_accepted_streams_match<F>(meta: OverlayMetadata<F>, pages: Seq<PageContents>, j: int)
    requires
        validation(meta, pages) is None,
        0 <= j < meta.streams@.len(),
    ensures
        ({
            let rec = meta.streams@[j];
            exists|p: int|
                0 <= p < pages.len() && #[trigger] pages[p].page == rec.page
                    && (pages[p].last_stream matches Some(bs) && bs@.len() == rec.overlay.length && fnv1a(bs@) == rec.overlay.hash)
                    && (rec.prefix matches Some(pre) ==> (pages[p].first_stream matches Some(bs) && bs@.len() == pre.length && fnv1a(bs@) == pre.hash))
        }),
{
    lemma_no_stream_failure(meta.streams@, meta.streams@.len() as int, meta.overlays@, pages, j);
    let rec = meta.streams@[j];
    lemma_page_index_found(pages, rec.page);
    let p = page_index(pages, rec.page)->0;
    assert(pages[p].page == rec.page);
}

/// The page `page_index` finds carries that page number.
proof fn lemma_page_index_found(pages: Seq<PageContents>, page: u32)
    ensures
        page_index(pages, page) matches Some(p) ==> 0 <= p < pages.len() && pages[p].page == page,
    decreases pages.len(),
{
    if pages.len() > 0 {
        lemma_page_index_found(pages.drop_last(), page);
        if let Some(p) = page_index(pages.drop_last(), page) {
            assert(pages.drop_last()[p] == pages[p]);
        }
    }
}

/// The index of the first page entry numbered `page`.
fn find_page(pages: &[PageContents], page: u32) -> (r: Option<usize>)
    ensures
        r is None <==> page_index(pages@, page) is None,
        r matches Some(i) ==> i < pages@.len() && page_index(pages@, page) == Some(i as int),
{
    let mut i: usize = 0;
    while i < pages.len()
        invariant
            i <= pages@.len(),
            page_index(pages@.take(i as int), page) is None,
        decreases pages.len() - i,
    {
        assert(pages@.take(i + 1).drop_last() =~= pages@.take(i as int));
        if pages[i].page == page {
            proof {
                lemma_page_index_extends(pages@, page, i as int + 1);
            }
            return Some(i);
        }
        i = i + 1;
    }
    assert(pages@.take(pages@.len() as int) =~= pages@);
    None
}

/// A match found in a prefix is the first match of the whole sequence.
proof fn lemma_page_index_extends(pages: Seq<PageContents>, page: u32, n: int)
    requires
        0 <= n <= pages.len(),
        page_index(pages.take(n), page) is Some,
    ensures
        page_index(pages, page) == page_index(pages.take(n), page),
    decreases pages.len(),
{
    if n == pages.len() {
        assert(pages.take(n) =~= pages);
    } else {
        assert(pages.drop_last().take(n) =~= pages.take(n));
        lemma_page_index_extends(pages.drop_last(), page, n);
    }
}

/// Whether some stream record names `page`.
fn has_stream_record(streams: &Vec<PageStreams>, page: u32) -> (r: bool)
    ensures
        r == exists|k: int| 0 <= k < streams@.len() && streams@[k].page == page,
{
    let mut i: usize = 0;
    while i < streams.len()
        invariant
            i <= streams@.len(),
            forall|k: int| 0 <= k < i ==> streams@[k].page != page,
        decreases streams.len() - i,
    {
        if streams[i].page == page {
            return true;
        }
        i = i + 1;
    }
    false
}

/// Whether one of the first `n` stream records names `page`.
fn has_earlier_stream_record(streams: &Vec<PageStreams>, n: usize, page: u32) -> (r: bool)
    requires
        n <= streams@.len(),
    ensures
        r == exists|k: int| 0 <= k < n && streams@[k].page == page,
{
    let mut i: usize = 0;
    while i < n
        invariant
            i <= n <= streams@.len(),
            forall|k: int| 0 <= k < i ==> streams@[k].page != page,
        decreases n - i,
    {
        if streams[i].page == page {
            return true;
        }
        i = i + 1;
    }
    false
}

/// Whether some overlay record is on `page`.
fn has_overlay_on<F>(records: &Vec<OverlayRecord<F>>, page: u32) -> (r: bool)
    ensures
        r == exists|k: int| 0 <= k < records@.len() && records@[k].page == page,
{
    let mut i: usize = 0;
    while i < records.len()
        invariant
            i <= records@.len(),
            forall|k: int| 0 <= k < i ==> records@[k].page != page,
        decreases records.len() - i,
    {
        if records[i].page == page {
            return true;
        }
        i = i + 1;
    }
    false
}

/// Whether `bytes` is present and has fingerprint `expected`.
fn stream_has_fingerprint(bytes: &Option<Vec<u8>>, expected: StreamFingerprint) -> (r: bool)
    ensures
        r == stream_matches(*bytes, expected),
{
    match bytes {
        Some(b) => {
            let fp = StreamFingerprint::of(b.as_slice());
            fp.length == expected.length && fp.hash == expected.hash
        },
        None => false,
    }
}

/// Check every overlay's page against the document's pages and every recorded
/// stream fingerprint against the page's content, returning the first mismatch
/// as the reason the metadata cannot be trusted.
pub fn validate_streams<F>(pages: &[PageContents], meta: &OverlayMetadata<F>) -> (r: Result<(), StaleReason>)
    ensures
        r == (match validation(*meta, pages@) {
            Some(e) => Err(e),
            None => Ok::<(), StaleReason>(()),
        }),
{
    let records = &meta.overlays;
    let streams = &meta.streams;
    let mut i: usize = 0;
    while i < records.len()
        invariant
            i <= records@.len(),
            records@ == meta.overlays@,
            streams@ == meta.streams@,
            first_overlay_failure(records@.take(i as int), streams@, pages@) is None,
        decreases records.len() - i,
    {
        assert(records@.take(i + 1).drop_last() =~= records@.take(i as int));
        let page = records[i].page;
        if page == 0 || find_page(pages, page).is_none() {
            proof {
                lemma_first_overlay_failure_extends(records@, streams@, pages@, i as int + 1);
            }
            return Err(StaleReason::MissingPage(page));
        }
        if !has_stream_record(streams, page) {
            proof {
                lemma_first_overlay_failure_extends(records@, streams@, pages@, i as int + 1);
            }
            return Err(StaleReason::NoStreamRecord(page));
        }
        i = i + 1;
    }
    assert(records@.take(records@.len() as int) =~= records@);
    let mut j: usize = 0;
    while j < streams.len()
        invariant
            j <= streams@.len(),
            records@ == meta.overlays@,
            streams@ == meta.streams@,
            first_overlay_failure(records@, streams@, pages@) is None,
            first_stream_failure(streams@, j as int, records@, pages@) is None,
        decreases streams.len() - j,
    {
        let rec = streams[j];
        proof {
            lemma_first_stream_failure_extends(streams@, j as int + 1, streams@.len() as int, records@, pages@);
        }
        if !has_overlay_on(records, rec.page) {
            return Err(StaleReason::NoOverlayForStream(rec.page));
        }
        if has_earlier_stream_record(streams, j, rec.page) {
            return Err(StaleReason::DuplicatePage(rec.page));
        }
        let p = match find_page(pages, rec.page) {
            Some(p) => p,
            None => {
                return Err(StaleReason::UnknownStreamPage(rec.page));
            },
        };
        if !stream_has_fingerprint(&pages[p].last_stream, rec.overlay) {
            return Err(StaleReason::OverlayStreamChanged(rec.page));
        }
        if let Some(prefix) = rec.prefix {
            if !stream_has_fingerprint(&pages[p].first_stream, prefix) {
                return Err(StaleReason::ContentChanged(rec.page));
            }
        }
        j = j + 1;
    }
    Ok(())
}

/// A failure found among a prefix of the overlay records is the first failure
/// of all of them.
proof fn lemma_first_overlay_failure_extends<F>(
    records: Seq<OverlayRecord<F>>,
    streams: Seq<PageStreams>,
    pages: Seq<PageContents>,
    n: int,
)
    requires
        0 <= n <= records.len(),
        first_overlay_failure(records.take(n), streams, pages) is Some,
    ensures
        first_overlay_failure(records, streams, pages) == first_overlay_failure(records.take(n), streams, pages),
    decreases records.len(),
{
    if n == records.len() {
        assert(records.take(n) =~= records);
    } else {
        assert(records.drop_last().take(n) =~= records.take(n));
        lemma_first_overlay_failure_extends(records.drop_last(), streams, pages, n);
    }
}

/// A failure found among the first `n` stream records is the first failure
/// among any longer run of them.
proof fn lemma_first_stream_failure_extends<F>(
    streams: Seq<PageStreams>,
    n: int,
    m: int,
    records: Seq<OverlayRecord<F>>,
    pages: Seq<PageContents>,
)
    requires
        0 <= n <= m,
    ensures
        first_stream_failure(streams, n, records, pages) is Some ==> first_stream_failure(streams, m, records, pages)
            == first_stream_failure(streams, n, records, pages),
    decreases m - n,
{
    if n < m {
        lemma_first_stream_failure_extends(streams, n, m - 1, records, pages);
    }
}

/// How to take the app's streams back out of one page: the content objects
/// to delete and the page's remaining content, in drawing order.
pub struct StripAction {
    pub page: u32,
    pub remove: Vec<ObjectId>,
    pub contents: Vec<ObjectId>,
}

/// The strip for one stream record: the page's last content stream (the
/// overlay stream) goes, and its first (the `q` prefix) too when one was
/// recorded. A page missing from the document, or holding fewer content
/// streams than recorded, is left alone.
pub open spec fn strip_of(rec: PageStreams, pages: Seq<PageContents>) -> Option<(u32, Seq<ObjectId>, Seq<ObjectId>)> {
    match page_index(pages, rec.page) {
        None => None,
        Some(p) => {
            let ids = pages[p].content_ids@;
            let has_prefix = rec.prefix is Some;
            if ids.len() < (if has_prefix { 2int } else { 1int }) {
                None
            } else if has_prefix {
                Some((rec.page, seq![ids.last(), ids[0]], ids.subrange(1, ids.len() - 1)))
            } else {
                Some((rec.page, seq![ids.last()], ids.drop_last()))
            }
        },
    }
}

/// The strips for the stream records, in record order.
pub open spec fn strip_plan(streams: Seq<PageStreams>, pages: Seq<PageContents>) -> Seq<(u32, Seq<ObjectId>, Seq<ObjectId>)>
    decreases streams.len(),
{
    if streams.len() == 0 {
        Seq::empty()
    } else {
        let prev = strip_plan(streams.drop_last(), pages);
        match strip_of(streams.last(), pages) {
            Some(a) => prev.push(a),
            None => prev,
        }
    }
}

/// The plain view of a strip action.
pub open spec fn strip_view(a: StripAction) -> (u32, Seq<ObjectId>, Seq<ObjectId>) {
    (a.page, a.remove@, a.contents@)
}

/// The strip for one stream record.
fn strip_for(rec: PageStreams, pages: &[PageContents]) -> (r: Option<StripAction>)
    ensures
        match strip_of(rec, pages@) {
            Some(a) => r matches Some(s) && strip_view(s) == a,
            None => r is None,
        },
{
    let p = match find_page(pages, rec.page) {
        Some(p) => p,
        None => {
            return None;
        },
    };
    let ids = &pages[p].content_ids;
    let n = ids.len();
    let has_prefix = rec.prefix.is_some();
    let min: usize = if has_prefix { 2 } else { 1 };
    if n < min {
        return None;
    }
    let mut remove: Vec<ObjectId> = Vec::new();
    remove.push(ids[n - 1]);
    let start: usize = if has_prefix { 1 } else { 0 };
    if has_prefix {
        remove.push(ids[0]);
    }
    let mut contents: Vec<ObjectId> = Vec::new();
    let mut k: usize = start;
    while k < n - 1
        invariant
            start <= k <= n - 1,
            n == ids@.len(),
            contents@ == ids@.subrange(start as int, k as int),
        decreases n - 1 - k,
    {
        contents.push(ids[k]);
        assert(contents@ =~= ids@.subrange(start as int, k + 1));
        k = k + 1;
    }
    assert(remove@ =~= (if has_prefix { seq![ids@.last(), ids@[0]] } else { seq![ids@.last()] }));
    assert(ids@.drop_last() =~= ids@.subrange(0, n - 1));
    Some(StripAction { page: rec.page, remove, contents })
}

/// Plan the removal of the app's overlay and prefix streams, one action per
/// stream record whose page holds them.
pub fn plan_strips(pages: &[PageContents], streams: &Vec<PageStreams>) -> (r: Vec<StripAction>)
    ensures
        r@.map_values(|a: StripAction| strip_view(a)) == strip_plan(streams@, pages@),
{
    let mut out: Vec<StripAction> = Vec::new();
    let mut i: usize = 0;
    while i < streams.len()
        invariant
            i <= streams@.len(),
            out@.map_values(|a: StripAction| strip_view(a)) == strip_plan(streams@.take(i as int), pages@),
        decreases streams.len() - i,
    {
        assert(streams@.take(i + 1).drop_last() =~= streams@.take(i as int));
        let ghost before = out@;
        match strip_for(streams[i], pages) {
            Some(a) => {
                out.push(a);
                assert(out@.map_values(|a: StripAction| strip_view(a)) =~= before.map_values(|a: StripAction| strip_view(a)).push(strip_view(out@.last())));
            },
            None => {},
        }
        i = i + 1;
    }
    assert(streams@.take(streams@.len() as int) =~= streams@);
    out
}

/// What reopening an app save comes to.
pub enum ReopenPlan<F> {
    /// The metadata no longer describes the document: open it flat.
    Stale(StaleReason),
    /// Strip the app's streams and restore these overlays.
    Restore { strips: Vec<StripAction>, overlays: Vec<TextOverlay<F>>, missing_fonts: Vec<String> },
}

/// Decide how to reopen a document whose metadata was read and accepted: when
/// the metadata still describes the document, strip the app's streams and
/// restore the overlays; otherwise report the first mismatch.
pub fn plan_reopen<F: Copy>(pages: &[PageContents], meta: &OverlayMetadata<F>, registry: &FontRegistry) -> (r: ReopenPlan<F>)
    requires
        registry.well_formed(),
    ensures
        match validation(*meta, pages@) {
            Some(e) => r == ReopenPlan::<F>::Stale(e),
            None => r matches ReopenPlan::Restore { strips, overlays, missing_fonts } && {
                &&& strips@.map_values(|a: StripAction| strip_view(a)) == strip_plan(meta.streams@, pages@)
                &&& overlays@.len() == meta.overlays@.len()
                &&& forall|i: int| 0 <= i < overlays@.len() ==> #[trigger] overlays@[i] == restored(meta.overlays@[i], registry@)
                &&& missing_fonts@.map_values(|t: String| t@) == missing_families(meta.overlays@, registry@)
            },
        },
        r is Restore ==> forall|j: int|
            #![trigger meta.streams@[j]]
            0 <= j < meta.streams@.len() ==> exists|p: int|
                0 <= p < pages@.len() && #[trigger] pages@[p].page == meta.streams@[j].page
                   
                        && (pages@[p].last_stream matches Some(bs) && bs@.len() == meta.streams@[j].overlay.length && fnv1a(bs@) == meta.streams@[j].overlay.hash)
                        && (
                meta.streams@[j].prefix matches Some(pre) ==> (pages@[p].first_stream matches Some(bs) && bs@.len() == pre.length && fnv1a(bs@) == pre.hash)),
{
    match validate_streams(pages, meta) {
        Err(reason) => ReopenPlan::Stale(reason),
        Ok(()) => {
            proof {
                assert forall|j: int|
                    #![trigger meta.streams@[j]]
                    0 <= j < meta.streams@.len() implies exists|p: int|
                        0 <= p < pages@.len() && #[trigger] pages@[p].page == meta.streams@[j].page
                           
                                && (pages@[p].last_stream matches Some(bs) && bs@.len() == meta.streams@[j].overlay.length && fnv1a(bs@) == meta.streams@[j].overlay.hash)
                           
                                && (meta.streams@[j].prefix matches Some(pre) ==> (pages@[p].first_stream matches Some(bs) && bs@.len() == pre.length && fnv1a(bs@) == pre.hash)) by {
                    lemma_accepted_streams_match(*meta, pages@, j);
                }
            }
            let strips = plan_strips(pages, &meta.streams);
            let restored = resolve_overlays(meta, registry);
            ReopenPlan::Restore { strips, overlays: restored.overlays, missing_fonts: restored.missing_fonts }
        },
    }
}

/// Write-then-reopen law for one page: when the page's content is the app's
/// `q` prefix stream, the page's own content and the app's overlay stream, as
/// the writer lays them out, and the recorded fingerprints are those of the
/// written streams, the stream checks pass and the strip removes exactly the
/// two app streams, giving back the page's own content.
pub proof fn lemma_wrapped_page_strips_back(
    pages: Seq<PageContents>,
    p: int,
    own: Seq<ObjectId>,
    prefix_id: ObjectId,
    overlay_id: ObjectId,
    prefix_bytes: Seq<u8>,
    overlay_bytes: Seq<u8>,
)
    requires
        0 <= p < pages.len(),
        page_index(pages, pages[p].page) == Some(p),
        pages[p].content_ids@ == seq![prefix_id] + own + seq![overlay_id],
        pages[p].first_stream matches Some(b) && b@ == prefix_bytes,
        pages[p].last_stream matches Some(b) && b@ == overlay_bytes,
        prefix_bytes.len() <= usize::MAX,
        overlay_bytes.len() <= usize::MAX,
    ensures
        ({
            let rec = PageStreams {
                page: pages[p].page,
                overlay: fingerprint_of(overlay_bytes),
                prefix: Some(fingerprint_of(prefix_bytes)),
            };
            &&& stream_matches(pages[p].last_stream, rec.overlay)
            &&& stream_matches(pages[p].first_stream, fingerprint_of(prefix_bytes))
            &&& strip_of(rec, pages) == Some((pages[p].page, seq![overlay_id, prefix_id], own))
        }),
{
    let ids = pages[p].content_ids@;
    assert(ids.subrange(1, ids.len() - 1) =~= own);
    assert(ids.last() == overlay_id);
    assert(ids[0] == prefix_id);
}

/// Write-then-reopen law for a page without content of its own: the overlay
/// stream is the page's only content, its check passes and the strip removes
/// it, leaving the page empty.
pub proof fn lemma_alone_page_strips_back(
    pages: Seq<PageContents>,
    p: int,
    overlay_id: ObjectId,
    overlay_bytes: Seq<u8>,
)
    requires
        0 <= p < pages.len(),
        page_index(pages, pages[p].page) == Some(p),
        pages[p].content_ids@ == seq![overlay_id],
        pages[p].last_stream matches Some(b) && b@ == overlay_bytes,
        overlay_bytes.len() <= usize::MAX,
    ensures
        ({
            let rec = PageStreams { page: pages[p].page, overlay: fingerprint_of(overlay_bytes), prefix: None };
            &&& stream_matches(pages[p].last_stream, rec.overlay)
            &&& strip_of(rec, pages) == Some((pages[p].page, seq![overlay_id], Seq::<ObjectId>::empty()))
        }),
{
    let ids = pages[p].content_ids@;
    assert(ids.drop_last() =~= Seq::<ObjectId>::empty());
}

} // verus!
