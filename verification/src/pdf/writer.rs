//! Planning the overlay write: which pages get overlays, which font resources
//! each page needs (reusing a page's own font when it is the same font read the
//! same way), fresh resource names, and how the overlay content stream is
//! spliced in after the page's own content.

use vstd::prelude::*;

use crate::fonts::{FontEntry, FontId, FontRegistry, PdfEmbedding, has_id, ids_distinct};
use crate::overlay::TextOverlay;
use crate::pdf::metadata::{PageStreams, StreamFingerprint, fnv1a, fnv1a_fingerprint};
use crate::text::{decimal, decimal_bytes, lemma_decimal_bytes_injective, push_decimal, push_decimal_bytes, str_eq};
use vstd::set_lib::{lemma_int_range, lemma_len_subset, lemma_map_size, set_int_range};

verus! {

/// What a completed save is worth telling the user about.
#[derive(Debug, Default, PartialEq)]
pub struct SaveReport {
    /// Characters WinAnsiEncoding cannot represent, each listed once in
    /// first-seen order. They were written as `?`.
    pub unencodable_chars: Vec<char>,
}

/// Why a save did not happen.
#[derive(Debug)]
pub enum WriterError {
    /// The source PDF could not be read; holds the reader's reason.
    OpenFailed(String),
    /// An overlay names a page the document does not have.
    PageNotFound { requested: u32, total: u32 },
    /// The result could not be written to `path`; holds the reason.
    SaveFailed { path: String, source: String },
}

impl WriterError {
    /// A sentence describing the error.
    pub fn message(&self) -> (r: String)
        ensures
            r@ == writer_error_message(*self),
    {
        let mut s = String::new();
        match self {
            WriterError::OpenFailed(reason) => {
                s.append("failed to open PDF: ");
                s.append(reason.as_str());
            },
            WriterError::PageNotFound { requested, total } => {
                s.append("page ");
                push_decimal(&mut s, *requested as u64);
                s.append(" not found in PDF (document has ");
                push_decimal(&mut s, *total as u64);
                s.append(" pages)");
            },
            WriterError::SaveFailed { path, source } => {
                s.append("failed to save PDF to ");
                s.append(path.as_str());
                s.append(": ");
                s.append(source.as_str());
            },
        }
        s
    }
}

/// The sentence for each writer error.
pub open spec fn writer_error_message(e: WriterError) -> Seq<char> {
    match e {
        WriterError::OpenFailed(reason) => "failed to open PDF: "@ + reason@,
        WriterError::PageNotFound { requested, total } => "page "@ + decimal(requested as nat)
            + " not found in PDF (document has "@ + decimal(total as nat) + " pages)"@,
        WriterError::SaveFailed { path, source } => "failed to save PDF to "@ + path@ + ": "@
            + source@,
    }
}

/// A cheap identity for a TrueType font program: byte length plus an FNV-1a
/// hash of its contents, which tells same-length font files apart.
#[derive(Debug, Clone, Copy, PartialEq, Eq, Structural)]
pub struct FontProgramFingerprint {
    pub length: usize,
    pub hash: u64,
}

impl FontProgramFingerprint {
    /// The fingerprint of a font program.
    pub fn of(bytes: &[u8]) -> (r: Self)
        ensures
            r.length == bytes@.len(),
            r.hash == fnv1a(bytes@),
    {
        let (length, hash) = fnv1a_fingerprint(bytes);
        FontProgramFingerprint { length, hash }
    }
}

/// Whether a Standard 14 font with this PDF name is symbolic (Symbol or
/// ZapfDingbats), and so keeps its built-in encoding.
pub open spec fn is_symbolic_name(pdf_name: Seq<char>) -> bool {
    pdf_name == "Symbol"@ || pdf_name == "ZapfDingbats"@
}

/// The `/Encoding` a font with this PDF name must declare so its bytes are
/// read as WinAnsi, or `None` for the two symbolic fonts, whose own built-in
/// encodings WinAnsiEncoding would override with the wrong glyphs.
pub fn win_ansi_encoding_for(pdf_name: &str) -> (r: Option<&'static str>)
    ensures
        is_symbolic_name(pdf_name@) ==> r is None,
        !is_symbolic_name(pdf_name@) ==> (r matches Some(name) && name@ == "WinAnsiEncoding"@),
{
    if str_eq(pdf_name, "Symbol") || str_eq(pdf_name, "ZapfDingbats") {
        None
    } else {
        Some("WinAnsiEncoding")
    }
}

/// Whether `pages` holds `page`.
pub open spec fn has_page(pages: Seq<u32>, page: u32) -> bool {
    exists|k: int| 0 <= k < pages.len() && pages[k] == page
}

/// Index of the first overlay whose page the document lacks.
pub open spec fn first_missing_page<F>(overlays: Seq<TextOverlay<F>>, pages: Seq<u32>) -> Option<int>
    decreases overlays.len(),
{
    if overlays.len() == 0 {
        None
    } else {
        match first_missing_page(overlays.drop_last(), pages) {
            Some(i) => Some(i),
            None => if !has_page(pages, overlays.last().page) {
                Some(overlays.len() - 1)
            } else {
                None
            },
        }
    }
}

/// Validate every overlay's page against the document's page numbers before
/// anything is changed: the first overlay on a missing page is reported with
/// the document's page count.
pub fn check_overlay_pages<F>(overlays: &[TextOverlay<F>], pages: &[u32]) -> (r: Result<(), WriterError>)
    requires
        pages@.len() <= u32::MAX,
    ensures
        match first_missing_page(overlays@, pages@) {
            None => r is Ok,
            Some(i) => (r matches Err(WriterError::PageNotFound { requested, total })
                && requested == overlays@[i].page && total == pages@.len()),
        },
{
    let mut i: usize = 0;
    while i < overlays.len()
        invariant
            i <= overlays@.len(),
            pages@.len() <= u32::MAX,
            first_missing_page(overlays@.take(i as int), pages@) is None,
        decreases overlays.len() - i,
    {
        assert(overlays@.take(i + 1).drop_last() =~= overlays@.take(i as int));
        let page = overlays[i].page;
        let mut found = false;
        let mut k: usize = 0;
        while k < pages.len()
            invariant
                k <= pages@.len(),
                found == exists|m: int| 0 <= m < k && pages@[m] == page,
            decreases pages.len() - k,
        {
            if pages[k] == page {
                found = true;
            }
            k = k + 1;
        }
        if !found {
            assert(overlays@.take(i + 1).last() == overlays@[i as int]);
            proof {
                lemma_first_missing_extends(overlays@, pages@, i as int + 1);
            }
            return Err(WriterError::PageNotFound { requested: page, total: pages.len() as u32 });
        }
        i = i + 1;
    }
    assert(overlays@.take(overlays@.len() as int) =~= overlays@);
    Ok(())
}

/// A missing page found among a prefix is the first of the whole sequence.
proof fn lemma_first_missing_extends<F>(overlays: Seq<TextOverlay<F>>, pages: Seq<u32>, n: int)
    requires
        0 <= n <= overlays.len(),
        first_missing_page(overlays.take(n), pages) is Some,
    ensures
        first_missing_page(overlays, pages) == first_missing_page(overlays.take(n), pages),
    decreases overlays.len(),
{
    if n == overlays.len() {
        assert(overlays.take(n) =~= overlays);
    } else {
        assert(overlays.drop_last().take(n) =~= overlays.take(n));
        lemma_first_missing_extends(overlays.drop_last(), pages, n);
    }
}

/// The distinct fonts of `overlays`, in first-seen order.
pub open spec fn unique_fonts<F>(overlays: Seq<TextOverlay<F>>) -> Seq<FontId>
    decreases overlays.len(),
{
    if overlays.len() == 0 {
        Seq::empty()
    } else {
        let prev = unique_fonts(overlays.drop_last());
        if prev.contains(overlays.last().font) {
            prev
        } else {
            prev.push(overlays.last().font)
        }
    }
}

/// Collect the unique font ids of a page's overlays, preserving first-seen order.
pub fn collect_unique_fonts<F>(overlays: &[&TextOverlay<F>]) -> (r: Vec<FontId>)
    ensures
        r@ == unique_fonts(overlays@.map_values(|o: &TextOverlay<F>| *o)),
{
    let ghost all = overlays@.map_values(|o: &TextOverlay<F>| *o);
    let mut out: Vec<FontId> = Vec::new();
    let mut i: usize = 0;
    while i < overlays.len()
        invariant
            i <= overlays@.len(),
            all == overlays@.map_values(|o: &TextOverlay<F>| *o),
            out@ == unique_fonts(all.take(i as int)),
        decreases overlays.len() - i,
    {
        assert(all.take(i + 1).drop_last() =~= all.take(i as int));
        let font = overlays[i].font;
        assert(all.take(i + 1).last() == *overlays@[i as int]);
        let mut seen = false;
        let mut k: usize = 0;
        while k < out.len()
            invariant
                k <= out@.len(),
                seen == exists|m: int| 0 <= m < k && out@[m] == font,
            decreases out.len() - k,
        {
            if out[k] == font {
                seen = true;
            }
            k = k + 1;
        }
        if !seen {
            out.push(font);
        }
        i = i + 1;
    }
    assert(all.take(all.len() as int) =~= all);
    out
}

/// The resource name the writer gives its `i`-th candidate font: `F_ovl_<i>`.
pub open spec fn ovl_name(i: nat) -> Seq<u8> {
    seq![70u8, 95u8, 111u8, 118u8, 108u8, 95u8] + decimal_bytes(i)
}

/// Different candidates have different names.
pub proof fn lemma_ovl_name_injective(a: nat, b: nat)
    requires
        ovl_name(a) == ovl_name(b),
    ensures
        a == b,
{
    assert(ovl_name(a).subrange(6, ovl_name(a).len() as int) =~= decimal_bytes(a));
    assert(ovl_name(b).subrange(6, ovl_name(b).len() as int) =~= decimal_bytes(b));
    lemma_decimal_bytes_injective(a, b);
}

/// Pigeonhole: when the names of candidates `0..=k` are all taken, more than
/// `k` names are taken.
pub proof fn lemma_candidates_exceed_taken(taken: Seq<Seq<u8>>, k: nat)
    requires
        forall|j: nat| j <= k ==> taken.contains(#[trigger] ovl_name(j)),
    ensures
        k < taken.len(),
{
    let xs = set_int_range(0, k as int + 1);
    let f = |j: int| ovl_name(j as nat);
    lemma_int_range(0, k as int + 1);
    assert forall|a: int, b: int| xs.contains(a) && xs.contains(b) && #[trigger] f(a) == #[trigger] f(b) implies a == b by {
        lemma_ovl_name_injective(a as nat, b as nat);
    }
    assert(vstd::relations::injective_on(f, xs));
    lemma_map_size(xs, xs.map(f), f);
    assert forall|n: Seq<u8>| xs.map(f).contains(n) implies taken.to_set().contains(n) by {
        let j = choose|j: int| xs.contains(j) && f(j) == n;
        assert(taken.contains(ovl_name(j as nat)));
    }
    taken.lemma_cardinality_of_set();
    lemma_len_subset(xs.map(f), taken.to_set());
}

/// `F_ovl_<i>` as bytes.
fn ovl_name_bytes(i: u64) -> (r: Vec<u8>)
    ensures
        r@ == ovl_name(i as nat),
{
    let mut v: Vec<u8> = vec![70u8, 95u8, 111u8, 118u8, 108u8, 95u8];
    push_decimal_bytes(&mut v, i);
    v
}

/// A copy of a byte string.
fn copy_bytes(v: &Vec<u8>) -> (r: Vec<u8>)
    ensures
        r@ == v@,
{
    let mut out: Vec<u8> = Vec::new();
    let mut i: usize = 0;
    while i < v.len()
        invariant
            i <= v@.len(),
            out@ == v@.take(i as int),
        decreases v.len() - i,
    {
        out.push(v[i]);
        assert(out@ =~= v@.take(i + 1));
        i = i + 1;
    }
    assert(v@.take(v@.len() as int) =~= v@);
    out
}

/// Whether two byte strings are equal.
fn bytes_equal(a: &[u8], b: &[u8]) -> (r: bool)
    ensures
        r == (a@ == b@),
{
    if a.len() != b.len() {
        return false;
    }
    let mut i: usize = 0;
    while i < a.len()
        invariant
            i <= a@.len(),
            a@.len() == b@.len(),
            forall|j: int| 0 <= j < i ==> a@[j] == b@[j],
        decreases a.len() - i,
    {
        if a[i] != b[i] {
            return false;
        }
        i = i + 1;
    }
    assert(a@ =~= b@);
    true
}

/// Whether `names` holds `name`.
fn holds_name(names: &Vec<Vec<u8>>, name: &Vec<u8>) -> (r: bool)
    ensures
        r == names@.map_values(|n: Vec<u8>| n@).contains(name@),
{
    let ghost views = names@.map_values(|n: Vec<u8>| n@);
    let mut i: usize = 0;
    while i < names.len()
        invariant
            i <= names@.len(),
            views == names@.map_values(|n: Vec<u8>| n@),
            forall|j: int| 0 <= j < i ==> views[j] != name@,
        decreases names.len() - i,
    {
        if bytes_equal(names[i].as_slice(), name.as_slice()) {
            assert(views[i as int] == name@);
            return true;
        }
        i = i + 1;
    }
    false
}

/// Whether candidate `i` is the first whose name is not taken.
pub open spec fn is_first_free(taken: Seq<Seq<u8>>, i: nat) -> bool {
    &&& !taken.contains(ovl_name(i))
    &&& forall|j: nat| j < i ==> taken.contains(#[trigger] ovl_name(j))
}

/// The first candidate whose name is not taken.
pub open spec fn first_free(taken: Seq<Seq<u8>>) -> nat {
    choose|i: nat| is_first_free(taken, i)
}

/// There is exactly one first free candidate.
pub proof fn lemma_first_free_unique(taken: Seq<Seq<u8>>, i: nat)
    requires
        is_first_free(taken, i),
    ensures
        first_free(taken) == i,
{
    let f = first_free(taken);
    assert(is_first_free(taken, f));
    if f < i {
        assert(taken.contains(ovl_name(f)));
    } else if i < f {
        assert(taken.contains(ovl_name(i)));
    }
}

/// The first free candidate index and its name.
fn first_free_name(taken: &Vec<Vec<u8>>) -> (r: (u64, Vec<u8>))
    ensures
        is_first_free(taken@.map_values(|n: Vec<u8>| n@), r.0 as nat),
        r.1@ == ovl_name(r.0 as nat),
{
    let ghost views = taken@.map_values(|n: Vec<u8>| n@);
    let count: usize = taken.len();
    let mut i: u64 = 0;
    loop
        invariant
            views == taken@.map_values(|n: Vec<u8>| n@),
            views.len() == count,
            i <= views.len(),
            forall|j: nat| j < i ==> views.contains(#[trigger] ovl_name(j)),
        decreases views.len() - i,
    {
        let candidate = ovl_name_bytes(i);
        if !holds_name(taken, &candidate) {
            return (i, candidate);
        }
        proof {
            assert forall|j: nat| j <= i implies views.contains(#[trigger] ovl_name(j)) by {
                if j == i {
                } else {
                    assert(j < i);
                }
            }
            lemma_candidates_exceed_taken(views, i as nat);
        }
        i = i + 1;
    }
}

/// A font the page already has, as far as reuse is concerned.
#[derive(Debug)]
pub struct PageFont {
    /// The key under the page's `/Font` resources.
    pub resource_name: Vec<u8>,
    /// Its `/BaseFont` name.
    pub base_font: Vec<u8>,
    /// Its `/Encoding`, when that is a name.
    pub encoding: Option<Vec<u8>>,
    /// The identity of its embedded TrueType program, when it has one.
    pub program: Option<FontProgramFingerprint>,
}

/// Where an overlay font's resource comes from.
#[derive(Debug)]
pub enum FontResource {
    /// Reuse the page's font under this resource name.
    Existing(Vec<u8>),
    /// Add a new font object under this fresh resource name.
    New(Vec<u8>),
}

/// `WinAnsiEncoding` as bytes.
pub open spec fn win_ansi_name() -> Seq<u8> {
    seq![87u8, 105u8, 110u8, 65u8, 110u8, 115u8, 105u8, 69u8, 110u8, 99u8, 111u8, 100u8, 105u8, 110u8, 103u8]
}

/// The `/Encoding` the overlay needs the font to declare.
pub open spec fn wanted_encoding(entry: FontEntry) -> Option<Seq<u8>> {
    if is_symbolic_name(entry.pdf_name@) {
        None
    } else {
        Some(win_ansi_name())
    }
}

/// The plain view of an optional byte string.
pub open spec fn opt_bytes(o: Option<Vec<u8>>) -> Option<Seq<u8>> {
    match o {
        Some(v) => Some(v@),
        None => None,
    }
}

/// Whether the page font can stand in for `entry`: it names the same font,
/// reads bytes the way the overlay writes them, and, for a bundled TrueType
/// font, embeds the same program.
pub open spec fn reusable(pf: PageFont, entry: FontEntry) -> bool {
    &&& pf.base_font@ == vstd::utf8::encode_utf8(entry.pdf_name@)
    &&& opt_bytes(pf.encoding) == wanted_encoding(entry)
    &&& match entry.embedding {
        PdfEmbedding::TrueType { bytes } => pf.program == Some(
            FontProgramFingerprint { length: bytes@.len() as usize, hash: fnv1a(bytes@) },
        ),
        PdfEmbedding::BuiltIn => true,
    }
}

/// Index of the first page font that can stand in for `entry`.
pub open spec fn first_reusable(fonts: Seq<PageFont>, entry: FontEntry) -> Option<int>
    decreases fonts.len(),
{
    if fonts.len() == 0 {
        None
    } else {
        match first_reusable(fonts.drop_last(), entry) {
            Some(k) => Some(k),
            None => if reusable(fonts.last(), entry) {
                Some(fonts.len() - 1)
            } else {
                None
            },
        }
    }
}

/// The plain view of a resource choice: whether it is new, and its name.
pub open spec fn resource_view(r: FontResource) -> (bool, Seq<u8>) {
    match r {
        FontResource::Existing(name) => (false, name@),
        FontResource::New(name) => (true, name@),
    }
}

/// The names of the new resources among `plan`, in order.
pub open spec fn new_names(plan: Seq<(bool, Seq<u8>)>) -> Seq<Seq<u8>>
    decreases plan.len(),
{
    if plan.len() == 0 {
        Seq::empty()
    } else if plan.last().0 {
        new_names(plan.drop_last()).push(plan.last().1)
    } else {
        new_names(plan.drop_last())
    }
}

/// The resource names already in use: the page's fonts and those planned so far.
pub open spec fn taken_names(page_fonts: Seq<PageFont>, plan: Seq<(bool, Seq<u8>)>) -> Seq<Seq<u8>> {
    page_fonts.map_values(|pf: PageFont| pf.resource_name@) + new_names(plan)
}

/// The resource choice for each of `entries`, in order: the first page font
/// that can stand in for it, or else a new font under the first free
/// `F_ovl_<i>` name.
pub open spec fn font_plan(page_fonts: Seq<PageFont>, entries: Seq<FontEntry>) -> Seq<(bool, Seq<u8>)>
    decreases entries.len(),
{
    if entries.len() == 0 {
        Seq::empty()
    } else {
        let prev = font_plan(page_fonts, entries.drop_last());
        match first_reusable(page_fonts, entries.last()) {
            Some(k) => prev.push((false, page_fonts[k].resource_name@)),
            None => prev.push((true, ovl_name(first_free(taken_names(page_fonts, prev))))),
        }
    }
}

/// The registry entry with id `id`.
pub open spec fn entry_of(fonts: Seq<FontEntry>, id: FontId) -> FontEntry {
    fonts[choose|i: int| 0 <= i < fonts.len() && fonts[i].id == id]
}

/// Which page font, if any, can stand in for `entry`.
fn find_reusable(page_fonts: &[PageFont], entry: &FontEntry) -> (r: Option<usize>)
    ensures
        r is None <==> first_reusable(page_fonts@, *entry) is None,
        r matches Some(k) ==> k < page_fonts@.len() && first_reusable(page_fonts@, *entry) == Some(k as int),
{
    let base = entry.pdf_name.as_bytes();
    let wanted = win_ansi_encoding_for(entry.pdf_name);
    let win_ansi: Vec<u8> = vec![87u8, 105u8, 110u8, 65u8, 110u8, 115u8, 105u8, 69u8, 110u8, 99u8, 111u8, 100u8, 105u8, 110u8, 103u8];
    let program = match &entry.embedding {
        PdfEmbedding::TrueType { bytes } => Some(FontProgramFingerprint::of(bytes)),
        PdfEmbedding::BuiltIn => None,
    };
    let mut i: usize = 0;
    while i < page_fonts.len()
        invariant
            i <= page_fonts@.len(),
            base@ == vstd::utf8::encode_utf8(entry.pdf_name@),
            win_ansi@ == win_ansi_name(),
            wanted is None <==> is_symbolic_name(entry.pdf_name@),
            match entry.embedding {
                PdfEmbedding::TrueType { bytes } => program == Some(
                    FontProgramFingerprint { length: bytes@.len() as usize, hash: fnv1a(bytes@) },
                ),
                PdfEmbedding::BuiltIn => program is None,
            },
            first_reusable(page_fonts@.take(i as int), *entry) is None,
        decreases page_fonts.len() - i,
    {
        assert(page_fonts@.take(i + 1).drop_last() =~= page_fonts@.take(i as int));
        let pf = &page_fonts[i];
        let same_base = bytes_equal(pf.base_font.as_slice(), base);
        let same_encoding = match (&pf.encoding, wanted) {
            (Some(enc), Some(_)) => bytes_equal(enc.as_slice(), win_ansi.as_slice()),
            (None, None) => true,
            _ => false,
        };
        let same_program = match program {
            Some(wanted_program) => match pf.program {
                Some(have) => have.length == wanted_program.length && have.hash == wanted_program.hash,
                None => false,
            },
            None => true,
        };
        if same_base && same_encoding && same_program {
            assert(reusable(page_fonts@[i as int], *entry));
            proof {
                lemma_first_reusable_extends(page_fonts@, *entry, i as int + 1);
            }
            return Some(i);
        }
        i = i + 1;
    }
    assert(page_fonts@.take(page_fonts@.len() as int) =~= page_fonts@);
    None
}

/// A reusable font found in a prefix is the first of the whole sequence.
proof fn lemma_first_reusable_extends(fonts: Seq<PageFont>, entry: FontEntry, n: int)
    requires
        0 <= n <= fonts.len(),
        first_reusable(fonts.take(n), entry) is Some,
    ensures
        first_reusable(fonts, entry) == first_reusable(fonts.take(n), entry),
    decreases fonts.len(),
{
    if n == fonts.len() {
        assert(fonts.take(n) =~= fonts);
    } else {
        assert(fonts.drop_last().take(n) =~= fonts.take(n));
        lemma_first_reusable_extends(fonts.drop_last(), entry, n);
    }
}

/// The page font `first_reusable` picks is one of the page's fonts that can
/// stand in for the entry.
proof fn lemma_first_reusable_is_reusable(fonts: Seq<PageFont>, entry: FontEntry)
    ensures
        first_reusable(fonts, entry) matches Some(k) ==> 0 <= k < fonts.len() && reusable(
            fonts[k],
            entry,
        ),
    decreases fonts.len(),
{
    if fonts.len() > 0 {
        lemma_first_reusable_is_reusable(fonts.drop_last(), entry);
        if let Some(k) = first_reusable(fonts.drop_last(), entry) {
            assert(fonts.drop_last()[k] == fonts[k]);
        }
    }
}

/// The plan holds one resource choice per entry.
proof fn lemma_font_plan_len(page_fonts: Seq<PageFont>, entries: Seq<FontEntry>)
    ensures
        font_plan(page_fonts, entries).len() == entries.len(),
    decreases entries.len(),
{
    if entries.len() > 0 {
        lemma_font_plan_len(page_fonts, entries.drop_last());
    }
}

/// A font the plan reuses for entry `i` is a font of the page that shows the
/// overlay's text as the overlay writes it: the page font under the reused
/// resource name has the entry's `/BaseFont`, declares WinAnsiEncoding
/// unless the font is symbolic (and no encoding name when it is), and, for a
/// bundled TrueType font, embeds the very program the entry carries: its
/// length and FNV-1a hash are the program's. When the page's resource names
/// are distinct, this holds of every page font under that name.
pub proof fn lemma_reused_font_matches(page_fonts: Seq<PageFont>, entries: Seq<FontEntry>, i: int)
    requires
        0 <= i < entries.len(),
        !font_plan(page_fonts, entries)[i].0,
    ensures
        exists|k: int|
            0 <= k < page_fonts.len() && #[trigger] page_fonts[k].resource_name@ == font_plan(
                page_fonts,
                entries,
            )[i].1
                && (page_fonts[k].base_font@ == vstd::utf8::encode_utf8(entries[i].pdf_name@)
                && (is_symbolic_name(entries[i].pdf_name@) ==> page_fonts[k].encoding is None)
                && (!is_symbolic_name(entries[i].pdf_name@) ==> (page_fonts[k].encoding matches Some(enc) && enc@ == win_ansi_name()))
                && (entries[i].embedding matches PdfEmbedding::TrueType { bytes } ==> (page_fonts[k].program matches Some(fp) && fp.length == bytes@.len() as usize && fp.hash == fnv1a(bytes@)))),
        (forall|a: int, b: int|
            0 <= a < b < page_fonts.len() ==> page_fonts[a].resource_name@
                != page_fonts[b].resource_name@) ==> forall|k: int|
            0 <= k < page_fonts.len() && #[trigger] page_fonts[k].resource_name@ == font_plan(
                page_fonts,
                entries,
            )[i].1 ==> (page_fonts[k].base_font@ == vstd::utf8::encode_utf8(entries[i].pdf_name@)
                && (is_symbolic_name(entries[i].pdf_name@) ==> page_fonts[k].encoding is None)
                && (!is_symbolic_name(entries[i].pdf_name@) ==> (page_fonts[k].encoding matches Some(enc) && enc@ == win_ansi_name()))
                && (entries[i].embedding matches PdfEmbedding::TrueType { bytes } ==> (page_fonts[k].program matches Some(fp) && fp.length == bytes@.len() as usize && fp.hash == fnv1a(bytes@)))),
    decreases entries.len(),
{
    let last = entries.len() - 1;
    lemma_font_plan_len(page_fonts, entries);
    lemma_font_plan_len(page_fonts, entries.drop_last());
    if i < last {
        assert(font_plan(page_fonts, entries)[i] == font_plan(page_fonts, entries.drop_last())[i]);
        assert(entries.drop_last()[i] == entries[i]);
        lemma_reused_font_matches(page_fonts, entries.drop_last(), i);
    } else {
        lemma_first_reusable_is_reusable(page_fonts, entries.last());
        match first_reusable(page_fonts, entries.last()) {
            Some(k) => {
                assert(font_plan(page_fonts, entries)[i].1 == page_fonts[k].resource_name@);
                assert((page_fonts[k].base_font@ == vstd::utf8::encode_utf8(entries[i].pdf_name@)
                    && (is_symbolic_name(entries[i].pdf_name@) ==> page_fonts[k].encoding is None)
                    && (!is_symbolic_name(entries[i].pdf_name@) ==> (page_fonts[k].encoding matches Some(enc) && enc@ == win_ansi_name()))
                    && (entries[i].embedding matches PdfEmbedding::TrueType { bytes } ==> (page_fonts[k].program matches Some(fp) && fp.length == bytes@.len() as usize && fp.hash == fnv1a(bytes@)))));
                if forall|a: int, b: int|
                    0 <= a < b < page_fonts.len() ==> page_fonts[a].resource_name@
                        != page_fonts[b].resource_name@ {
                    assert forall|k2: int|
                        0 <= k2 < page_fonts.len() && #[trigger] page_fonts[k2].resource_name@
                            == font_plan(page_fonts, entries)[i].1 implies (page_fonts[k2].base_font@ == vstd::utf8::encode_utf8(entries[i].pdf_name@)
                                && (is_symbolic_name(entries[i].pdf_name@) ==> page_fonts[k2].encoding is None)
                                && (!is_symbolic_name(entries[i].pdf_name@) ==> (page_fonts[k2].encoding matches Some(enc) && enc@ == win_ansi_name()))
                                && (entries[i].embedding matches PdfEmbedding::TrueType { bytes } ==> (page_fonts[k2].program matches Some(fp) && fp.length == bytes@.len() as usize && fp.hash == fnv1a(bytes@)))) by {
                        if k2 < k {
                            assert(page_fonts[k2].resource_name@ != page_fonts[k].resource_name@);
                        } else if k < k2 {
                            assert(page_fonts[k].resource_name@ != page_fonts[k2].resource_name@);
                        }
                    }
                }
            },
            None => {
                assert(font_plan(page_fonts, entries)[i].0);
            },
        }
    }
}

/// With distinct ids, the entry `get` returns is the entry with that id.
proof fn lemma_entry_of(fonts: Seq<FontEntry>, id: FontId, e: FontEntry)
    requires
        ids_distinct(fonts),
        e.id == id,
        fonts.contains(e),
    ensures
        entry_of(fonts, id) == e,
{
    let k = choose|k: int| 0 <= k < fonts.len() && fonts[k] == e;
    let i = choose|i: int| 0 <= i < fonts.len() && fonts[i].id == id;
    assert(fonts[k].id == id);
}

/// Map each needed font to a page font resource: reuse an existing resource
/// whose base font, encoding and (for TrueType) program all match, or plan a
/// new font object under the first free `F_ovl_<i>` name, skipping names the
/// page or earlier new fonts use.
pub fn plan_font_mapping(page_fonts: &[PageFont], needed: &[FontId], registry: &FontRegistry) -> (r: Vec<(FontId, FontResource)>)
    requires
        registry.well_formed(),
        forall|i: int| 0 <= i < needed@.len() ==> has_id(registry@, #[trigger] needed@[i]),
    ensures
        r@.len() == needed@.len(),
        forall|i: int| 0 <= i < needed@.len() ==> (#[trigger] r@[i]).0 == needed@[i],
        r@.map_values(|p: (FontId, FontResource)| resource_view(p.1)) == font_plan(
            page_fonts@,
            needed@.map_values(|id: FontId| entry_of(registry@, id)),
        ),
        forall|i: int|
            #![trigger r@[i]]
            0 <= i < r@.len() ==> (r@[i].1 matches FontResource::Existing(name) ==> exists|k: int|
                0 <= k < page_fonts@.len() && #[trigger] page_fonts@[k].resource_name@ == name@
                   
                        && (page_fonts@[k].base_font@ == vstd::utf8::encode_utf8(entry_of(registry@, needed@[i]).pdf_name@)
                        && (is_symbolic_name(entry_of(registry@, needed@[i]).pdf_name@) ==> page_fonts@[k].encoding is None)
                        && (!is_symbolic_name(entry_of(registry@, needed@[i]).pdf_name@) ==> (page_fonts@[k].encoding matches Some(enc) && enc@ == win_ansi_name()))
                        && (entry_of(registry@, needed@[i]).embedding matches PdfEmbedding::TrueType { bytes } ==> (page_fonts@[k].program matches Some(fp) && fp.length == bytes@.len() as usize && fp.hash == fnv1a(bytes@))))),
{
    let ghost entries = needed@.map_values(|id: FontId| entry_of(registry@, id));
    let mut taken: Vec<Vec<u8>> = Vec::new();
    let mut k: usize = 0;
    while k < page_fonts.len()
        invariant
            k <= page_fonts@.len(),
            taken@.len() == k,
            taken@.map_values(|n: Vec<u8>| n@) == page_fonts@.take(k as int).map_values(|pf: PageFont| pf.resource_name@),
        decreases page_fonts.len() - k,
    {
        let ghost before = taken@;
        taken.push(copy_bytes(&page_fonts[k].resource_name));
        let ghost a = taken@.map_values(|n: Vec<u8>| n@);
        let ghost b = page_fonts@.take(k + 1).map_values(|pf: PageFont| pf.resource_name@);
        let ghost a0 = before.map_values(|n: Vec<u8>| n@);
        let ghost b0 = page_fonts@.take(k as int).map_values(|pf: PageFont| pf.resource_name@);
        assert forall|j: int| 0 <= j < k + 1 implies #[trigger] a[j] == b[j] by {
            if j < k {
                assert(taken@[j] == before[j]);
                assert(a0[j] == b0[j]);
            }
        }
        assert(taken@.map_values(|n: Vec<u8>| n@) =~= page_fonts@.take(k + 1).map_values(|pf: PageFont| pf.resource_name@));
        k = k + 1;
    }
    assert(page_fonts@.take(page_fonts@.len() as int) =~= page_fonts@);
    let mut out: Vec<(FontId, FontResource)> = Vec::new();
    let mut i: usize = 0;
    while i < needed.len()
        invariant
            i <= needed@.len(),
            registry.well_formed(),
            forall|j: int| 0 <= j < needed@.len() ==> has_id(registry@, #[trigger] needed@[j]),
            entries == needed@.map_values(|id: FontId| entry_of(registry@, id)),
            out@.len() == i,
            forall|j: int| 0 <= j < i ==> (#[trigger] out@[j]).0 == needed@[j],
            out@.map_values(|p: (FontId, FontResource)| resource_view(p.1)) == font_plan(page_fonts@, entries.take(i as int)),
            taken@.map_values(|n: Vec<u8>| n@) == taken_names(page_fonts@, font_plan(page_fonts@, entries.take(i as int))),
        decreases needed.len() - i,
    {
        let id = needed[i];
        let entry = registry.get(id);
        proof {
            lemma_entry_of(registry@, id, *entry);
            assert(entries.take(i + 1).drop_last() =~= entries.take(i as int));
            assert(entries.take(i + 1).last() == *entry);
        }
        let ghost prev = font_plan(page_fonts@, entries.take(i as int));
        let ghost before_out = out@;
        let ghost before_taken = taken@;
        match find_reusable(page_fonts, entry) {
            Some(k) => {
                out.push((id, FontResource::Existing(copy_bytes(&page_fonts[k].resource_name))));
                assert(new_names(prev.push((false, page_fonts@[k as int].resource_name@))).len() >= 0);
                assert(prev.push((false, page_fonts@[k as int].resource_name@)).drop_last() =~= prev);
            },
            None => {
                let (_index, name) = first_free_name(&taken);
                proof {
                    lemma_first_free_unique(taken@.map_values(|n: Vec<u8>| n@), _index as nat);
                }
                taken.push(copy_bytes(&name));
                out.push((id, FontResource::New(name)));
                let ghost step = (true, ovl_name(_index as nat));
                assert(prev.push(step).drop_last() =~= prev);
                assert(taken@.map_values(|n: Vec<u8>| n@) =~= before_taken.map_values(|n: Vec<u8>| n@).push(ovl_name(_index as nat)));
            },
        }
        assert(out@.map_values(|p: (FontId, FontResource)| resource_view(p.1)) =~= before_out.map_values(|p: (FontId, FontResource)| resource_view(p.1)).push(resource_view(out@.last().1)));
        i = i + 1;
    }
    assert(entries.take(needed@.len() as int) =~= entries);
    proof {
        let views = out@.map_values(|p: (FontId, FontResource)| resource_view(p.1));
        assert forall|i: int|
            #![trigger out@[i]]
            0 <= i < out@.len() && out@[i].1 is Existing implies exists|k: int|
                0 <= k < page_fonts@.len() && #[trigger] page_fonts@[k].resource_name@
                    == out@[i].1->Existing_0@
                        && (page_fonts@[k].base_font@ == vstd::utf8::encode_utf8(entry_of(registry@, needed@[i]).pdf_name@)
                        && (is_symbolic_name(entry_of(registry@, needed@[i]).pdf_name@) ==> page_fonts@[k].encoding is None)
                        && (!is_symbolic_name(entry_of(registry@, needed@[i]).pdf_name@) ==> (page_fonts@[k].encoding matches Some(enc) && enc@ == win_ansi_name()))
                        && (entry_of(registry@, needed@[i]).embedding matches PdfEmbedding::TrueType { bytes } ==> (page_fonts@[k].program matches Some(fp) && fp.length == bytes@.len() as usize && fp.hash == fnv1a(bytes@)))) by {
            assert(views[i] == resource_view(out@[i].1));
            assert(entries[i] == entry_of(registry@, needed@[i]));
            lemma_reused_font_matches(page_fonts@, entries, i);
        }
    }
    out
}

/// The indices of the overlays on `page`, in order.
pub open spec fn indices_on<F>(overlays: Seq<TextOverlay<F>>, page: u32) -> Seq<usize>
    decreases overlays.len(),
{
    if overlays.len() == 0 {
        Seq::empty()
    } else {
        let prev = indices_on(overlays.drop_last(), page);
        if overlays.last().page == page {
            prev.push((overlays.len() - 1) as usize)
        } else {
            prev
        }
    }
}

/// Whether some overlay is on `page`.
pub open spec fn has_overlay_on<F>(overlays: Seq<TextOverlay<F>>, page: u32) -> bool {
    exists|i: int| 0 <= i < overlays.len() && overlays[i].page == page
}

/// The smallest overlay page that is at least `lower`, if any.
fn next_page_from<F>(overlays: &[TextOverlay<F>], lower: u64) -> (r: Option<u32>)
    ensures
        r matches Some(p) ==> p >= lower && has_overlay_on(overlays@, p)
            && forall|i: int| 0 <= i < overlays@.len() && overlays@[i].page >= lower ==> p <= overlays@[i].page,
        r is None ==> forall|i: int| 0 <= i < overlays@.len() ==> overlays@[i].page < lower,
{
    let mut best: Option<u32> = None;
    let mut i: usize = 0;
    while i < overlays.len()
        invariant
            i <= overlays@.len(),
            best matches Some(p) ==> p >= lower && has_overlay_on(overlays@, p)
                && forall|j: int| 0 <= j < i && overlays@[j].page >= lower ==> p <= overlays@[j].page,
            best is None ==> forall|j: int| 0 <= j < i ==> overlays@[j].page < lower,
        decreases overlays.len() - i,
    {
        let page = overlays[i].page;
        if page as u64 >= lower {
            match best {
                Some(p) => {
                    if page < p {
                        best = Some(page);
                    }
                },
                None => {
                    best = Some(page);
                },
            }
        }
        i = i + 1;
    }
    best
}

/// The indices of the overlays on `page`, in order.
fn collect_indices_on<F>(overlays: &[TextOverlay<F>], page: u32) -> (r: Vec<usize>)
    ensures
        r@ == indices_on(overlays@, page),
{
    let mut out: Vec<usize> = Vec::new();
    let mut i: usize = 0;
    while i < overlays.len()
        invariant
            i <= overlays@.len(),
            out@ == indices_on(overlays@.take(i as int), page),
        decreases overlays.len() - i,
    {
        assert(overlays@.take(i + 1).drop_last() =~= overlays@.take(i as int));
        if overlays[i].page == page {
            out.push(i);
        }
        i = i + 1;
    }
    assert(overlays@.take(overlays@.len() as int) =~= overlays@);
    out
}

/// Group overlays by page so each page gets a single content stream: one
/// group per page that has overlays, in ascending page order, each listing
/// the indices of its overlays in their original order.
pub fn group_by_page<F>(overlays: &[TextOverlay<F>]) -> (r: Vec<(u32, Vec<usize>)>)
    ensures
        forall|a: int, b: int| 0 <= a < b < r@.len() ==> r@[a].0 < r@[b].0,
        forall|p: u32| has_overlay_on(overlays@, p) <==> exists|a: int| 0 <= a < r@.len() && r@[a].0 == p,
        forall|a: int| 0 <= a < r@.len() ==> (#[trigger] r@[a]).1@ == indices_on(overlays@, r@[a].0),
{
    let mut groups: Vec<(u32, Vec<usize>)> = Vec::new();
    let mut lower: u64 = 0;
    loop
        invariant
            lower <= 0x1_0000_0000,
            forall|a: int, b: int| 0 <= a < b < groups@.len() ==> groups@[a].0 < groups@[b].0,
            forall|a: int| 0 <= a < groups@.len() ==> (#[trigger] groups@[a]).0 < lower,
            forall|p: u32| p < lower ==> (has_overlay_on(overlays@, p) <==> exists|a: int| 0 <= a < groups@.len() && groups@[a].0 == p),
            forall|a: int| 0 <= a < groups@.len() ==> has_overlay_on(overlays@, (#[trigger] groups@[a]).0),
            forall|a: int| 0 <= a < groups@.len() ==> (#[trigger] groups@[a]).1@ == indices_on(overlays@, groups@[a].0),
        decreases 0x1_0000_0000 - lower,
    {
        match next_page_from(overlays, lower) {
            None => {
                return groups;
            },
            Some(p) => {
                let indices = collect_indices_on(overlays, p);
                let ghost before = groups@;
                groups.push((p, indices));
                assert forall|q: u32| q < p as u64 + 1 implies (has_overlay_on(overlays@, q) <==> exists|a: int| 0 <= a < groups@.len() && groups@[a].0 == q) by {
                    if q < lower {
                        if exists|a: int| 0 <= a < before.len() && before[a].0 == q {
                            let a = choose|a: int| 0 <= a < before.len() && before[a].0 == q;
                            assert(groups@[a] == before[a]);
                        }
                    } else if q < p {
                        if has_overlay_on(overlays@, q) {
                            let i = choose|i: int| 0 <= i < overlays@.len() && overlays@[i].page == q;
                        }
                    } else {
                        assert(groups@[before.len() as int].0 == p);
                    }
                }
                lower = p as u64 + 1;
            },
        }
    }
}

/// How a page's overlay content joins the page.
#[derive(Debug)]
pub enum ContentLayout {
    /// The page has no content of its own: the overlay stream is its content.
    Alone { stream: Vec<u8> },
    /// The page's own content is wrapped in `q`/`Q`: a `q` stream goes before
    /// it and the overlay stream, opening with `Q`, after it.
    Wrapped { prefix: Vec<u8>, overlay: Vec<u8> },
}

/// The bytes of the stream placed before the page's own content: `q\n`.
pub open spec fn q_prefix() -> Seq<u8> {
    seq![113u8, 10u8]
}

/// The bytes opening the overlay stream after the page's own content:
/// `\nQ\n`. The leading newline keeps `Q` from merging with the last token of
/// the content before it when readers concatenate the streams.
pub open spec fn q_restore() -> Seq<u8> {
    seq![10u8, 81u8, 10u8]
}

/// Plan how overlay content `content` joins a page. Existing page content is
/// wrapped so graphics state it leaves active cannot affect the overlay.
pub fn layout_overlay_content(has_own_content: bool, content: Vec<u8>) -> (r: ContentLayout)
    ensures
        !has_own_content ==> (r matches ContentLayout::Alone { stream } && stream@ == content@),
        has_own_content ==> (r matches ContentLayout::Wrapped { prefix, overlay } && prefix@ == q_prefix()
            && overlay@ == q_restore() + content@),
{
    if !has_own_content {
        ContentLayout::Alone { stream: content }
    } else {
        let prefix: Vec<u8> = vec![113u8, 10u8];
        let mut overlay: Vec<u8> = vec![10u8, 81u8, 10u8];
        let mut i: usize = 0;
        while i < content.len()
            invariant
                i <= content@.len(),
                overlay@ == q_restore() + content@.take(i as int),
            decreases content.len() - i,
        {
            overlay.push(content[i]);
            assert(overlay@ =~= q_restore() + content@.take(i + 1));
            i = i + 1;
        }
        assert(content@.take(content@.len() as int) =~= content@);
        ContentLayout::Wrapped { prefix, overlay }
    }
}

/// The fingerprint of a byte string.
pub open spec fn fingerprint_of(bytes: Seq<u8>) -> StreamFingerprint {
    StreamFingerprint { length: bytes.len() as usize, hash: fnv1a(bytes) }
}

/// The metadata record of the streams a layout adds to `page`.
pub fn page_streams_for(page: u32, layout: &ContentLayout) -> (r: PageStreams)
    ensures
        r.page == page,
        match *layout {
            ContentLayout::Alone { stream } => r.overlay == fingerprint_of(stream@) && r.prefix is None,
            ContentLayout::Wrapped { prefix, overlay } => r.overlay == fingerprint_of(overlay@)
                && r.prefix == Some(fingerprint_of(prefix@)),
        },
{
    match layout {
        ContentLayout::Alone { stream } => PageStreams {
            page,
            overlay: StreamFingerprint::of(stream.as_slice()),
            prefix: None,
        },
        ContentLayout::Wrapped { prefix, overlay } => PageStreams {
            page,
            overlay: StreamFingerprint::of(overlay.as_slice()),
            prefix: Some(StreamFingerprint::of(prefix.as_slice())),
        },
    }
}

} // verus!
