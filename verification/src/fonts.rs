//! Font identity and lookup: the registry of fonts an overlay can name, each
//! with its display name, PDF `/BaseFont` name and how the writer embeds it.
//! Glyph metrics live beside the registry, keyed by [`FontId`].

use vstd::prelude::*;

use crate::text::str_eq;

verus! {

/// Lightweight font identifier. Stored in overlays, messages, undo commands.
#[derive(Debug, Clone, Copy, PartialEq, Eq, Hash, Default, Structural)]
pub struct FontId(pub u16);

/// How the PDF writer should handle a font.
#[derive(Debug)]
pub enum PdfEmbedding {
    /// Standard 14 font: referenced by name, no embedding needed.
    BuiltIn,
    /// Bundled TrueType: the full font program is embedded in the PDF.
    TrueType { bytes: &'static [u8] },
}

/// A registered font: identity, names and embedding.
#[derive(Debug)]
pub struct FontEntry {
    pub id: FontId,
    /// Human-readable name shown in the UI (e.g. "Helvetica Bold").
    pub display_name: &'static str,
    /// Name used in the PDF content stream (e.g. "Helvetica-Bold").
    pub pdf_name: &'static str,
    /// How the PDF writer should handle this font.
    pub embedding: PdfEmbedding,
}

/// Whether `embedding` embeds the TrueType program `program`.
pub open spec fn embeds_program(embedding: PdfEmbedding, program: Seq<u8>) -> bool {
    match embedding {
        PdfEmbedding::TrueType { bytes } => bytes@ == program,
        PdfEmbedding::BuiltIn => false,
    }
}

/// Whether `name` is the display name or the PDF name of `entry`.
pub open spec fn names(entry: FontEntry, name: Seq<char>) -> bool {
    entry.display_name@ == name || entry.pdf_name@ == name
}

/// Whether every entry of `fonts` carries a different id.
pub open spec fn ids_distinct(fonts: Seq<FontEntry>) -> bool {
    forall|i: int, j: int| 0 <= i < fonts.len() && 0 <= j < fonts.len() && i != j
        ==> fonts[i].id != fonts[j].id
}

/// Whether some entry of `fonts` has id `id`.
pub open spec fn has_id(fonts: Seq<FontEntry>, id: FontId) -> bool {
    exists|i: int| 0 <= i < fonts.len() && fonts[i].id == id
}

/// The largest id number among `fonts`, or 0 when there are none.
pub open spec fn max_id(fonts: Seq<FontEntry>) -> nat
    decreases fonts.len(),
{
    if fonts.len() == 0 {
        0
    } else {
        let rest = max_id(fonts.drop_last());
        if fonts.last().id.0 > rest {
            fonts.last().id.0 as nat
        } else {
            rest
        }
    }
}

/// Index of the first entry of `fonts` that `name` names, if any.
pub open spec fn first_named(fonts: Seq<FontEntry>, name: Seq<char>) -> Option<int>
    decreases fonts.len(),
{
    if fonts.len() == 0 {
        None
    } else {
        match first_named(fonts.drop_last(), name) {
            Some(i) => Some(i),
            None => if names(fonts.last(), name) {
                Some(fonts.len() - 1)
            } else {
                None
            },
        }
    }
}

/// Whether each font's display name finds that font: no earlier entry has a
/// display name or PDF name equal to a later entry's display name.
pub open spec fn display_names_resolve(fonts: Seq<FontEntry>) -> bool {
    forall|i: int, j: int| 0 <= j < i < fonts.len() ==> !names(#[trigger] fonts[j], #[trigger] fonts[i].display_name@)
}

/// Under [`display_names_resolve`], looking up an entry's display name finds
/// that entry.
pub proof fn lemma_display_name_finds_entry(fonts: Seq<FontEntry>, i: int)
    requires
        display_names_resolve(fonts),
        0 <= i < fonts.len(),
    ensures
        first_named(fonts, fonts[i].display_name@) == Some(i),
    decreases fonts.len(),
{
    let name = fonts[i].display_name@;
    if i == fonts.len() - 1 {
        lemma_no_earlier_name(fonts.drop_last(), name);
    } else {
        assert forall|a: int, b: int| 0 <= b < a < fonts.drop_last().len() implies !names(#[trigger] fonts.drop_last()[b], #[trigger] fonts.drop_last()[a].display_name@) by {
            assert(fonts.drop_last()[b] == fonts[b]);
            assert(fonts.drop_last()[a] == fonts[a]);
        }
        lemma_display_name_finds_entry(fonts.drop_last(), i);
    }
}

/// No match for a name none of the entries carries.
proof fn lemma_no_earlier_name(fonts: Seq<FontEntry>, name: Seq<char>)
    requires
        forall|j: int| 0 <= j < fonts.len() ==> !names(#[trigger] fonts[j], name),
    ensures
        first_named(fonts, name) is None,
    decreases fonts.len(),
{
    if fonts.len() > 0 {
        assert forall|j: int| 0 <= j < fonts.drop_last().len() implies !names(#[trigger] fonts.drop_last()[j], name) by {
            assert(fonts.drop_last()[j] == fonts[j]);
        }
        lemma_no_earlier_name(fonts.drop_last(), name);
    }
}

/// Holds all known fonts. The Standard 14 are always present, Helvetica first.
#[derive(Debug)]
pub struct FontRegistry {
    fonts: Vec<FontEntry>,
}

impl View for FontRegistry {
    type V = Seq<FontEntry>;

    closed spec fn view(&self) -> Seq<FontEntry> {
        self.fonts@
    }
}

/// Display name and PDF name of Standard 14 font number `i`, `i < 14`.
pub open spec fn standard_name(i: usize) -> (Seq<char>, Seq<char>) {
    match i {
        0 => ("Helvetica"@, "Helvetica"@),
        1 => ("Helvetica Bold"@, "Helvetica-Bold"@),
        2 => ("Helvetica Oblique"@, "Helvetica-Oblique"@),
        3 => ("Helvetica Bold Oblique"@, "Helvetica-BoldOblique"@),
        4 => ("Times Roman"@, "Times-Roman"@),
        5 => ("Times Bold"@, "Times-Bold"@),
        6 => ("Times Italic"@, "Times-Italic"@),
        7 => ("Times Bold Italic"@, "Times-BoldItalic"@),
        8 => ("Courier"@, "Courier"@),
        9 => ("Courier Bold"@, "Courier-Bold"@),
        10 => ("Courier Oblique"@, "Courier-Oblique"@),
        11 => ("Courier Bold Oblique"@, "Courier-BoldOblique"@),
        12 => ("Symbol"@, "Symbol"@),
        13 => ("Zapf Dingbats"@, "ZapfDingbats"@),
        _ => (Seq::empty(), Seq::empty()),
    }
}

/// Display name and PDF name of Standard 14 font number `i`.
fn standard_name_exec(i: usize) -> (r: (&'static str, &'static str))
    requires
        i < 14,
    ensures
        r.0@ == standard_name(i).0,
        r.1@ == standard_name(i).1,
{
    match i {
        0 => ("Helvetica", "Helvetica"),
        1 => ("Helvetica Bold", "Helvetica-Bold"),
        2 => ("Helvetica Oblique", "Helvetica-Oblique"),
        3 => ("Helvetica Bold Oblique", "Helvetica-BoldOblique"),
        4 => ("Times Roman", "Times-Roman"),
        5 => ("Times Bold", "Times-Bold"),
        6 => ("Times Italic", "Times-Italic"),
        7 => ("Times Bold Italic", "Times-BoldItalic"),
        8 => ("Courier", "Courier"),
        9 => ("Courier Bold", "Courier-Bold"),
        10 => ("Courier Oblique", "Courier-Oblique"),
        11 => ("Courier Bold Oblique", "Courier-BoldOblique"),
        12 => ("Symbol", "Symbol"),
        13 => ("Zapf Dingbats", "ZapfDingbats"),
        _ => ("", ""),
    }
}

/// The number of TrueType script fonts bundled beside the Standard 14.
pub const BUNDLED_FONT_COUNT: usize = 4;

/// Display name and PDF name of bundled font number `i`, `i < 4`, in the
/// order they are registered after the Standard 14.
pub open spec fn bundled_name(i: usize) -> (Seq<char>, Seq<char>) {
    match i {
        0 => ("Great Vibes"@, "GreatVibes-Regular"@),
        1 => ("Dancing Script"@, "DancingScript-Regular"@),
        2 => ("Pinyon Script"@, "PinyonScript-Regular"@),
        3 => ("Pacifico"@, "Pacifico-Regular"@),
        _ => (Seq::empty(), Seq::empty()),
    }
}

/// Display name and PDF name of bundled font number `i`.
fn bundled_name_exec(i: usize) -> (r: (&'static str, &'static str))
    requires
        i < 4,
    ensures
        r.0@ == bundled_name(i).0,
        r.1@ == bundled_name(i).1,
{
    match i {
        0 => ("Great Vibes", "GreatVibes-Regular"),
        1 => ("Dancing Script", "DancingScript-Regular"),
        2 => ("Pinyon Script", "PinyonScript-Regular"),
        3 => ("Pacifico", "Pacifico-Regular"),
        _ => ("", ""),
    }
}

/// Display name and PDF name of font number `i` of a registry holding the
/// Standard 14 followed by the bundled fonts.
pub open spec fn registry_name(i: usize) -> (Seq<char>, Seq<char>) {
    if i < 14 {
        standard_name(i)
    } else {
        bundled_name((i - 14) as usize)
    }
}

/// No bundled display name equals the display or PDF name of a font
/// registered before it.
proof fn lemma_bundled_names_distinct()
    ensures
        forall|a: usize, b: usize| #![trigger registry_name(a), registry_name(b)] b < a < 18 && 14 <= a ==> registry_name(a).0 != registry_name(b).0
            && registry_name(a).0 != registry_name(b).1,
{
    reveal_strlit("Courier");
    reveal_strlit("Courier Bold");
    reveal_strlit("Courier Bold Oblique");
    reveal_strlit("Courier Oblique");
    reveal_strlit("Courier-Bold");
    reveal_strlit("Courier-BoldOblique");
    reveal_strlit("Courier-Oblique");
    reveal_strlit("Helvetica");
    reveal_strlit("Helvetica Bold");
    reveal_strlit("Helvetica Bold Oblique");
    reveal_strlit("Helvetica Oblique");
    reveal_strlit("Helvetica-Bold");
    reveal_strlit("Helvetica-BoldOblique");
    reveal_strlit("Helvetica-Oblique");
    reveal_strlit("Symbol");
    reveal_strlit("Times Bold");
    reveal_strlit("Times Bold Italic");
    reveal_strlit("Times Italic");
    reveal_strlit("Times Roman");
    reveal_strlit("Times-Bold");
    reveal_strlit("Times-BoldItalic");
    reveal_strlit("Times-Italic");
    reveal_strlit("Times-Roman");
    reveal_strlit("Zapf Dingbats");
    reveal_strlit("ZapfDingbats");
    reveal_strlit("Great Vibes");
    reveal_strlit("GreatVibes-Regular");
    reveal_strlit("Dancing Script");
    reveal_strlit("DancingScript-Regular");
    reveal_strlit("Pinyon Script");
    reveal_strlit("PinyonScript-Regular");
    reveal_strlit("Pacifico");
    reveal_strlit("Pacifico-Regular");
    assert forall|a: usize, b: usize| #![trigger registry_name(a), registry_name(b)] b < a < 18 && 14 <= a implies registry_name(a).0 != registry_name(b).0
        && registry_name(a).0 != registry_name(b).1 by {
        let x = registry_name(a).0;
        let y = registry_name(b);
        if x == y.0 || x == y.1 {
            assert(x.len() == y.0.len() || x.len() == y.1.len());
            assert(x[0] == y.0[0] || x[0] == y.1[0]);
        }
    }
}

/// No Standard 14 display name equals an earlier font's display or PDF name.
proof fn lemma_standard_names_distinct()
    ensures
        forall|a: usize, b: usize| #![trigger standard_name(a), standard_name(b)] b < a < 14 ==> standard_name(a).0 != standard_name(b).0
            && standard_name(a).0 != standard_name(b).1,
{
    reveal_strlit("Courier");
    reveal_strlit("Courier Bold");
    reveal_strlit("Courier Bold Oblique");
    reveal_strlit("Courier Oblique");
    reveal_strlit("Courier-Bold");
    reveal_strlit("Courier-BoldOblique");
    reveal_strlit("Courier-Oblique");
    reveal_strlit("Helvetica");
    reveal_strlit("Helvetica Bold");
    reveal_strlit("Helvetica Bold Oblique");
    reveal_strlit("Helvetica Oblique");
    reveal_strlit("Helvetica-Bold");
    reveal_strlit("Helvetica-BoldOblique");
    reveal_strlit("Helvetica-Oblique");
    reveal_strlit("Symbol");
    reveal_strlit("Times Bold");
    reveal_strlit("Times Bold Italic");
    reveal_strlit("Times Italic");
    reveal_strlit("Times Roman");
    reveal_strlit("Times-Bold");
    reveal_strlit("Times-BoldItalic");
    reveal_strlit("Times-Italic");
    reveal_strlit("Times-Roman");
    reveal_strlit("Zapf Dingbats");
    reveal_strlit("ZapfDingbats");
    assert forall|a: usize, b: usize| #![trigger standard_name(a), standard_name(b)] b < a < 14 implies standard_name(a).0 != standard_name(b).0
        && standard_name(a).0 != standard_name(b).1 by {
        let x = standard_name(a).0;
        let y = standard_name(b);
        if x == y.0 || x == y.1 {
            assert(x.len() == y.0.len() || x.len() == y.1.len());
            assert(x[0] == y.0[0] || x[0] == y.1[0]);
        }
    }
}

/// A Standard 14 entry.
fn built_in(id: u16, display_name: &'static str, pdf_name: &'static str) -> (r: FontEntry)
    ensures
        r.id == FontId(id),
        r.display_name@ == display_name@,
        r.pdf_name@ == pdf_name@,
        r.embedding is BuiltIn,
{
    FontEntry { id: FontId(id), display_name, pdf_name, embedding: PdfEmbedding::BuiltIn }
}

impl FontRegistry {
    /// Every registry holds at least one font and gives each a different id.
    pub open spec fn well_formed(&self) -> bool {
        &&& self@.len() > 0
        &&& ids_distinct(self@)
    }

    /// Build a registry holding only the 14 Standard PDF fonts, with ids 0 to
    /// 13 in the order Helvetica, Times, Courier, Symbol, Zapf Dingbats
    /// families: the registry before the bundled fonts are added.
    pub fn standard() -> (r: Self)
        ensures
            r.well_formed(),
            r@.len() == 14,
            forall|i: int| 0 <= i < 14 ==> #[trigger] r@[i].id == FontId(i as u16),
            forall|i: int| 0 <= i < 14 ==> #[trigger] r@[i].embedding is BuiltIn,
            forall|i: int|
                #![trigger r@[i]]
                0 <= i < 14 ==> r@[i].display_name@ == standard_name(i as usize).0
                    && r@[i].pdf_name@ == standard_name(i as usize).1,
            r@[0].display_name@ == "Helvetica"@,
            r@[0].pdf_name@ == "Helvetica"@,
            display_names_resolve(r@),
    {
        let mut fonts: Vec<FontEntry> = Vec::new();
        let mut i: usize = 0;
        while i < 14
            invariant
                i <= 14,
                fonts@.len() == i,
                forall|k: int| 0 <= k < i ==> #[trigger] fonts@[k].id == FontId(k as u16),
                forall|k: int| 0 <= k < i ==> #[trigger] fonts@[k].embedding is BuiltIn,
                forall|k: int| 0 <= k < i ==> #[trigger] fonts@[k].display_name@ == standard_name(k as usize).0,
                forall|k: int| 0 <= k < i ==> #[trigger] fonts@[k].pdf_name@ == standard_name(k as usize).1,
            decreases 14 - i,
        {
            let (display_name, pdf_name) = standard_name_exec(i);
            fonts.push(built_in(i as u16, display_name, pdf_name));
            i = i + 1;
        }
        proof {
            lemma_standard_names_distinct();
            reveal_strlit("Helvetica");
            assert forall|a: int, b: int| 0 <= b < a < fonts@.len() implies !names(#[trigger] fonts@[b], #[trigger] fonts@[a].display_name@) by {
                assert(standard_name(a as usize).0 != standard_name(b as usize).0);
                assert(standard_name(a as usize).0 != standard_name(b as usize).1);
            }
        }
        FontRegistry { fonts }
    }

    /// Build the registry: the 14 Standard PDF fonts, as
    /// [`FontRegistry::standard`] holds them, followed by the bundled script
    /// fonts with ids 14 to 17, in the order of [`bundled_name`]; `programs`
    /// holds their TrueType programs in that order, which the writer embeds.
    pub fn new(programs: [&'static [u8]; 4]) -> (r: Self)
        ensures
            r.well_formed(),
            r@.len() == 18,
            forall|i: int| 0 <= i < 18 ==> #[trigger] r@[i].id == FontId(i as u16),
            forall|i: int|
                #![trigger r@[i]]
                0 <= i < 18 ==> r@[i].display_name@ == registry_name(i as usize).0
                    && r@[i].pdf_name@ == registry_name(i as usize).1,
            forall|i: int| 0 <= i < 14 ==> #[trigger] r@[i].embedding is BuiltIn,
            forall|i: int|
                14 <= i < 18 ==> embeds_program(#[trigger] r@[i].embedding, programs@[i - 14]@),
            display_names_resolve(r@),
    {
        let mut r = Self::standard();
        let ghost standard = r@;
        let mut k: usize = 0;
        while k < BUNDLED_FONT_COUNT
            invariant
                k <= 4,
                r@.len() == 14 + k,
                r@.subrange(0, 14) == standard,
                forall|i: int| 0 <= i < 14 ==> #[trigger] standard[i].id == FontId(i as u16),
                forall|i: int| 0 <= i < 14 ==> #[trigger] standard[i].embedding is BuiltIn,
                forall|i: int|
                    0 <= i < 14 ==> #[trigger] standard[i].display_name@ == standard_name(
                        i as usize,
                    ).0 && standard[i].pdf_name@ == standard_name(i as usize).1,
                display_names_resolve(standard),
                forall|i: int| 14 <= i < 14 + k ==> #[trigger] r@[i].id == FontId(i as u16),
                forall|i: int|
                    14 <= i < 14 + k ==> #[trigger] r@[i].display_name@ == bundled_name(
                        (i - 14) as usize,
                    ).0 && r@[i].pdf_name@ == bundled_name((i - 14) as usize).1,
                forall|i: int|
                    14 <= i < 14 + k ==> embeds_program(
                        #[trigger] r@[i].embedding,
                        programs@[i - 14]@,
                    ),
            decreases 4 - k,
        {
            let (display_name, pdf_name) = bundled_name_exec(k);
            let ghost before = r@;
            let entry = FontEntry {
                id: FontId((14 + k) as u16),
                display_name,
                pdf_name,
                embedding: PdfEmbedding::TrueType { bytes: programs[k] },
            };
            r.fonts.push(entry);
            assert(r@ == before.push(entry));
            assert(r@.subrange(0, 14) =~= before.subrange(0, 14));
            assert(r@[14 + k as int] == entry);
            k = k + 1;
        }
        proof {
            let fonts = r@;
            assert forall|i: int| 0 <= i < 14 implies fonts[i] == #[trigger] standard[i] by {
                assert(fonts.subrange(0, 14)[i] == fonts[i]);
            }
            assert forall|i: int|
                0 <= i < 18 implies #[trigger] fonts[i].display_name@ == registry_name(i as usize).0
                && fonts[i].pdf_name@ == registry_name(i as usize).1 by {
                if i < 14 {
                    assert(fonts[i] == standard[i]);
                    assert(standard[i].display_name@ == standard_name(i as usize).0);
                } else {
                    assert(fonts[i].display_name@ == bundled_name((i - 14) as usize).0);
                }
            }
            assert forall|i: int| 0 <= i < 18 implies #[trigger] fonts[i].id == FontId(i as u16) by {
                if i < 14 {
                    assert(fonts[i] == standard[i]);
                }
            }
            assert forall|i: int| 0 <= i < 14 implies #[trigger] fonts[i].embedding is BuiltIn by {
                assert(fonts[i] == standard[i]);
            }
            lemma_bundled_names_distinct();
            assert forall|a: int, b: int| 0 <= b < a < fonts.len() implies !names(#[trigger] fonts[b], #[trigger] fonts[a].display_name@) by {
                if a < 14 {
                    assert(fonts[a] == standard[a]);
                    assert(fonts[b] == standard[b]);
                    assert(!names(standard[b], standard[a].display_name@));
                } else {
                    assert(fonts[a].display_name@ == registry_name(a as usize).0);
                    assert(fonts[b].display_name@ == registry_name(b as usize).0);
                    assert(fonts[b].pdf_name@ == registry_name(b as usize).1);
                    assert(registry_name(a as usize).0 != registry_name(b as usize).0);
                    assert(registry_name(a as usize).0 != registry_name(b as usize).1);
                }
            }
            assert forall|a: int, b: int| 0 <= a < fonts.len() && 0 <= b < fonts.len() && a != b implies fonts[a].id != fonts[b].id by {
                assert(fonts[a].id == FontId(a as u16));
                assert(fonts[b].id == FontId(b as u16));
            }
        }
        r
    }

    /// All registered fonts in order.
    pub fn all(&self) -> (r: &[FontEntry])
        ensures
            r@ == self@,
    {
        self.fonts.as_slice()
    }

    /// The entry with id `id`, which must be registered.
    pub fn get(&self, id: FontId) -> (r: &FontEntry)
        requires
            self.well_formed(),
            has_id(self@, id),
        ensures
            r.id == id,
            self@.contains(*r),
    {
        let mut i: usize = 0;
        while i < self.fonts.len()
            invariant
                i <= self.fonts@.len(),
                has_id(self.fonts@, id),
                forall|j: int| 0 <= j < i ==> self.fonts@[j].id != id,
            decreases self.fonts.len() - i,
        {
            if self.fonts[i].id == id {
                return &self.fonts[i];
            }
            i = i + 1;
        }
        assert(false);
        &self.fonts[0]
    }

    /// The id of the default font, the first registered (Helvetica).
    pub fn default_font(&self) -> (r: FontId)
        requires
            self.well_formed(),
        ensures
            r == self@[0].id,
            has_id(self@, r),
    {
        self.fonts[0].id
    }

    /// Register an additional font entry under a fresh id, one above the
    /// largest id in use, and return that id. The entry's own `id` field is
    /// overwritten.
    pub fn add_entry(&mut self, entry: FontEntry) -> (r: FontId)
        requires
            old(self).well_formed(),
            max_id(old(self)@) < u16::MAX,
        ensures
            final(self).well_formed(),
            r.0 == max_id(old(self)@) + 1,
            final(self)@ == old(self)@.push(FontEntry { id: r, ..entry }),
    {
        let mut next: u16 = 0;
        let mut i: usize = 0;
        while i < self.fonts.len()
            invariant
                i <= self.fonts@.len(),
                next == max_id(self.fonts@.take(i as int)),
                max_id(self.fonts@) < u16::MAX,
            decreases self.fonts.len() - i,
        {
            proof {
                lemma_max_id_prefix(self.fonts@, i as int + 1);
            }
            assert(self.fonts@.take(i + 1).drop_last() =~= self.fonts@.take(i as int));
            if self.fonts[i].id.0 > next {
                next = self.fonts[i].id.0;
            }
            i = i + 1;
        }
        assert(self.fonts@.take(self.fonts@.len() as int) =~= self.fonts@);
        let id = FontId(next + 1);
        proof {
            lemma_max_id_bounds(self.fonts@);
        }
        let mut entry = entry;
        entry.id = id;
        self.fonts.push(entry);
        id
    }

    /// Find a font by display name or PDF name: the first entry either names.
    pub fn find_by_name(&self, name: &str) -> (r: Option<FontId>)
        ensures
            r == (match first_named(self@, name@) {
                Some(i) => Some(self@[i].id),
                None => None::<FontId>,
            }),
    {
        let mut i: usize = 0;
        while i < self.fonts.len()
            invariant
                i <= self.fonts@.len(),
                first_named(self.fonts@.take(i as int), name@) is None,
            decreases self.fonts.len() - i,
        {
            proof {
                lemma_first_named_prefix(self.fonts@, name@, i as int + 1);
            }
            assert(self.fonts@.take(i + 1).drop_last() =~= self.fonts@.take(i as int));
            if str_eq(self.fonts[i].display_name, name) || str_eq(self.fonts[i].pdf_name, name) {
                proof {
                    lemma_first_named_extends(self.fonts@, name@, i as int + 1);
                }
                return Some(self.fonts[i].id);
            }
            i = i + 1;
        }
        assert(self.fonts@.take(self.fonts@.len() as int) =~= self.fonts@);
        None
    }
}

/// Every id among `fonts` is at most `max_id(fonts)`.
pub proof fn lemma_max_id_bounds(fonts: Seq<FontEntry>)
    ensures
        forall|i: int| 0 <= i < fonts.len() ==> fonts[i].id.0 <= max_id(fonts),
    decreases fonts.len(),
{
    if fonts.len() > 0 {
        lemma_max_id_bounds(fonts.drop_last());
        assert forall|i: int| 0 <= i < fonts.len() implies fonts[i].id.0 <= max_id(fonts) by {
            if i < fonts.len() - 1 {
                assert(fonts.drop_last()[i] == fonts[i]);
            }
        }
    }
}

/// Unfolding `max_id` over a prefix one entry longer.
proof fn lemma_max_id_prefix(fonts: Seq<FontEntry>, n: int)
    requires
        0 < n <= fonts.len(),
    ensures
        max_id(fonts.take(n)) == if fonts[n - 1].id.0 > max_id(fonts.take(n - 1)) {
            fonts[n - 1].id.0 as nat
        } else {
            max_id(fonts.take(n - 1))
        },
        max_id(fonts.take(n)) <= max_id(fonts),
    decreases fonts.len() - n,
{
    assert(fonts.take(n).drop_last() =~= fonts.take(n - 1));
    if n < fonts.len() {
        lemma_max_id_prefix(fonts, n + 1);
    } else {
        assert(fonts.take(n) =~= fonts);
    }
}

/// Unfolding `first_named` over a prefix one entry longer.
proof fn lemma_first_named_prefix(fonts: Seq<FontEntry>, name: Seq<char>, n: int)
    requires
        0 < n <= fonts.len(),
    ensures
        first_named(fonts.take(n - 1), name) is None ==> first_named(fonts.take(n), name) == (if names(fonts[n - 1], name) {
            Some(n - 1)
        } else {
            None::<int>
        }),
{
    assert(fonts.take(n).drop_last() =~= fonts.take(n - 1));
}

/// A match found in a prefix is the first match of the whole sequence.
proof fn lemma_first_named_extends(fonts: Seq<FontEntry>, name: Seq<char>, n: int)
    requires
        0 <= n <= fonts.len(),
        first_named(fonts.take(n), name) is Some,
    ensures
        first_named(fonts, name) == first_named(fonts.take(n), name),
    decreases fonts.len(),
{
    if n == fonts.len() {
        assert(fonts.take(n) =~= fonts);
    } else {
        assert(fonts.drop_last().take(n) =~= fonts.take(n));
        lemma_first_named_extends(fonts.drop_last(), name, n);
    }
}

/// The `/Flags` value for a text font (PDF 32000-1 Table 123): Nonsymbolic
/// (32) always, plus Italic (64) for an italic face. These fonts are read
/// through `/Encoding`, which a reader ignores for a font it takes as symbolic.
pub fn descriptor_flags(is_italic: bool) -> (r: i64)
    ensures
        r == if is_italic { 96i64 } else { 32i64 },
{
    if is_italic {
        assert(32i64 | 64i64 == 96i64) by (bit_vector);
        32 | 64
    } else {
        32
    }
}

} // verus!
