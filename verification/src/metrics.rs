//! Glyph advance widths of the Standard 14 fonts in 1000-em units (Adobe
//! AFM data), looked up by the WinAnsiEncoding code a character is written
//! as, so that measurement and the PDF's `/Widths` agree.

use vstd::prelude::*;

use crate::fonts::FontId;
use crate::pdf::win_ansi::{encode_char, win_ansi_code};

verus! {

/// Per-character advance widths in 1000-em units.
#[derive(Debug, Clone)]
pub enum WidthTable {
    /// All characters have the same width (e.g., Courier).
    Monospaced(u16),
    /// Per-character widths indexed by WinAnsiEncoding code (0-255), the code
    /// space the PDF writer uses for `/Widths`. Characters WinAnsiEncoding
    /// cannot represent use the default width.
    Proportional { widths: Vec<u16>, default: u16 },
}

impl WidthTable {
    /// A proportional table has a width for every code.
    pub open spec fn wf(&self) -> bool {
        match self {
            WidthTable::Monospaced(_) => true,
            WidthTable::Proportional { widths, .. } => widths@.len() == 256,
        }
    }

    /// The width of `c`: through its WinAnsiEncoding code when it has one.
    pub open spec fn width_of(&self, c: char) -> u16 {
        match self {
            WidthTable::Monospaced(w) => *w,
            WidthTable::Proportional { widths, default } => match win_ansi_code(c) {
                Some(code) => widths@[code as int],
                None => *default,
            },
        }
    }

    /// Look up the width of a character in 1000-em units, through the code
    /// the PDF writer will show it with.
    pub fn char_width(&self, c: char) -> (r: u16)
        requires
            self.wf(),
        ensures
            r == self.width_of(c),
    {
        match self {
            WidthTable::Monospaced(w) => *w,
            WidthTable::Proportional { widths, default } => match encode_char(c) {
                Some(code) => widths[code as usize],
                None => *default,
            },
        }
    }
}

/// A 256-code table holding `ascii` for the printable ASCII codes 32 to 126
/// and `default` everywhere else.
pub open spec fn ascii_table(ascii: Seq<u16>, default: u16) -> Seq<u16> {
    Seq::new(256, |i: int| if 32 <= i <= 126 { ascii[i - 32] } else { default })
}

/// The proportional table of `ascii_table(ascii, default)`.
fn build_ascii_table(ascii: &[u16], default: u16) -> (r: WidthTable)
    requires
        ascii@.len() == 95,
    ensures
        r matches WidthTable::Proportional { widths, default: d } && d == default
            && widths@ == ascii_table(ascii@, default),
{
    let mut widths: Vec<u16> = Vec::new();
    let mut i: usize = 0;
    while i < 256
        invariant
            i <= 256,
            ascii@.len() == 95,
            widths@ == ascii_table(ascii@, default).take(i as int),
        decreases 256 - i,
    {
        let w = if 32 <= i && i <= 126 {
            ascii[i - 32]
        } else {
            default
        };
        widths.push(w);
        assert(widths@ =~= ascii_table(ascii@, default).take(i + 1));
        i = i + 1;
    }
    assert(widths@ =~= ascii_table(ascii@, default));
    WidthTable::Proportional { widths, default }
}

/// The Helvetica and Helvetica Oblique widths of the ASCII codes 32 to 126.
pub open spec fn helvetica_ascii() -> Seq<u16> {
    seq![
        278, 278, 355, 556, 556, 889, 667, 191, 333, 333, 389, 584,
        278, 333, 278, 278, 556, 556, 556, 556, 556, 556, 556, 556,
        556, 556, 278, 278, 584, 584, 584, 556, 1015, 667, 667, 722,
        722, 667, 611, 778, 722, 278, 500, 667, 556, 833, 722, 778,
        667, 778, 722, 667, 611, 722, 667, 944, 667, 667, 611, 278,
        278, 278, 469, 556, 333, 556, 556, 500, 556, 556, 278, 556,
        556, 222, 222, 500, 222, 833, 556, 556, 556, 556, 333, 500,
        278, 556, 500, 722, 500, 500, 500, 334, 260, 334, 584,
    ]
}

/// The Helvetica and Helvetica Oblique width table; unlisted codes take 556.
pub fn helvetica_widths() -> (r: WidthTable)
    ensures
        r matches WidthTable::Proportional { widths, default } && default == 556
            && widths@ == ascii_table(helvetica_ascii(), 556),
{
    let ascii: [u16; 95] = [
        278, 278, 355, 556, 556, 889, 667, 191, 333, 333, 389, 584,
        278, 333, 278, 278, 556, 556, 556, 556, 556, 556, 556, 556,
        556, 556, 278, 278, 584, 584, 584, 556, 1015, 667, 667, 722,
        722, 667, 611, 778, 722, 278, 500, 667, 556, 833, 722, 778,
        667, 778, 722, 667, 611, 722, 667, 944, 667, 667, 611, 278,
        278, 278, 469, 556, 333, 556, 556, 500, 556, 556, 278, 556,
        556, 222, 222, 500, 222, 833, 556, 556, 556, 556, 333, 500,
        278, 556, 500, 722, 500, 500, 500, 334, 260, 334, 584,
    ];
    assert(ascii@ =~= helvetica_ascii());
    build_ascii_table(&ascii, 556)
}

/// The Helvetica Bold and Helvetica Bold Oblique widths of the ASCII codes 32 to 126.
pub open spec fn helvetica_bold_ascii() -> Seq<u16> {
    seq![
        278, 333, 474, 556, 556, 889, 722, 238, 333, 333, 389, 584,
        278, 333, 278, 278, 556, 556, 556, 556, 556, 556, 556, 556,
        556, 556, 333, 333, 584, 584, 584, 611, 975, 722, 722, 722,
        722, 667, 611, 778, 722, 278, 556, 722, 611, 833, 722, 778,
        667, 778, 722, 667, 611, 722, 667, 944, 667, 667, 611, 333,
        278, 333, 584, 556, 333, 556, 611, 556, 611, 556, 333, 611,
        611, 278, 278, 556, 278, 889, 611, 611, 611, 611, 389, 556,
        333, 611, 556, 778, 556, 556, 500, 389, 280, 389, 584,
    ]
}

/// The Helvetica Bold and Helvetica Bold Oblique width table; unlisted codes take 556.
pub fn helvetica_bold_widths() -> (r: WidthTable)
    ensures
        r matches WidthTable::Proportional { widths, default } && default == 556
            && widths@ == ascii_table(helvetica_bold_ascii(), 556),
{
    let ascii: [u16; 95] = [
        278, 333, 474, 556, 556, 889, 722, 238, 333, 333, 389, 584,
        278, 333, 278, 278, 556, 556, 556, 556, 556, 556, 556, 556,
        556, 556, 333, 333, 584, 584, 584, 611, 975, 722, 722, 722,
        722, 667, 611, 778, 722, 278, 556, 722, 611, 833, 722, 778,
        667, 778, 722, 667, 611, 722, 667, 944, 667, 667, 611, 333,
        278, 333, 584, 556, 333, 556, 611, 556, 611, 556, 333, 611,
        611, 278, 278, 556, 278, 889, 611, 611, 611, 611, 389, 556,
        333, 611, 556, 778, 556, 556, 500, 389, 280, 389, 584,
    ];
    assert(ascii@ =~= helvetica_bold_ascii());
    build_ascii_table(&ascii, 556)
}

/// The Times Roman and Times Italic widths of the ASCII codes 32 to 126.
pub open spec fn times_roman_ascii() -> Seq<u16> {
    seq![
        250, 333, 408, 500, 500, 833, 778, 180, 333, 333, 500, 564,
        250, 333, 250, 278, 500, 500, 500, 500, 500, 500, 500, 500,
        500, 500, 278, 278, 564, 564, 564, 444, 921, 722, 667, 667,
        722, 611, 556, 722, 722, 333, 389, 722, 611, 889, 722, 722,
        556, 722, 667, 556, 611, 722, 722, 944, 722, 722, 611, 333,
        278, 333, 469, 500, 333, 444, 500, 444, 500, 444, 333, 500,
        500, 278, 278, 500, 278, 778, 500, 500, 500, 500, 333, 389,
        278, 500, 500, 722, 500, 500, 444, 480, 200, 480, 541,
    ]
}

/// The Times Roman and Times Italic width table; unlisted codes take 500.
pub fn times_roman_widths() -> (r: WidthTable)
    ensures
        r matches WidthTable::Proportional { widths, default } && default == 500
            && widths@ == ascii_table(times_roman_ascii(), 500),
{
    let ascii: [u16; 95] = [
        250, 333, 408, 500, 500, 833, 778, 180, 333, 333, 500, 564,
        250, 333, 250, 278, 500, 500, 500, 500, 500, 500, 500, 500,
        500, 500, 278, 278, 564, 564, 564, 444, 921, 722, 667, 667,
        722, 611, 556, 722, 722, 333, 389, 722, 611, 889, 722, 722,
        556, 722, 667, 556, 611, 722, 722, 944, 722, 722, 611, 333,
        278, 333, 469, 500, 333, 444, 500, 444, 500, 444, 333, 500,
        500, 278, 278, 500, 278, 778, 500, 500, 500, 500, 333, 389,
        278, 500, 500, 722, 500, 500, 444, 480, 200, 480, 541,
    ];
    assert(ascii@ =~= times_roman_ascii());
    build_ascii_table(&ascii, 500)
}

/// The Times Bold and Times Bold Italic widths of the ASCII codes 32 to 126.
pub open spec fn times_bold_ascii() -> Seq<u16> {
    seq![
        250, 333, 555, 500, 500, 1000, 833, 278, 333, 333, 500, 570,
        250, 333, 250, 278, 500, 500, 500, 500, 500, 500, 500, 500,
        500, 500, 333, 333, 570, 570, 570, 500, 930, 722, 667, 722,
        722, 667, 611, 778, 778, 389, 500, 778, 667, 944, 722, 778,
        611, 778, 722, 556, 667, 722, 722, 1000, 722, 722, 667, 333,
        278, 333, 581, 500, 333, 500, 556, 444, 556, 444, 333, 500,
        556, 278, 333, 556, 278, 833, 556, 500, 556, 556, 444, 389,
        333, 556, 500, 722, 500, 500, 444, 394, 220, 394, 520,
    ]
}

/// The Times Bold and Times Bold Italic width table; unlisted codes take 500.
pub fn times_bold_widths() -> (r: WidthTable)
    ensures
        r matches WidthTable::Proportional { widths, default } && default == 500
            && widths@ == ascii_table(times_bold_ascii(), 500),
{
    let ascii: [u16; 95] = [
        250, 333, 555, 500, 500, 1000, 833, 278, 333, 333, 500, 570,
        250, 333, 250, 278, 500, 500, 500, 500, 500, 500, 500, 500,
        500, 500, 333, 333, 570, 570, 570, 500, 930, 722, 667, 722,
        722, 667, 611, 778, 778, 389, 500, 778, 667, 944, 722, 778,
        611, 778, 722, 556, 667, 722, 722, 1000, 722, 722, 667, 333,
        278, 333, 581, 500, 333, 500, 556, 444, 556, 444, 333, 500,
        556, 278, 333, 556, 278, 833, 556, 500, 556, 556, 444, 389,
        333, 556, 500, 722, 500, 500, 444, 394, 220, 394, 520,
    ];
    assert(ascii@ =~= times_bold_ascii());
    build_ascii_table(&ascii, 500)
}

/// The AFM width table of Standard 14 font `id` (ids 0 to 13, as the
/// registry numbers them): Helvetica and Times by weight, the Courier family
/// monospaced at 600; Symbol and Zapf Dingbats measure as Courier does.
pub fn standard_widths(id: FontId) -> (r: Option<WidthTable>)
    ensures
        id.0 < 14 <==> r is Some,
        r matches Some(t) ==> t.wf(),
        (id.0 == 0 || id.0 == 2) ==> (r matches Some(WidthTable::Proportional { widths, default })
            && default == 556 && widths@ == ascii_table(helvetica_ascii(), 556)),
        (id.0 == 1 || id.0 == 3) ==> (r matches Some(WidthTable::Proportional { widths, default })
            && default == 556 && widths@ == ascii_table(helvetica_bold_ascii(), 556)),
        (id.0 == 4 || id.0 == 6) ==> (r matches Some(WidthTable::Proportional { widths, default })
            && default == 500 && widths@ == ascii_table(times_roman_ascii(), 500)),
        (id.0 == 5 || id.0 == 7) ==> (r matches Some(WidthTable::Proportional { widths, default })
            && default == 500 && widths@ == ascii_table(times_bold_ascii(), 500)),
        8 <= id.0 < 14 ==> r == Some(WidthTable::Monospaced(600)),
{
    match id.0 {
        0 | 2 => Some(helvetica_widths()),
        1 | 3 => Some(helvetica_bold_widths()),
        4 | 6 => Some(times_roman_widths()),
        5 | 7 => Some(times_bold_widths()),
        8..=13 => Some(WidthTable::Monospaced(600)),
        _ => None,
    }
}

} // verus!
