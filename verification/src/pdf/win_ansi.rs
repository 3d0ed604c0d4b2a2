//! WinAnsiEncoding (Windows code page 1252), the single encoding the overlay
//! fonts declare.
//!
//! Overlay text is Unicode, but a PDF shows text as bytes interpreted through
//! the font's `/Encoding`. The text emitted in a content stream, the `/Widths`
//! array indexed by character code and the `ToUnicode` CMap that makes the text
//! extractable all derive from the one table below.

use vstd::prelude::*;
use unicode_normalization::UnicodeNormalization;

use crate::text::{hex2, hex4, decimal, push_char, push_hex2, push_hex4, push_decimal};

verus! {

/// Stands in for characters WinAnsiEncoding cannot represent: `?`.
pub const SUBSTITUTE: u8 = 0x3F;

/// Number of codes in 0x80-0x9F where WinAnsiEncoding diverges from Latin-1.
pub const HIGH_BLOCK_LEN: usize = 27;

/// Codes WinAnsiEncoding shares with ASCII (0x20-0x7E) or Latin-1
/// (0xA0-0xFF), each mapping to the scalar of the same value.
pub open spec fn in_shared_range(code: u8) -> bool {
    (0x20 <= code && code <= 0x7E) || 0xA0 <= code
}

/// The character of a code in the 0x80-0x9F block, where WinAnsiEncoding
/// diverges from Latin-1. Five codes there (0x81, 0x8D, 0x8F, 0x90, 0x9D)
/// are undefined.
pub open spec fn high_block_char(code: u8) -> Option<char> {
    match code {
        0x80u8 => Some('\u{20AC}'),
        0x82u8 => Some('\u{201A}'),
        0x83u8 => Some('\u{0192}'),
        0x84u8 => Some('\u{201E}'),
        0x85u8 => Some('\u{2026}'),
        0x86u8 => Some('\u{2020}'),
        0x87u8 => Some('\u{2021}'),
        0x88u8 => Some('\u{02C6}'),
        0x89u8 => Some('\u{2030}'),
        0x8Au8 => Some('\u{0160}'),
        0x8Bu8 => Some('\u{2039}'),
        0x8Cu8 => Some('\u{0152}'),
        0x8Eu8 => Some('\u{017D}'),
        0x91u8 => Some('\u{2018}'),
        0x92u8 => Some('\u{2019}'),
        0x93u8 => Some('\u{201C}'),
        0x94u8 => Some('\u{201D}'),
        0x95u8 => Some('\u{2022}'),
        0x96u8 => Some('\u{2013}'),
        0x97u8 => Some('\u{2014}'),
        0x98u8 => Some('\u{02DC}'),
        0x99u8 => Some('\u{2122}'),
        0x9Au8 => Some('\u{0161}'),
        0x9Bu8 => Some('\u{203A}'),
        0x9Cu8 => Some('\u{0153}'),
        0x9Eu8 => Some('\u{017E}'),
        0x9Fu8 => Some('\u{0178}'),
        _ => None,
    }
}

/// The code of a character that WinAnsiEncoding places in the 0x80-0x9F block.
pub open spec fn high_block_code(c: char) -> Option<u8> {
    match c {
        '\u{20AC}' => Some(0x80u8),
        '\u{201A}' => Some(0x82u8),
        '\u{0192}' => Some(0x83u8),
        '\u{201E}' => Some(0x84u8),
        '\u{2026}' => Some(0x85u8),
        '\u{2020}' => Some(0x86u8),
        '\u{2021}' => Some(0x87u8),
        '\u{02C6}' => Some(0x88u8),
        '\u{2030}' => Some(0x89u8),
        '\u{0160}' => Some(0x8Au8),
        '\u{2039}' => Some(0x8Bu8),
        '\u{0152}' => Some(0x8Cu8),
        '\u{017D}' => Some(0x8Eu8),
        '\u{2018}' => Some(0x91u8),
        '\u{2019}' => Some(0x92u8),
        '\u{201C}' => Some(0x93u8),
        '\u{201D}' => Some(0x94u8),
        '\u{2022}' => Some(0x95u8),
        '\u{2013}' => Some(0x96u8),
        '\u{2014}' => Some(0x97u8),
        '\u{02DC}' => Some(0x98u8),
        '\u{2122}' => Some(0x99u8),
        '\u{0161}' => Some(0x9Au8),
        '\u{203A}' => Some(0x9Bu8),
        '\u{0153}' => Some(0x9Cu8),
        '\u{017E}' => Some(0x9Eu8),
        '\u{0178}' => Some(0x9Fu8),
        _ => None,
    }
}

/// The 0x80-0x9F block as an ordered table: entry `i` for `0 <= i < 27`.
pub open spec fn high_block_entry(i: usize) -> (u8, char) {
    match i {
        0 => (0x80u8, '\u{20AC}'),
        1 => (0x82u8, '\u{201A}'),
        2 => (0x83u8, '\u{0192}'),
        3 => (0x84u8, '\u{201E}'),
        4 => (0x85u8, '\u{2026}'),
        5 => (0x86u8, '\u{2020}'),
        6 => (0x87u8, '\u{2021}'),
        7 => (0x88u8, '\u{02C6}'),
        8 => (0x89u8, '\u{2030}'),
        9 => (0x8Au8, '\u{0160}'),
        10 => (0x8Bu8, '\u{2039}'),
        11 => (0x8Cu8, '\u{0152}'),
        12 => (0x8Eu8, '\u{017D}'),
        13 => (0x91u8, '\u{2018}'),
        14 => (0x92u8, '\u{2019}'),
        15 => (0x93u8, '\u{201C}'),
        16 => (0x94u8, '\u{201D}'),
        17 => (0x95u8, '\u{2022}'),
        18 => (0x96u8, '\u{2013}'),
        19 => (0x97u8, '\u{2014}'),
        20 => (0x98u8, '\u{02DC}'),
        21 => (0x99u8, '\u{2122}'),
        22 => (0x9Au8, '\u{0161}'),
        23 => (0x9Bu8, '\u{203A}'),
        24 => (0x9Cu8, '\u{0153}'),
        25 => (0x9Eu8, '\u{017E}'),
        26 => (0x9Fu8, '\u{0178}'),
        _ => (0u8, '\u{0}'),
    }
}

/// The character WinAnsiEncoding assigns to `code`, if any.
pub open spec fn win_ansi_char(code: u8) -> Option<char> {
    if in_shared_range(code) {
        Some(code as char)
    } else {
        high_block_char(code)
    }
}

/// The WinAnsiEncoding code of `c`, if any.
pub open spec fn win_ansi_code(c: char) -> Option<u8> {
    let v = c as u32;
    if (0x20 <= v && v <= 0x7E) || (0xA0 <= v && v <= 0xFF) {
        Some(v as u8)
    } else {
        high_block_code(c)
    }
}

/// The table entry for index `i`.
fn high_block_entry_exec(i: usize) -> (r: (u8, char))
    requires
        i < HIGH_BLOCK_LEN,
    ensures
        r == high_block_entry(i),
{
    match i {
        0 => (0x80u8, '\u{20AC}'),
        1 => (0x82u8, '\u{201A}'),
        2 => (0x83u8, '\u{0192}'),
        3 => (0x84u8, '\u{201E}'),
        4 => (0x85u8, '\u{2026}'),
        5 => (0x86u8, '\u{2020}'),
        6 => (0x87u8, '\u{2021}'),
        7 => (0x88u8, '\u{02C6}'),
        8 => (0x89u8, '\u{2030}'),
        9 => (0x8Au8, '\u{0160}'),
        10 => (0x8Bu8, '\u{2039}'),
        11 => (0x8Cu8, '\u{0152}'),
        12 => (0x8Eu8, '\u{017D}'),
        13 => (0x91u8, '\u{2018}'),
        14 => (0x92u8, '\u{2019}'),
        15 => (0x93u8, '\u{201C}'),
        16 => (0x94u8, '\u{201D}'),
        17 => (0x95u8, '\u{2022}'),
        18 => (0x96u8, '\u{2013}'),
        19 => (0x97u8, '\u{2014}'),
        20 => (0x98u8, '\u{02DC}'),
        21 => (0x99u8, '\u{2122}'),
        22 => (0x9Au8, '\u{0161}'),
        23 => (0x9Bu8, '\u{203A}'),
        24 => (0x9Cu8, '\u{0153}'),
        25 => (0x9Eu8, '\u{017E}'),
        26 => (0x9Fu8, '\u{0178}'),
        _ => (0u8, '\u{0}'),
    }
}

/// The two lookups and the ordered table describe the same 27 pairs.
pub proof fn lemma_high_block_table(i: usize)
    requires
        0 <= i < HIGH_BLOCK_LEN,
    ensures
        high_block_char(high_block_entry(i).0) == Some(high_block_entry(i).1),
        high_block_code(high_block_entry(i).1) == Some(high_block_entry(i).0),
        0x80 <= high_block_entry(i).0 <= 0x9F,
        i > 0 ==> high_block_entry((i - 1) as usize).0 < high_block_entry(i).0,
{
}

/// The character WinAnsiEncoding assigns to `code`, or `None` if undefined.
pub fn decode(code: u8) -> (r: Option<char>)
    ensures
        r == win_ansi_char(code),
{
    if (0x20 <= code && code <= 0x7E) || 0xA0 <= code {
        Some(code as char)
    } else {
        match code {
            0x80u8 => Some('\u{20AC}'),
            0x82u8 => Some('\u{201A}'),
            0x83u8 => Some('\u{0192}'),
            0x84u8 => Some('\u{201E}'),
            0x85u8 => Some('\u{2026}'),
            0x86u8 => Some('\u{2020}'),
            0x87u8 => Some('\u{2021}'),
            0x88u8 => Some('\u{02C6}'),
            0x89u8 => Some('\u{2030}'),
            0x8Au8 => Some('\u{0160}'),
            0x8Bu8 => Some('\u{2039}'),
            0x8Cu8 => Some('\u{0152}'),
            0x8Eu8 => Some('\u{017D}'),
            0x91u8 => Some('\u{2018}'),
            0x92u8 => Some('\u{2019}'),
            0x93u8 => Some('\u{201C}'),
            0x94u8 => Some('\u{201D}'),
            0x95u8 => Some('\u{2022}'),
            0x96u8 => Some('\u{2013}'),
            0x97u8 => Some('\u{2014}'),
            0x98u8 => Some('\u{02DC}'),
            0x99u8 => Some('\u{2122}'),
            0x9Au8 => Some('\u{0161}'),
            0x9Bu8 => Some('\u{203A}'),
            0x9Cu8 => Some('\u{0153}'),
            0x9Eu8 => Some('\u{017E}'),
            0x9Fu8 => Some('\u{0178}'),
            _ => None,
        }
    }
}

/// The WinAnsiEncoding code for `c`, or `None` if the encoding has none.
/// A code is returned exactly when `decode` maps it back to `c`.
pub fn encode_char(c: char) -> (r: Option<u8>)
    ensures
        r == win_ansi_code(c),
        r matches Some(code) ==> win_ansi_char(code) == Some(c),
        r is None <==> (forall|code: u8| win_ansi_char(code) != Some(c)),
{
    proof {
        lemma_code_inverts_char(c);
    }
    let v = c as u32;
    if (0x20 <= v && v <= 0x7E) || (0xA0 <= v && v <= 0xFF) {
        Some(v as u8)
    } else {
        match c {
            '\u{20AC}' => Some(0x80u8),
            '\u{201A}' => Some(0x82u8),
            '\u{0192}' => Some(0x83u8),
            '\u{201E}' => Some(0x84u8),
            '\u{2026}' => Some(0x85u8),
            '\u{2020}' => Some(0x86u8),
            '\u{2021}' => Some(0x87u8),
            '\u{02C6}' => Some(0x88u8),
            '\u{2030}' => Some(0x89u8),
            '\u{0160}' => Some(0x8Au8),
            '\u{2039}' => Some(0x8Bu8),
            '\u{0152}' => Some(0x8Cu8),
            '\u{017D}' => Some(0x8Eu8),
            '\u{2018}' => Some(0x91u8),
            '\u{2019}' => Some(0x92u8),
            '\u{201C}' => Some(0x93u8),
            '\u{201D}' => Some(0x94u8),
            '\u{2022}' => Some(0x95u8),
            '\u{2013}' => Some(0x96u8),
            '\u{2014}' => Some(0x97u8),
            '\u{02DC}' => Some(0x98u8),
            '\u{2122}' => Some(0x99u8),
            '\u{0161}' => Some(0x9Au8),
            '\u{203A}' => Some(0x9Bu8),
            '\u{0153}' => Some(0x9Cu8),
            '\u{017E}' => Some(0x9Eu8),
            '\u{0178}' => Some(0x9Fu8),
            _ => None,
        }
    }
}

/// `win_ansi_code` and `win_ansi_char` are inverse on every defined code.
pub proof fn lemma_code_inverts_char(c: char)
    ensures
        win_ansi_code(c) matches Some(code) ==> win_ansi_char(code) == Some(c),
        win_ansi_code(c) is None <==> (forall|code: u8| win_ansi_char(code) != Some(c)),
{
    assert forall|code: u8| #[trigger] win_ansi_char(code) == Some(c) implies win_ansi_code(c)
        == Some(code) by {
        if in_shared_range(code) {
            assert(c as u32 == code as u32);
        }
    }
}

/// The round-trip law: a code decodes to `c` exactly when `c` encodes to
/// that code, so the byte written, the `/Widths` slot and the CMap entry all
/// name the same character.
pub proof fn lemma_round_trip(code: u8, c: char)
    ensures
        win_ansi_char(code) == Some(c) <==> win_ansi_code(c) == Some(code),
{
    lemma_code_inverts_char(c);
}

/// `seen` with each character of `chars` appended unless already present,
/// in the order the characters are met.
pub open spec fn merge_seq(seen: Seq<char>, chars: Seq<char>) -> Seq<char>
    decreases chars.len(),
{
    if chars.len() == 0 {
        seen
    } else {
        let merged = merge_seq(seen, chars.drop_last());
        if merged.contains(chars.last()) {
            merged
        } else {
            merged.push(chars.last())
        }
    }
}

/// Whether `c` occurs in `v`.
fn contains_char(v: &Vec<char>, c: char) -> (r: bool)
    ensures
        r == v@.contains(c),
{
    let mut i: usize = 0;
    while i < v.len()
        invariant
            i <= v.len(),
            forall|j: int| 0 <= j < i ==> v@[j] != c,
        decreases v.len() - i,
    {
        if v[i] == c {
            return true;
        }
        i = i + 1;
    }
    false
}

/// Add `chars` to `seen`, skipping any it already holds, so a report names each
/// character once and in the order it was first met.
pub fn merge_unencodable(seen: &mut Vec<char>, chars: Vec<char>)
    ensures
        final(seen)@ == merge_seq(old(seen)@, chars@),
{
    let ghost start = seen@;
    let mut i: usize = 0;
    while i < chars.len()
        invariant
            i <= chars.len(),
            seen@ == merge_seq(start, chars@.take(i as int)),
        decreases chars.len() - i,
    {
        let c = chars[i];
        assert(chars@.take(i + 1).drop_last() =~= chars@.take(i as int));
        if !contains_char(seen, c) {
            seen.push(c);
        }
        i = i + 1;
    }
    assert(chars@.take(chars.len() as int) =~= chars@);
}

/// Merging characters that were all seen already changes nothing.
proof fn lemma_merge_seen(seen: Seq<char>, chars: Seq<char>)
    requires
        forall|i: int| 0 <= i < chars.len() ==> seen.contains(#[trigger] chars[i]),
    ensures
        merge_seq(seen, chars) == seen,
    decreases chars.len(),
{
    if chars.len() > 0 {
        assert forall|i: int| 0 <= i < chars.drop_last().len() implies seen.contains(
            #[trigger] chars.drop_last()[i],
        ) by {
            assert(chars.drop_last()[i] == chars[i]);
        }
        lemma_merge_seen(seen, chars.drop_last());
        assert(seen.contains(chars[chars.len() - 1]));
    }
}

/// Merging the same characters a second time changes nothing: a report
/// already names each of them.
pub proof fn lemma_merge_again(seen: Seq<char>, chars: Seq<char>)
    ensures
        merge_seq(merge_seq(seen, chars), chars) == merge_seq(seen, chars),
{
    lemma_merge_seq(seen, chars);
    let merged = merge_seq(seen, chars);
    assert forall|i: int| 0 <= i < chars.len() implies merged.contains(#[trigger] chars[i]) by {
        assert(chars.contains(chars[i]));
    }
    lemma_merge_seen(merged, chars);
}

/// Merging `first` and then `then` is merging them as one list, in order.
pub proof fn lemma_merge_composes(seen: Seq<char>, first: Seq<char>, then: Seq<char>)
    ensures
        merge_seq(merge_seq(seen, first), then) == merge_seq(seen, first + then),
    decreases then.len(),
{
    if then.len() == 0 {
        assert(first + then =~= first);
    } else {
        lemma_merge_composes(seen, first, then.drop_last());
        assert((first + then).drop_last() =~= first + then.drop_last());
        assert((first + then).last() == then.last());
    }
}

/// Merging keeps what was seen as a prefix, keeps a duplicate-free list
/// duplicate-free, and holds exactly the characters of both inputs.
pub proof fn lemma_merge_seq(seen: Seq<char>, chars: Seq<char>)
    ensures
        merge_seq(seen, chars).len() >= seen.len(),
        merge_seq(seen, chars).subrange(0, seen.len() as int) == seen,
        seen.no_duplicates() ==> merge_seq(seen, chars).no_duplicates(),
        forall|c: char| merge_seq(seen, chars).contains(c) <==> (seen.contains(c) || chars.contains(c)),
    decreases chars.len(),
{
    if chars.len() > 0 {
        let prev = chars.drop_last();
        lemma_merge_seq(seen, prev);
        let merged = merge_seq(seen, prev);
        let last = chars.last();
        assert forall|c: char| chars.contains(c) <==> (prev.contains(c) || c == last) by {
            if chars.contains(c) {
                let k = choose|k: int| 0 <= k < chars.len() && chars[k] == c;
                if k < chars.len() - 1 {
                    assert(prev[k] == c);
                }
            }
            if prev.contains(c) {
                let k = choose|k: int| 0 <= k < prev.len() && prev[k] == c;
                assert(chars[k] == c);
            }
            if c == last {
                assert(chars[chars.len() - 1] == c);
            }
        }
        if !merged.contains(last) {
            let pushed = merged.push(last);
            assert(pushed.subrange(0, seen.len() as int) =~= merged.subrange(0, seen.len() as int));
            assert forall|c: char| pushed.contains(c) <==> (merged.contains(c) || c == last) by {
                if pushed.contains(c) {
                    let k = choose|k: int| 0 <= k < pushed.len() && pushed[k] == c;
                    if k < merged.len() {
                        assert(merged[k] == c);
                    }
                }
                if merged.contains(c) {
                    let k = choose|k: int| 0 <= k < merged.len() && merged[k] == c;
                    assert(pushed[k] == c);
                }
                if c == last {
                    assert(pushed[merged.len() as int] == c);
                }
            }
        }
    }
}

/// The NFC (canonical composition) normal form of a character sequence, as
/// `unicode_normalization` computes it.
pub uninterp spec fn nfc(s: Seq<char>) -> Seq<char>;

/// `unicode_normalization::UnicodeNormalization::nfc`, collected into a
/// `String`: the result is the NFC form of `text`.
#[verifier::external_body]
fn to_nfc(text: &str) -> (r: String)
    ensures
        r@ == nfc(text@),
{
    text.nfc().collect()
}

/// The byte a character is written as: its code, or [`SUBSTITUTE`].
pub open spec fn written_byte(c: char) -> u8 {
    match win_ansi_code(c) {
        Some(code) => code,
        None => SUBSTITUTE,
    }
}

/// The bytes a (normalized) character sequence is written as, one per character.
pub open spec fn written_bytes(s: Seq<char>) -> Seq<u8> {
    s.map_values(|c: char| written_byte(c))
}

/// The characters of `s` that have no code, each once, in first-seen order.
pub open spec fn unencodable_in(s: Seq<char>) -> Seq<char>
    decreases s.len(),
{
    if s.len() == 0 {
        Seq::empty()
    } else {
        let prev = unencodable_in(s.drop_last());
        if win_ansi_code(s.last()) is None && !prev.contains(s.last()) {
            prev.push(s.last())
        } else {
            prev
        }
    }
}

/// Text encoded for a PDF content stream, plus whatever had to be substituted.
pub struct EncodedText {
    pub bytes: Vec<u8>,
    /// Characters with no WinAnsiEncoding code, in first-seen order, each listed
    /// once. Empty when the text encoded losslessly.
    pub unencodable: Vec<char>,
}

/// Encode text that is already in NFC form for a content stream, one byte
/// per character, substituting [`SUBSTITUTE`] for characters the encoding
/// cannot represent and reporting them to the caller.
pub fn encode_normalized(normalized: &str) -> (r: EncodedText)
    ensures
        r.bytes@ == written_bytes(normalized@),
        r.unencodable@ == unencodable_in(normalized@),
{
    broadcast use vstd::string::group_string_axioms;
    let mut bytes: Vec<u8> = Vec::new();
    let mut unencodable: Vec<char> = Vec::new();
    let ghost s = normalized@;
    for c in it: normalized.chars()
        invariant
            it.seq() == s,
            bytes@ == written_bytes(s.take(it.index() as int)),
            unencodable@ == unencodable_in(s.take(it.index() as int)),
    {
        let ghost i = it.index();
        assert(s.take(i + 1).drop_last() =~= s.take(i as int));
        assert(s.take(i + 1).last() == c);
        match encode_char(c) {
            Some(code) => bytes.push(code),
            None => {
                bytes.push(SUBSTITUTE);
                let mut single: Vec<char> = Vec::new();
                single.push(c);
                let ghost before = unencodable@;
                assert(single@.drop_last() =~= Seq::<char>::empty());
                assert(merge_seq(before, single@.drop_last()) == before);
                merge_unencodable(&mut unencodable, single);
            },
        }
        assert(bytes@ =~= written_bytes(s.take(i + 1)));
    }
    assert(s.take(s.len() as int) =~= s);
    EncodedText { bytes, unencodable }
}

/// Encode overlay text for a content stream, substituting [`SUBSTITUTE`] for
/// characters the encoding cannot represent and reporting them to the caller.
///
/// Text is NFC-normalized first, so a base letter followed by a combining mark
/// finds WinAnsi's precomposed character instead of turning into `?`.
pub fn encode(text: &str) -> (r: EncodedText)
    ensures
        r.bytes@ == written_bytes(nfc(text@)),
        r.unencodable@ == unencodable_in(nfc(text@)),
{
    let normalized = to_nfc(text);
    encode_normalized(normalized.as_str())
}

/// The text before the code space range.
pub open spec fn cmap_header() -> Seq<char> {
    "/CIDInit /ProcSet findresource begin\n12 dict begin\nbegincmap\n/CIDSystemInfo << /Registry (Adobe) /Ordering (UCS) /Supplement 0 >> def\n/CMapName /Adobe-Identity-UCS def\n/CMapType 2 def\n1 begincodespacerange\n"@
}

/// One `bfrange` line mapping `lo..=hi` to the scalars starting at `lo`.
pub open spec fn cmap_range_line(lo: u8, hi: u8) -> Seq<char> {
    "<"@ + hex2(lo as int) + "> <"@ + hex2(hi as int) + "> <"@ + hex4(lo as int) + ">\n"@
}

/// The `bfrange` entries of the CMap, in order: each maps the codes
/// `lo..=hi` to the scalars starting at `lo`.
pub open spec fn cmap_ranges() -> Seq<(u8, u8)> {
    seq![(0x20u8, 0x7Eu8), (0xA0u8, 0xFFu8)]
}

/// The `bfchar` entries of the CMap, in order: a code and the scalar it maps
/// to, one per entry of the 0x80-0x9F table.
pub open spec fn cmap_chars() -> Seq<(u8, u32)> {
    Seq::new(
        HIGH_BLOCK_LEN as nat,
        |i: int| (high_block_entry(i as usize).0, high_block_entry(i as usize).1 as u32),
    )
}

/// The `bfchar` line for entry `i` of [`cmap_chars`].
pub open spec fn cmap_char_line(i: usize) -> Seq<char> {
    "<"@ + hex2(cmap_chars()[i as int].0 as int) + "> <"@ + hex4(cmap_chars()[i as int].1 as int)
        + ">\n"@
}

/// The scalar a PDF reader finds for `code` in the CMap's sections: a
/// `bfrange` entry holding the code maps it to the entry's first scalar plus
/// the code's offset; otherwise a `bfchar` entry for the code maps it to that
/// entry's scalar; otherwise the code has no mapping.
pub open spec fn cmap_lookup(code: u8) -> Option<u32> {
    if exists|k: int|
        0 <= k < cmap_ranges().len() && #[trigger] cmap_ranges()[k].0 <= code <= cmap_ranges()[k].1 {
        let k = choose|k: int|
            0 <= k < cmap_ranges().len() && #[trigger] cmap_ranges()[k].0 <= code <= cmap_ranges()[k].1;
        Some((cmap_ranges()[k].0 + (code - cmap_ranges()[k].0)) as u32)
    } else if exists|i: int| 0 <= i < cmap_chars().len() && #[trigger] cmap_chars()[i].0 == code {
        let i = choose|i: int| 0 <= i < cmap_chars().len() && #[trigger] cmap_chars()[i].0 == code;
        Some(cmap_chars()[i].1)
    } else {
        None
    }
}

/// The index in the 0x80-0x9F table of a code that WinAnsiEncoding defines
/// there.
spec fn high_block_index(code: u8) -> usize {
    match code {
        0x80u8 => 0,
        0x82u8 => 1,
        0x83u8 => 2,
        0x84u8 => 3,
        0x85u8 => 4,
        0x86u8 => 5,
        0x87u8 => 6,
        0x88u8 => 7,
        0x89u8 => 8,
        0x8Au8 => 9,
        0x8Bu8 => 10,
        0x8Cu8 => 11,
        0x8Eu8 => 12,
        0x91u8 => 13,
        0x92u8 => 14,
        0x93u8 => 15,
        0x94u8 => 16,
        0x95u8 => 17,
        0x96u8 => 18,
        0x97u8 => 19,
        0x98u8 => 20,
        0x99u8 => 21,
        0x9Au8 => 22,
        0x9Bu8 => 23,
        0x9Cu8 => 24,
        0x9Eu8 => 25,
        0x9Fu8 => 26,
        _ => 27,
    }
}

/// A code the 0x80-0x9F block defines has its entry in the table.
proof fn lemma_high_block_index(code: u8)
    requires
        high_block_char(code) is Some,
    ensures
        high_block_index(code) < HIGH_BLOCK_LEN,
        high_block_entry(high_block_index(code)).0 == code,
{
}

/// Looking a code up in the ToUnicode CMap gives the character the encoding
/// assigns it (see [`decode`]), and no mapping for a code it leaves undefined.
pub proof fn lemma_cmap_agrees_with_decode(code: u8)
    ensures
        cmap_lookup(code) == match win_ansi_char(code) {
            Some(c) => Some(c as u32),
            None => None::<u32>,
        },
{
    let ranges = cmap_ranges();
    let chars = cmap_chars();
    if in_shared_range(code) {
        if code <= 0x7E {
            assert(ranges[0].0 <= code <= ranges[0].1);
        } else {
            assert(ranges[1].0 <= code <= ranges[1].1);
        }
    } else {
        assert(!(exists|k: int| 0 <= k < ranges.len() && #[trigger] ranges[k].0 <= code <= ranges[k].1));
        assert forall|i: int| 0 <= i < chars.len() && #[trigger] chars[i].0 == code implies high_block_char(
            code,
        ) == Some(high_block_entry(i as usize).1) by {
            lemma_high_block_table(i as usize);
        }
        if high_block_char(code) is Some {
            lemma_high_block_index(code);
            let j = high_block_index(code) as int;
            assert(chars[j].0 == code);
        }
    }
}

/// The number of codes below `n` that WinAnsiEncoding defines.
pub open spec fn defined_codes_below(n: nat) -> nat
    decreases n,
{
    if n == 0 {
        0
    } else {
        defined_codes_below((n - 1) as nat) + if win_ansi_char((n - 1) as u8) is Some {
            1nat
        } else {
            0nat
        }
    }
}

/// The codes below `n` that WinAnsiEncoding defines, as a set, number
/// [`defined_codes_below`] of them.
proof fn lemma_defined_codes_below(n: nat)
    requires
        n <= 256,
    ensures
        Set::new(|b: u8| b < n && win_ansi_char(b) is Some).finite(),
        Set::new(|b: u8| b < n && win_ansi_char(b) is Some).len() == defined_codes_below(n),
    decreases n,
{
    let s = Set::new(|b: u8| b < n && win_ansi_char(b) is Some);
    if n == 0 {
        assert(s =~= Set::<u8>::empty());
    } else {
        lemma_defined_codes_below((n - 1) as nat);
        let prev = Set::new(|b: u8| b < n - 1 && win_ansi_char(b) is Some);
        let last = (n - 1) as u8;
        if win_ansi_char(last) is Some {
            assert(s =~= prev.insert(last));
        } else {
            assert(s =~= prev);
        }
    }
}

/// The counts of defined codes below the ends of the encoding's stretches.
proof fn lemma_count_steps()
    ensures
        defined_codes_below(256) == 218,
{
    lemma_count_uniform(0, 0x20, 0);
    lemma_count_uniform(0x20, 0x7F, 1);
    lemma_count_uniform(0x7F, 0x80, 0);
    reveal_with_fuel(defined_codes_below, 33);
    assert(defined_codes_below(0xA0) == 95 + 27);
    lemma_count_uniform(0xA0, 256, 1);
}

/// Over a stretch of codes that are all defined (`step == 1`) or all
/// undefined (`step == 0`), the count grows by `step` per code.
proof fn lemma_count_uniform(lo: nat, hi: nat, step: nat)
    requires
        lo <= hi <= 256,
        step <= 1,
        forall|b: u8| lo <= b < hi ==> (#[trigger] win_ansi_char(b) is Some <==> step == 1),
    ensures
        defined_codes_below(hi) == defined_codes_below(lo) + step * (hi - lo),
    decreases hi - lo,
{
    if lo < hi {
        lemma_count_uniform(lo, (hi - 1) as nat, step);
        assert(win_ansi_char((hi - 1) as u8) is Some <==> step == 1);
        assert(step * (hi - lo) == step * ((hi - 1) - lo) + step) by (nonlinear_arith)
            requires hi > lo;
    }
}

/// WinAnsiEncoding defines exactly 218 codes: the 95 of printable ASCII, the
/// 96 of Latin-1 from 0xA0 and 27 of the 0x80-0x9F block.
pub proof fn lemma_defined_code_count()
    ensures
        Set::new(|b: u8| win_ansi_char(b) is Some).finite(),
        Set::new(|b: u8| win_ansi_char(b) is Some).len() == 218,
{
    lemma_defined_codes_below(256);
    assert(Set::new(|b: u8| b < 256nat && win_ansi_char(b) is Some) =~= Set::new(
        |b: u8| win_ansi_char(b) is Some,
    ));
    lemma_count_steps();
}

/// The `bfchar` lines for the first `n` table entries, in table order.
pub open spec fn cmap_char_lines(n: usize) -> Seq<char>
    decreases n,
{
    if n == 0 {
        Seq::empty()
    } else {
        cmap_char_lines((n - 1) as usize) + cmap_char_line((n - 1) as usize)
    }
}

/// The complete ToUnicode CMap: one code space range 0x20-0xFF, the
/// [`cmap_ranges`] (the ASCII and Latin-1 stretches) as its `bfrange`
/// section, and the [`cmap_chars`] (one per code of the 0x80-0x9F table) as
/// its `bfchar` section.
pub open spec fn cmap_text() -> Seq<char> {
    cmap_header() + "<"@ + hex2(0x20) + "> <"@ + hex2(0xFF)
        + ">\nendcodespacerange\n2 beginbfrange\n"@
        + cmap_range_line(cmap_ranges()[0].0, cmap_ranges()[0].1)
        + cmap_range_line(cmap_ranges()[1].0, cmap_ranges()[1].1) + "endbfrange\n"@ + decimal(HIGH_BLOCK_LEN as nat)
        + " beginbfchar\n"@ + cmap_char_lines(HIGH_BLOCK_LEN)
        + "endbfchar\nendcmap\nCMapName currentdict /CMap defineresource pop\nend\nend\n"@
}

/// Appends one `bfrange` line.
fn push_range_line(s: &mut String, lo: u8, hi: u8)
    ensures
        final(s)@ == old(s)@ + cmap_range_line(lo, hi),
{
    s.append("<");
    push_hex2(s, lo);
    s.append("> <");
    push_hex2(s, hi);
    s.append("> <");
    push_hex4(s, lo as u16);
    s.append(">\n");
    assert(final(s)@ =~= old(s)@ + cmap_range_line(lo, hi));
}

/// Build a ToUnicode CMap (PDF 32000-1 §9.10.3) mapping WinAnsiEncoding
/// character codes to Unicode, so readers can extract, copy and search text
/// shown in an embedded TrueType font.
///
/// The ASCII and Latin-1 stretches are emitted as ranges; only the 0x80-0x9F
/// block, which diverges from Latin-1, needs per-code entries.
pub fn to_unicode_cmap() -> (r: String)
    ensures
        r@ == cmap_text(),
{
    let mut cmap = String::new();
    cmap.append("/CIDInit /ProcSet findresource begin\n12 dict begin\nbegincmap\n/CIDSystemInfo << /Registry (Adobe) /Ordering (UCS) /Supplement 0 >> def\n/CMapName /Adobe-Identity-UCS def\n/CMapType 2 def\n1 begincodespacerange\n");
    cmap.append("<");
    push_hex2(&mut cmap, 0x20);
    cmap.append("> <");
    push_hex2(&mut cmap, 0xFF);
    cmap.append(">\nendcodespacerange\n2 beginbfrange\n");
    push_range_line(&mut cmap, 0x20, 0x7E);
    push_range_line(&mut cmap, 0xA0, 0xFF);
    cmap.append("endbfrange\n");
    push_decimal(&mut cmap, HIGH_BLOCK_LEN as u64);
    cmap.append(" beginbfchar\n");
    let ghost prefix = cmap@;
    let mut i: usize = 0;
    while i < HIGH_BLOCK_LEN
        invariant
            i <= HIGH_BLOCK_LEN,
            cmap@ == prefix + cmap_char_lines(i),
        decreases HIGH_BLOCK_LEN - i,
    {
        let (code, c) = high_block_entry_exec(i);
        proof {
            lemma_high_block_table(i);
        }
        let ghost before = cmap@;
        cmap.append("<");
        push_hex2(&mut cmap, code);
        cmap.append("> <");
        push_hex4(&mut cmap, (c as u32) as u16);
        cmap.append(">\n");
        assert(cmap@ =~= before + cmap_char_line(i));
        assert(cmap@ =~= prefix + cmap_char_lines((i + 1) as usize));
        i = i + 1;
    }
    cmap.append("endbfchar\nendcmap\nCMapName currentdict /CMap defineresource pop\nend\nend\n");
    assert(cmap@ =~= cmap_text());
    cmap
}

} // verus!
