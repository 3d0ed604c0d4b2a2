use spe::pdf::win_ansi::{
    decode, encode, encode_char, encode_normalized, merge_unencodable, to_unicode_cmap, SUBSTITUTE,
};


/// The 27 divergent CP1252 characters, written out independently of the
/// production table so a corrupted entry cannot pass by agreeing with itself.
const DIVERGENT: &[(char, u8)] = &[
    ('€', 0x80),
    ('‚', 0x82),
    ('ƒ', 0x83),
    ('„', 0x84),
    ('…', 0x85),
    ('†', 0x86),
    ('‡', 0x87),
    ('ˆ', 0x88),
    ('‰', 0x89),
    ('Š', 0x8A),
    ('‹', 0x8B),
    ('Œ', 0x8C),
    ('Ž', 0x8E),
    ('\u{2018}', 0x91),
    ('\u{2019}', 0x92),
    ('\u{201C}', 0x93),
    ('\u{201D}', 0x94),
    ('•', 0x95),
    ('–', 0x96),
    ('—', 0x97),
    ('˜', 0x98),
    ('™', 0x99),
    ('š', 0x9A),
    ('›', 0x9B),
    ('œ', 0x9C),
    ('ž', 0x9E),
    ('Ÿ', 0x9F),
];

/// Codes WinAnsiEncoding leaves undefined: the C0 range, DEL, and the five
/// unassigned slots in the 0x80-0x9F block.
const UNDEFINED_CODES: &[u8] = &[0x00, 0x09, 0x0A, 0x1F, 0x7F, 0x81, 0x8D, 0x8F, 0x90, 0x9D];

/// Resolve `code` through a ToUnicode CMap by parsing its bfchar and bfrange
/// sections, so tests assert on what a PDF reader would actually resolve
/// rather than on the literal text of the stream.
fn cmap_lookup(cmap: &str, code: u8) -> Option<u32> {
    let hex =
        |s: &str| u32::from_str_radix(s.trim_start_matches('<').trim_end_matches('>'), 16);

    let mut in_bfchar = false;
    let mut in_bfrange = false;
    for line in cmap.lines() {
        let line = line.trim();
        match line {
            "endbfchar" => in_bfchar = false,
            "endbfrange" => in_bfrange = false,
            _ if line.ends_with("beginbfchar") => in_bfchar = true,
            _ if line.ends_with("beginbfrange") => in_bfrange = true,
            _ if in_bfchar => {
                let parts: Vec<&str> = line.split_whitespace().collect();
                if parts.len() == 2 {
                    if let (Ok(src), Ok(dst)) = (hex(parts[0]), hex(parts[1])) {
                        if src == u32::from(code) {
                            return Some(dst);
                        }
                    }
                }
            }
            _ if in_bfrange => {
                let parts: Vec<&str> = line.split_whitespace().collect();
                if parts.len() == 3 {
                    if let (Ok(lo), Ok(hi), Ok(dst)) =
                        (hex(parts[0]), hex(parts[1]), hex(parts[2]))
                    {
                        if (lo..=hi).contains(&u32::from(code)) {
                            return Some(dst + u32::from(code) - lo);
                        }
                    }
                }
            }
            _ => {}
        }
    }
    None
}

/// The entry count a `N begin<kind>` header declares, paired with the number
/// of entry lines actually present before the matching `end<kind>`.
fn section_entry_counts(cmap: &str, kind: &str) -> (usize, usize) {
    let mut declared = 0;
    let mut actual = 0;
    let mut in_section = false;
    for line in cmap.lines() {
        let line = line.trim();
        if line == format!("end{kind}") {
            in_section = false;
        } else if let Some(count) = line.strip_suffix(&format!(" begin{kind}")) {
            declared = count.parse().expect("section header must declare a count");
            in_section = true;
        } else if in_section {
            actual += 1;
        }
    }
    (declared, actual)
}

#[test]
fn tounicode_cmap_has_required_cmap_structure() {
    let cmap = to_unicode_cmap();

    for required in [
        "/CIDInit /ProcSet findresource begin",
        "begincmap",
        "/CMapName /Adobe-Identity-UCS def",
        "/CMapType 2 def",
        "begincodespacerange",
        "<20> <FF>",
        "endcodespacerange",
        "endcmap",
    ] {
        assert!(
            cmap.contains(required),
            "ToUnicode CMap must contain `{required}`, got:\n{cmap}"
        );
    }

    // A declared count that disagrees with the entries present is the mistake a
    // hand-formatted CMap is most likely to make, and readers trust the header.
    for (kind, expected) in [("codespacerange", 1), ("bfrange", 2), ("bfchar", 27)] {
        let (declared, actual) = section_entry_counts(&cmap, kind);
        assert_eq!(
            declared, expected,
            "`{kind}` header should declare {expected} entries"
        );
        assert_eq!(
            actual, expected,
            "`{kind}` section should contain {expected} entry lines"
        );
    }
}

#[test]
fn tounicode_cmap_maps_win_ansi_codes_to_unicode() {
    let cmap = to_unicode_cmap();

    // ASCII range maps to identical codepoints.
    assert_eq!(cmap_lookup(&cmap, b' '), Some(0x0020));
    assert_eq!(cmap_lookup(&cmap, b'H'), Some(0x0048));
    assert_eq!(cmap_lookup(&cmap, b'~'), Some(0x007E));
    // Latin-1 upper range maps to identical codepoints.
    assert_eq!(cmap_lookup(&cmap, 0xA9), Some(0x00A9)); // copyright
    assert_eq!(cmap_lookup(&cmap, 0xFF), Some(0x00FF)); // y with diaeresis
    // WinAnsi's 0x80-0x9F block differs from Latin-1.
    assert_eq!(cmap_lookup(&cmap, 0x80), Some(0x20AC)); // euro
    assert_eq!(cmap_lookup(&cmap, 0x92), Some(0x2019)); // right single quote
    assert_eq!(cmap_lookup(&cmap, 0x9F), Some(0x0178)); // Y with diaeresis
    // Codes WinAnsi leaves undefined have no mapping.
    for code in [0x81, 0x8D, 0x8F, 0x90, 0x9D] {
        assert_eq!(cmap_lookup(&cmap, code), None);
    }
}

/// The CMap must resolve every code to exactly the character `decode` names,
/// which is what stops the extraction table drifting from the bytes written.
#[test]
fn tounicode_cmap_agrees_with_the_encoding_table_for_every_code() {
    let cmap = to_unicode_cmap();
    for code in 0u8..=0xFF {
        assert_eq!(
            cmap_lookup(&cmap, code).and_then(char::from_u32),
            decode(code),
            "CMap disagrees with the encoding table at {code:#04X}"
        );
    }
}

#[test]
fn ascii_characters_encode_to_their_own_byte() {
    for code in 0x20u8..=0x7E {
        let c = char::from(code);
        assert_eq!(encode_char(c), Some(code), "ASCII {c:?}");
    }
}

#[test]
fn latin1_characters_encode_to_their_own_byte() {
    for code in 0xA0u8..=0xFF {
        let c = char::from(code);
        assert_eq!(encode_char(c), Some(code), "Latin-1 {c:?}");
    }
}

#[test]
fn divergent_cp1252_characters_encode_to_their_win_ansi_code() {
    for &(c, code) in DIVERGENT {
        assert_eq!(encode_char(c), Some(code), "divergent {c:?}");
    }
}

#[test]
fn c1_control_characters_have_no_win_ansi_code() {
    for code in 0x80u32..=0x9F {
        let c = char::from_u32(code).expect("C1 controls are valid scalars");
        assert_eq!(encode_char(c), None, "C1 control U+{code:04X}");
    }
}

#[test]
fn characters_outside_win_ansi_have_no_code() {
    for c in ['中', '😀', 'Ā', '\u{7F}', '\t', '\n', 'ﬁ'] {
        assert_eq!(encode_char(c), None, "unencodable {c:?}");
    }
}

#[test]
fn decode_rejects_codes_win_ansi_leaves_undefined() {
    for &code in UNDEFINED_CODES {
        assert_eq!(decode(code), None, "undefined code {code:#04X}");
    }
}

#[test]
fn decode_maps_divergent_codes_to_their_cp1252_character() {
    for &(c, code) in DIVERGENT {
        assert_eq!(decode(code), Some(c), "divergent code {code:#04X}");
    }
}

/// The anti-drift guarantee: every code the encoding defines survives a
/// decode/encode round trip, so the byte the writer emits, the slot the
/// `/Widths` array uses, and the CMap entry all name the same character.
#[test]
fn every_defined_code_round_trips_through_decode_and_encode() {
    let defined: Vec<u8> = (0u8..=0xFF).filter(|&c| decode(c).is_some()).collect();
    assert_eq!(
        defined.len(),
        0x5F + 0x60 + 27,
        "WinAnsiEncoding defines 218 codes"
    );
    for code in defined {
        let c = decode(code).expect("filtered to defined codes");
        assert_eq!(encode_char(c), Some(code), "round trip of {code:#04X}");
    }
}

#[test]
fn encode_maps_mixed_text_to_win_ansi_bytes() {
    let encoded = encode("café €5");
    assert_eq!(
        encoded.bytes,
        vec![b'c', b'a', b'f', 0xE9, b' ', 0x80, b'5']
    );
    assert!(encoded.unencodable.is_empty());
}

#[test]
fn encode_substitutes_question_mark_for_unencodable_characters() {
    let encoded = encode("a中b");
    assert_eq!(encoded.bytes, vec![b'a', SUBSTITUTE, b'b']);
}

#[test]
fn encode_reports_each_unencodable_character_once_in_first_seen_order() {
    let encoded = encode("中😀中");
    assert_eq!(encoded.unencodable, vec!['中', '😀']);
}

/// "café" typed on some input methods (or pasted from macOS) arrives as
/// NFD: 'e' followed by a combining acute accent, rather than the
/// precomposed 'é'. WinAnsiEncoding only has a code for the precomposed
/// form, so without normalization the accent is silently dropped to '?'.
#[test]
fn encode_normalizes_nfd_input_to_nfc_before_encoding() {
    let nfd = "cafe\u{0301}"; // e + combining acute accent (U+0301)
    let nfc = "café"; // precomposed é (U+00E9)
    assert_eq!(encode(nfd).bytes, encode(nfc).bytes);
    assert!(encode(nfd).unencodable.is_empty());
}

#[test]
fn merge_unencodable_keeps_first_seen_order_and_skips_repeats() {
    let mut seen = vec!['a', 'b'];
    merge_unencodable(&mut seen, vec!['b', 'c', 'a', 'd', 'c']);
    assert_eq!(seen, vec!['a', 'b', 'c', 'd']);
}

#[test]
fn encode_of_empty_text_is_empty() {
    let encoded = encode("");
    assert!(encoded.bytes.is_empty());
    assert!(encoded.unencodable.is_empty());
}

#[test]
fn encode_writes_one_byte_per_normalized_character() {
    let encoded = encode("\u{2018}x\u{2019} \u{00A0}\u{00FF}");
    assert_eq!(encoded.bytes, vec![0x91, b'x', 0x92, b' ', 0xA0, 0xFF]);
}

#[test]
fn decode_and_encode_char_agree_on_boundaries() {
    assert_eq!(decode(0x20), Some(' '));
    assert_eq!(decode(0x7E), Some('~'));
    assert_eq!(decode(0x7F), None);
    assert_eq!(decode(0xA0), Some('\u{00A0}'));
    assert_eq!(encode_char('\u{0100}'), None);
    assert_eq!(encode_char('\u{1F}'), None);
}

#[test]
fn tounicode_cmap_is_the_exact_expected_text() {
    let cmap = to_unicode_cmap();
    assert!(cmap.starts_with("/CIDInit /ProcSet findresource begin\n12 dict begin\nbegincmap\n"));
    assert!(cmap.contains("1 begincodespacerange\n<20> <FF>\nendcodespacerange\n2 beginbfrange\n<20> <7E> <0020>\n<A0> <FF> <00A0>\nendbfrange\n27 beginbfchar\n<80> <20AC>\n<82> <201A>\n"));
    assert!(cmap.ends_with("<9F> <0178>\nendbfchar\nendcmap\nCMapName currentdict /CMap defineresource pop\nend\nend\n"));
}

#[test]
fn encode_normalized_takes_its_input_as_already_composed() {
    let encoded = encode_normalized("cafe\u{301}");
    assert_eq!(encoded.bytes, vec![0x63, 0x61, 0x66, 0x65, SUBSTITUTE]);
    assert_eq!(encoded.unencodable, vec!['\u{301}']);
}

#[test]
fn encode_composes_a_combining_accent_before_encoding() {
    let encoded = encode("cafe\u{301}");
    assert_eq!(encoded.bytes, vec![0x63, 0x61, 0x66, 0xE9]);
    assert!(encoded.unencodable.is_empty());
}

#[test]
fn merging_the_same_characters_again_changes_nothing() {
    let mut seen = vec!['a'];
    merge_unencodable(&mut seen, vec!['中', 'a', '😀', '中']);
    let once = seen.clone();
    merge_unencodable(&mut seen, vec!['中', 'a', '😀', '中']);
    assert_eq!(seen, once);
    assert_eq!(once, vec!['a', '中', '😀']);
}

#[test]
fn two_merges_are_one_merge_of_both_lists() {
    let mut stepwise = vec!['x'];
    merge_unencodable(&mut stepwise, vec!['中', 'x']);
    merge_unencodable(&mut stepwise, vec!['😀', '中', 'y']);
    let mut at_once = vec!['x'];
    merge_unencodable(&mut at_once, vec!['中', 'x', '😀', '中', 'y']);
    assert_eq!(stepwise, at_once);
}
