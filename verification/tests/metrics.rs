use spe::fonts::FontRegistry;
use spe::metrics::{helvetica_widths, standard_widths, times_bold_widths, WidthTable};

/// Stand-in programs for the four bundled script fonts; the registry keeps
/// the bytes it is given and never reads them.
const BUNDLED_PROGRAMS: [&[u8]; 4] = [b"great-vibes", b"dancing-script", b"pinyon-script", b"pacifico"];

#[test]
fn monospaced_width_table_returns_constant() {
    let table = WidthTable::Monospaced(600);
    assert_eq!(table.char_width('A'), 600);
    assert_eq!(table.char_width('z'), 600);
}

#[test]
fn proportional_width_table_returns_per_char() {
    let mut widths = vec![500u16; 256];
    widths[b'A' as usize] = 667;
    widths[b'i' as usize] = 222;
    let table = WidthTable::Proportional {
        widths,
        default: 500,
    };
    assert_eq!(table.char_width('A'), 667);
    assert_eq!(table.char_width('i'), 222);
}

#[test]
fn proportional_width_table_uses_default_for_non_latin1() {
    let table = WidthTable::Proportional {
        widths: vec![500u16; 256],
        default: 750,
    };
    assert_eq!(table.char_width('\u{1F600}'), 750);
}

#[test]
fn registry_courier_is_monospaced() {
    let registry = FontRegistry::new(BUNDLED_PROGRAMS);
    let courier = registry.find_by_name("Courier").unwrap();
    let widths = standard_widths(courier).unwrap();
    assert_eq!(widths.char_width('A'), 600);
    assert_eq!(widths.char_width('z'), 600);
}

#[test]
fn registry_helvetica_is_proportional() {
    let registry = FontRegistry::new(BUNDLED_PROGRAMS);
    let helvetica = registry.find_by_name("Helvetica").unwrap();
    let widths = standard_widths(helvetica).unwrap();
    let a_width = widths.char_width('A');
    let i_width = widths.char_width('i');
    assert!(a_width > i_width, "A ({a_width}) should be wider than i ({i_width})");
}

#[test]
fn a_width_is_looked_up_through_the_win_ansi_code() {
    // The euro sign is written as code 0x80, which Helvetica's table does
    // not list: it takes the default, as any code outside ASCII does here.
    let table = helvetica_widths();
    assert_eq!(table.char_width('\u{20ac}'), 556);
    assert_eq!(table.char_width(' '), 278);
    assert_eq!(table.char_width('~'), 584);
    // A character with no code at all takes the default too.
    assert_eq!(table.char_width('\u{4e2d}'), 556);
}

#[test]
fn each_standard_font_has_its_family_table() {
    assert_eq!(standard_widths(spe::fonts::FontId(5)).unwrap().char_width('W'), times_bold_widths().char_width('W'));
    assert_eq!(times_bold_widths().char_width('W'), 1000);
    assert_eq!(standard_widths(spe::fonts::FontId(12)).unwrap().char_width('a'), 600);
    assert!(standard_widths(spe::fonts::FontId(14)).is_none());
}
