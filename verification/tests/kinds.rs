use gerb::glyphs::codepoints::{code_point_to_char, glyph_kinds, parse_hex_u32};
use gerb::glyphs::GlyphKind;
use std::cmp::Ordering;

#[test]
fn hex_code_points() {
    assert_eq!(parse_hex_u32("41"), Some(0x41));
    assert_eq!(parse_hex_u32("+1F170"), Some(0x1F170));
    assert_eq!(parse_hex_u32("fe0f"), Some(0xFE0F));
    assert_eq!(parse_hex_u32("FFFFFFFF"), Some(u32::MAX));
    assert_eq!(parse_hex_u32("100000000"), None);
    assert_eq!(parse_hex_u32(""), None);
    assert_eq!(parse_hex_u32("+"), None);
    assert_eq!(parse_hex_u32("-1"), None);
    assert_eq!(parse_hex_u32("12G"), None);
    assert_eq!(parse_hex_u32("0000000041"), Some(0x41));
    for s in ["0", "7f", "ABCDEF", "+10", "x1", "", "ffffffff0", "123456789"] {
        assert_eq!(parse_hex_u32(s), u32::from_str_radix(s, 16).ok(), "{s}");
    }
}

#[test]
fn code_points_to_characters() {
    assert_eq!(code_point_to_char("41"), Some('A'));
    assert_eq!(code_point_to_char("D800"), None);
    assert_eq!(code_point_to_char("110000"), None);
    assert_eq!(code_point_to_char("zz"), None);
}

#[test]
fn kinds_of_a_glyph() {
    let (main, rest) = glyph_kinds(&"A".to_string(), &vec!["41".to_string(), "391".to_string()]);
    assert_eq!(main, GlyphKind::Char('A'));
    assert_eq!(rest, vec![GlyphKind::Char('\u{391}')]);
    let (main, rest) = glyph_kinds(&"acute".to_string(), &vec![]);
    assert_eq!(main, GlyphKind::Component("acute".to_string()));
    assert!(rest.is_empty());
    let (main, rest) = glyph_kinds(&"x".to_string(), &vec!["D800".to_string(), "78".to_string()]);
    assert_eq!(main, GlyphKind::Char('x'));
    assert!(rest.is_empty());
}

#[test]
fn glyphs_order_by_kind() {
    let a = GlyphKind::Char('a');
    let b = GlyphKind::Char('b');
    let c1 = GlyphKind::Component("acute".to_string());
    let c2 = GlyphKind::Component("grave".to_string());
    assert_eq!(a.compare(&b), Ordering::Less);
    assert_eq!(b.compare(&a), Ordering::Greater);
    assert_eq!(a.compare(&a.clone()), Ordering::Equal);
    assert_eq!(a.compare(&c1), Ordering::Less);
    assert_eq!(c1.compare(&a), Ordering::Greater);
    assert_eq!(c1.compare(&c2), Ordering::Less);
    assert_eq!(c2.compare(&c1), Ordering::Greater);
    assert_eq!(
        GlyphKind::Component("ab".to_string()).compare(&GlyphKind::Component("abc".to_string())),
        Ordering::Less
    );
    assert_eq!(GlyphKind::default(), GlyphKind::Char(' '));
    assert!(c1 == GlyphKind::Component("acute".to_string()));
    assert!(c1 != c2);
}
