//! The code points of a glyph, as a GLIF file lists them: hexadecimal
//! numbers, each naming one character the glyph draws.
use vstd::prelude::*;

use crate::glyphs::kinds::GlyphKind;

verus! {

/// The value of a hexadecimal digit, if `c` is one.
pub open spec fn hex_digit(c: char) -> Option<nat> {
    if '0' <= c && c <= '9' {
        Some((c as int - '0' as int) as nat)
    } else if 'a' <= c && c <= 'f' {
        Some((c as int - 'a' as int + 10) as nat)
    } else if 'A' <= c && c <= 'F' {
        Some((c as int - 'A' as int + 10) as nat)
    } else {
        None
    }
}

/// Every character of `s` is a hexadecimal digit.
pub open spec fn all_hex_digits(s: Seq<char>) -> bool {
    forall|i: int| 0 <= i < s.len() ==> (#[trigger] hex_digit(s[i])) is Some
}

/// The number that the hexadecimal digits `s` write, most significant first.
pub open spec fn hex_value(s: Seq<char>) -> nat
    decreases s.len(),
{
    if s.len() == 0 {
        0
    } else {
        16 * hex_value(s.drop_last()) + hex_digit(s.last())->0
    }
}

/// The digits of `s` after an optional leading `+`.
pub open spec fn hex_body(s: Seq<char>) -> Seq<char> {
    if s.len() > 0 && s[0] == '+' {
        s.drop_first()
    } else {
        s
    }
}

/// A `u32` written in hexadecimal: an optional `+`, then at least one
/// digit, of either case, with a value that fits in 32 bits.
pub open spec fn parse_hex_spec(s: Seq<char>) -> Option<u32> {
    let body = hex_body(s);
    if body.len() > 0 && all_hex_digits(body) && hex_value(body) <= u32::MAX {
        Some(hex_value(body) as u32)
    } else {
        None
    }
}

/// A value that is a Unicode scalar value: a code point that is not a
/// surrogate.
pub open spec fn is_scalar_value(n: u32) -> bool {
    n < 0xD800 || (0xE000 <= n && n <= 0x10FFFF)
}

/// The character a hexadecimal code point names, if it is one.
pub open spec fn code_point_char(s: Seq<char>) -> Option<char> {
    match parse_hex_spec(s) {
        Some(n) => if is_scalar_value(n) {
            Some(n as char)
        } else {
            None
        },
        None => None,
    }
}

/// The characters of the code points in `hexes` that name one, in order;
/// the others are skipped.
pub open spec fn decoded_chars(hexes: Seq<Seq<char>>) -> Seq<char>
    decreases hexes.len(),
{
    if hexes.len() == 0 {
        Seq::empty()
    } else {
        let rest = decoded_chars(hexes.drop_last());
        match code_point_char(hexes.last()) {
            Some(c) => rest.push(c),
            None => rest,
        }
    }
}

/// The kinds of glyphs that draw the characters `cs`, in order.
pub open spec fn char_kinds(cs: Seq<char>) -> Seq<GlyphKind>
    decreases cs.len(),
{
    if cs.len() == 0 {
        Seq::empty()
    } else {
        char_kinds(cs.drop_last()).push(GlyphKind::Char(cs.last()))
    }
}

/// The code points of a glyph as character sequences.
pub open spec fn hex_views(unicode: Seq<String>) -> Seq<Seq<char>> {
    unicode.map_values(|h: String| h@)
}

/// The kinds of a glyph named `name` with the code points `unicode`: a
/// component kind under its name when it has no code point; else the main
/// kind is the first character its code points name, and the other
/// characters follow in order. Code points that name no character are
/// skipped.
pub open spec fn glyph_kinds_spec(
    name: Seq<char>,
    unicode: Seq<String>,
    ret: (GlyphKind, Seq<GlyphKind>),
) -> bool {
    if unicode.len() == 0 {
        &&& ret.0 matches GlyphKind::Component(n) && n@ == name
        &&& ret.1.len() == 0
    } else {
        let cs = decoded_chars(hex_views(unicode));
        &&& ret.0 == GlyphKind::Char(cs[0])
        &&& ret.1 == char_kinds(cs.drop_first())
    }
}

fn hex_digit_value(c: char) -> (ret: Option<u32>)
    ensures
        match hex_digit(c) {
            Some(v) => ret == Some(v as u32) && v < 16,
            None => ret is None,
        },
{
    if '0' <= c && c <= '9' {
        Some((c as u32) - ('0' as u32))
    } else if 'a' <= c && c <= 'f' {
        Some((c as u32) - ('a' as u32) + 10)
    } else if 'A' <= c && c <= 'F' {
        Some((c as u32) - ('A' as u32) + 10)
    } else {
        None
    }
}

/// Reads a `u32` written in hexadecimal, as `u32::from_str_radix(s, 16)`
/// does: an optional `+`, then digits of either case; `None` on an empty
/// string, a character that is not a digit, or a value that does not fit.
pub fn parse_hex_u32(s: &str) -> (ret: Option<u32>)
    ensures
        ret == parse_hex_spec(s@),
{
    let n = s.unicode_len();
    let mut start: usize = 0;
    if n > 0 && s.get_char(0) == '+' {
        start = 1;
    }
    let ghost body = hex_body(s@);
    assert(body =~= s@.skip(start as int));
    if start == n {
        return None;
    }
    let mut i: usize = start;
    let mut acc: u32 = 0;
    let mut overflow = false;
    while i < n
        invariant
            n == s@.len(),
            start <= i <= n,
            start < n,
            body =~= s@.skip(start as int),
            body == hex_body(s@),
            forall|j: int| 0 <= j < i - start ==> (#[trigger] hex_digit(body[j])) is Some,
            overflow == (hex_value(body.take(i - start)) > u32::MAX),
            !overflow ==> acc == hex_value(body.take(i - start)),
        decreases n - i,
    {
        let c = s.get_char(i);
        let ghost k: int = i - start;
        assert(c == body[k]);
        match hex_digit_value(c) {
            None => {
                assert(!all_hex_digits(body));
                return None;
            },
            Some(d) => {
                proof {
                    let t = body.take(k + 1);
                    assert(t.drop_last() =~= body.take(k));
                    assert(t.last() == c);
                }
                if !overflow {
                    if acc > (u32::MAX - d) / 16 {
                        overflow = true;
                    } else {
                        acc = acc * 16 + d;
                    }
                }
            },
        }
        i = i + 1;
    }
    assert(body.take(n - start) =~= body);
    assert(all_hex_digits(body));
    if overflow {
        None
    } else {
        Some(acc)
    }
}

/// The character with code point `n`, if `n` is a Unicode scalar value.
#[verifier::external_body]
fn char_from_u32(n: u32) -> (ret: Option<char>)
    ensures
        match ret {
            Some(c) => is_scalar_value(n) && c == n as char,
            None => !is_scalar_value(n),
        },
{
    char::from_u32(n)
}

/// The character that a hexadecimal code point names, if it names one.
pub fn code_point_to_char(s: &str) -> (ret: Option<char>)
    ensures
        ret == code_point_char(s@),
{
    match parse_hex_u32(s) {
        Some(n) => char_from_u32(n),
        None => None,
    }
}

/// The kinds of a glyph from its name and its code points, as a GLIF file
/// gives them. A glyph with code points must have one that names a
/// character.
pub fn glyph_kinds(name: &String, unicode: &Vec<String>) -> (ret: (GlyphKind, Vec<GlyphKind>))
    requires
        unicode@.len() == 0 || decoded_chars(hex_views(unicode@)).len() > 0,
    ensures
        glyph_kinds_spec(name@, unicode@, (ret.0, ret.1@)),
{
    if unicode.len() == 0 {
        return (GlyphKind::Component(name.clone()), Vec::new());
    }
    let ghost hexes = hex_views(unicode@);
    let mut chars: Vec<char> = Vec::new();
    let mut i: usize = 0;
    while i < unicode.len()
        invariant
            i <= unicode@.len(),
            hexes == hex_views(unicode@),
            chars@ == decoded_chars(hexes.take(i as int)),
        decreases unicode@.len() - i,
    {
        proof {
            assert(hexes.take(i + 1).drop_last() =~= hexes.take(i as int));
            assert(hexes.take(i + 1).last() == unicode@[i as int]@);
        }
        match code_point_to_char(unicode[i].as_str()) {
            Some(c) => chars.push(c),
            None => {},
        }
        i = i + 1;
    }
    assert(hexes.take(i as int) =~= hexes);
    let first = GlyphKind::Char(chars[0]);
    let mut rest: Vec<GlyphKind> = Vec::new();
    let mut j: usize = 1;
    assert(rest@ =~= char_kinds(chars@.subrange(1, 1)));
    while j < chars.len()
        invariant
            1 <= j <= chars@.len(),
            rest@ == char_kinds(chars@.subrange(1, j as int)),
        decreases chars@.len() - j,
    {
        rest.push(GlyphKind::Char(chars[j]));
        proof {
            assert(chars@.subrange(1, j + 1).drop_last() =~= chars@.subrange(1, j as int));
            assert(rest@ =~= char_kinds(chars@.subrange(1, j + 1)));
        }
        j = j + 1;
    }
    assert(chars@.subrange(1, j as int) =~= chars@.drop_first());

    (first, rest)
}

} // verus!
