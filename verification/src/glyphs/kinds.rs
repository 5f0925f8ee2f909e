//! The kind of a glyph: the character it draws, or, for a glyph with no
//! code point, the name under which other glyphs use it as a component.
use vstd::prelude::*;

use std::cmp::Ordering;

use crate::text::{chars_less, str_equal, str_less};

verus! {

/// What a glyph stands for.
#[derive(Debug, Clone)]
pub enum GlyphKind {
    /// A glyph mapped to a character.
    Char(char),
    /// A glyph with no code point, known by its name.
    Component(String),
}

/// Two kinds are the same: the same character, or the same name.
pub open spec fn same_kind(a: GlyphKind, b: GlyphKind) -> bool {
    match (a, b) {
        (GlyphKind::Char(x), GlyphKind::Char(y)) => x == y,
        (GlyphKind::Component(x), GlyphKind::Component(y)) => x@ == y@,
        _ => false,
    }
}

/// The order of glyphs by kind: characters first, by code point; then
/// components, by name.
pub open spec fn kind_less(a: GlyphKind, b: GlyphKind) -> bool {
    match (a, b) {
        (GlyphKind::Char(x), GlyphKind::Char(y)) => chars_less(seq![x], seq![y]),
        (GlyphKind::Char(_), GlyphKind::Component(_)) => true,
        (GlyphKind::Component(_), GlyphKind::Char(_)) => false,
        (GlyphKind::Component(x), GlyphKind::Component(y)) => chars_less(x@, y@),
    }
}

impl PartialEq for GlyphKind {
    fn eq(&self, other: &Self) -> (ret: bool) {
        match (self, other) {
            (GlyphKind::Char(x), GlyphKind::Char(y)) => *x == *y,
            (GlyphKind::Component(x), GlyphKind::Component(y)) => str_equal(x.as_str(), y.as_str()),
            _ => false,
        }
    }
}

impl vstd::std_specs::cmp::PartialEqSpecImpl for GlyphKind {
    open spec fn obeys_eq_spec() -> bool {
        true
    }

    open spec fn eq_spec(&self, other: &Self) -> bool {
        same_kind(*self, *other)
    }
}

impl Eq for GlyphKind {

}

impl Default for GlyphKind {
    /// A space character.
    fn default() -> (ret: Self)
        ensures
            ret == GlyphKind::Char(' '),
    {
        GlyphKind::Char(' ')
    }
}

impl GlyphKind {
    /// Compares two kinds: characters before components, characters by
    /// code point, components by name.
    pub fn compare(&self, other: &Self) -> (ret: Ordering)
        ensures
            (ret == Ordering::Less) == kind_less(*self, *other),
            (ret == Ordering::Equal) == same_kind(*self, *other),
            (ret == Ordering::Greater) == kind_less(*other, *self),
    {
        proof {
            lemma_kind_less_irreflexive(*self);
            lemma_kind_less_asymmetric(*self, *other);
            lemma_kind_less_total(*self, *other);
        }
        match (self, other) {
            (GlyphKind::Char(x), GlyphKind::Char(y)) => {
                if *x == *y {
                    Ordering::Equal
                } else if crate::text::char_less(*x, *y) {
                    Ordering::Less
                } else {
                    Ordering::Greater
                }
            },
            (GlyphKind::Char(_), GlyphKind::Component(_)) => Ordering::Less,
            (GlyphKind::Component(_), GlyphKind::Char(_)) => Ordering::Greater,
            (GlyphKind::Component(x), GlyphKind::Component(y)) => {
                if str_less(x.as_str(), y.as_str()) {
                    Ordering::Less
                } else if str_equal(x.as_str(), y.as_str()) {
                    Ordering::Equal
                } else {
                    Ordering::Greater
                }
            },
        }
    }
}

/// No sequence comes before itself.
pub proof fn lemma_chars_less_irreflexive(a: Seq<char>)
    ensures
        !chars_less(a, a),
    decreases a.len(),
{
    if a.len() > 0 {
        lemma_chars_less_irreflexive(a.drop_first());
    }
}

/// Of two sequences, at most one comes before the other.
pub proof fn lemma_chars_less_asymmetric(a: Seq<char>, b: Seq<char>)
    ensures
        !(chars_less(a, b) && chars_less(b, a)),
    decreases a.len(),
{
    if a.len() > 0 && b.len() > 0 && a[0] == b[0] {
        lemma_chars_less_asymmetric(a.drop_first(), b.drop_first());
    }
}

/// Of two different sequences, one comes before the other.
pub proof fn lemma_chars_less_total(a: Seq<char>, b: Seq<char>)
    ensures
        a =~= b || chars_less(a, b) || chars_less(b, a),
    decreases a.len(),
{
    if a.len() > 0 && b.len() > 0 {
        if a[0] == b[0] {
            lemma_chars_less_total(a.drop_first(), b.drop_first());
            if a.drop_first() =~= b.drop_first() {
                assert(a =~= seq![a[0]] + a.drop_first());
                assert(b =~= seq![b[0]] + b.drop_first());
            }
        } else {
            assert((a[0] as int) != (b[0] as int));
        }
    }
}

/// The order is transitive.
pub proof fn lemma_chars_less_transitive(a: Seq<char>, b: Seq<char>, c: Seq<char>)
    requires
        chars_less(a, b),
        chars_less(b, c),
    ensures
        chars_less(a, c),
    decreases a.len(),
{
    if a.len() > 0 && b.len() > 0 && c.len() > 0 && a[0] == b[0] && b[0] == c[0] {
        lemma_chars_less_transitive(a.drop_first(), b.drop_first(), c.drop_first());
    }
}

proof fn lemma_kind_less_irreflexive(a: GlyphKind)
    ensures
        !kind_less(a, a),
        same_kind(a, a),
{
    match a {
        GlyphKind::Char(x) => lemma_chars_less_irreflexive(seq![x]),
        GlyphKind::Component(x) => lemma_chars_less_irreflexive(x@),
    }
}

proof fn lemma_kind_less_asymmetric(a: GlyphKind, b: GlyphKind)
    ensures
        !(kind_less(a, b) && kind_less(b, a)),
        same_kind(a, b) ==> !kind_less(a, b) && !kind_less(b, a),
{
    match (a, b) {
        (GlyphKind::Char(x), GlyphKind::Char(y)) => {
            lemma_chars_less_asymmetric(seq![x], seq![y]);
            lemma_chars_less_irreflexive(seq![x]);
        },
        (GlyphKind::Component(x), GlyphKind::Component(y)) => {
            lemma_chars_less_asymmetric(x@, y@);
            lemma_chars_less_irreflexive(x@);
        },
        _ => {},
    }
}

proof fn lemma_kind_less_total(a: GlyphKind, b: GlyphKind)
    ensures
        same_kind(a, b) || kind_less(a, b) || kind_less(b, a),
{
    match (a, b) {
        (GlyphKind::Char(x), GlyphKind::Char(y)) => {
            lemma_chars_less_total(seq![x], seq![y]);
            if seq![x] =~= seq![y] {
                assert(seq![x][0] == seq![y][0]);
            }
        },
        (GlyphKind::Component(x), GlyphKind::Component(y)) => {
            lemma_chars_less_total(x@, y@);
        },
        _ => {},
    }
}

/// Glyphs are totally ordered by kind: no kind comes before itself, of two
/// different kinds exactly one comes first, and the order is transitive.
pub proof fn law_kind_order_is_total(a: GlyphKind, b: GlyphKind, c: GlyphKind)
    ensures
        !kind_less(a, a),
        same_kind(a, b) || kind_less(a, b) || kind_less(b, a),
        !(kind_less(a, b) && kind_less(b, a)),
        kind_less(a, b) && kind_less(b, c) ==> kind_less(a, c),
{
    lemma_kind_less_irreflexive(a);
    lemma_kind_less_total(a, b);
    lemma_kind_less_asymmetric(a, b);
    if kind_less(a, b) && kind_less(b, c) {
        match (a, b, c) {
            (GlyphKind::Char(x), GlyphKind::Char(y), GlyphKind::Char(z)) => {
                lemma_chars_less_transitive(seq![x], seq![y], seq![z]);
            },
            (GlyphKind::Component(x), GlyphKind::Component(y), GlyphKind::Component(z)) => {
                lemma_chars_less_transitive(x@, y@, z@);
            },
            _ => {},
        }
    }
}

} // verus!
