//! Glyphs: their kinds and metadata, and the points of their outlines.
use vstd::prelude::*;

pub mod glif;
pub mod codepoints;
pub mod contours;
pub mod kinds;
pub mod transform;

pub use kinds::GlyphKind;

verus! {

/// Identifies a point of a glyph: the contour, the curve within the
/// contour, and the point's unique identifier.
#[derive(Clone, Copy, Hash, Eq, PartialEq, Structural, Debug, Default)]
pub struct GlyphPointIndex {
    pub contour_index: usize,
    pub curve_index: usize,
    pub uuid: u128,
}

/// The byte of `x` at position `i`, counting from the least significant.
pub open spec fn le_byte(x: u128, i: int) -> u8 {
    ((x >> (8 * i) as u128) & 0xff) as u8
}

/// The little-endian bytes of the low `n` bytes of `x`.
pub open spec fn le_bytes(x: u128, n: nat) -> Seq<u8> {
    Seq::new(n, |i: int| le_byte(x, i))
}

/// The bytes of a uuid, most significant first.
pub open spec fn be_bytes(x: u128) -> Seq<u8> {
    Seq::new(16, |i: int| le_byte(x, 15 - i))
}

/// The size of a `usize` in bytes.
pub open spec fn usize_bytes() -> nat {
    (usize::BITS / 8) as nat
}

fn push_le_bytes(out: &mut Vec<u8>, x: u128, n: u32)
    requires
        n <= 16,
    ensures
        final(out)@ == old(out)@ + le_bytes(x, n as nat),
{
    let ghost start = out@;
    let mut i: u32 = 0;
    while i < n
        invariant
            n <= 16,
            i <= n,
            out@ == start + le_bytes(x, i as nat),
        decreases n - i,
    {
        let b = ((x >> (8 * i)) & 0xff) as u8;
        proof {
            assert(le_bytes(x, (i + 1) as nat) =~= le_bytes(x, i as nat).push(b));
        }
        out.push(b);
        i = i + 1;
    }
}

impl GlyphPointIndex {
    /// The bytes that identify the point: the contour index and the curve
    /// index in little-endian order, then the uuid's bytes.
    pub fn as_bytes(&self) -> (ret: Vec<u8>)
        ensures
            ret@ == le_bytes(self.contour_index as u128, usize_bytes()) + le_bytes(
                self.curve_index as u128,
                usize_bytes(),
            ) + be_bytes(self.uuid),
    {
        let mut ret: Vec<u8> = Vec::new();
        let n = usize::BITS / 8;
        assert(usize::BITS == 32 || usize::BITS == 64);
        push_le_bytes(&mut ret, self.contour_index as u128, n);
        push_le_bytes(&mut ret, self.curve_index as u128, n);
        let ghost before_uuid = ret@;
        let mut i: u32 = 0;
        while i < 16
            invariant
                i <= 16,
                ret@ == before_uuid + Seq::new(i as nat, |j: int| le_byte(self.uuid, 15 - j)),
            decreases 16 - i,
        {
            let b = ((self.uuid >> (8 * (15 - i))) & 0xff) as u8;
            proof {
                assert(Seq::new((i + 1) as nat, |j: int| le_byte(self.uuid, 15 - j)) =~= Seq::new(
                    i as nat,
                    |j: int| le_byte(self.uuid, 15 - j),
                ).push(b));
            }
            ret.push(b);
            i = i + 1;
        }
        assert(Seq::new(16, |j: int| le_byte(self.uuid, 15 - j)) =~= be_bytes(self.uuid));
        ret
    }
}

/// What the editor knows about a glyph besides its outline.
#[derive(Debug, Default)]
pub struct GlyphMetadata {
    pub modified: bool,
    pub relative_path: String,
    pub name: String,
    pub kinds: (GlyphKind, Vec<GlyphKind>),
    pub filename: String,
    pub glif_source: String,
}

impl GlyphMetadata {
    /// The glyph's name.
    pub fn name(&self) -> (ret: &String)
        ensures
            ret == &self.name,
    {
        &self.name
    }

    /// The name of the glyph's file.
    pub fn filename(&self) -> (ret: &String)
        ensures
            ret == &self.filename,
    {
        &self.filename
    }

    /// The glyph's main kind and its other kinds.
    pub fn kinds(&self) -> (ret: &(GlyphKind, Vec<GlyphKind>))
        ensures
            ret == &self.kinds,
    {
        &self.kinds
    }

    /// Whether the glyph changed since it was last saved.
    pub fn modified(&self) -> (ret: bool)
        ensures
            ret == self.modified,
    {
        self.modified
    }
}

} // verus!
