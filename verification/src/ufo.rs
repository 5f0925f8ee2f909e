//! Files of the Unified Font Object (UFO) format, version 3: the rules that
//! their contents follow.
use vstd::prelude::*;

use indexmap::IndexMap;
use rand::seq::IteratorRandom;

use crate::indexed::{inserted_entries, map_entries, string_map_insert, string_map_new};

pub mod layers;

verus! {

/// A font of a family found on disk.
#[derive(Debug)]
pub struct UFOInstance {
    pub directory_name: String,
    pub full_path: String,
    pub family_name: String,
    pub style_name: String,
}

/// A range of a `gasp` table: the sizes up to `range_max_ppem` pixels per
/// em, and how glyphs are rendered there.
#[derive(Default, PartialEq, Eq, Clone, Debug)]
pub struct OpenTypeGaspRangeRecord {
    pub range_max_ppem: u8,
    pub range_gasp_behavior: Vec<RangeGaspBehavior>,
}

/// A rendering behaviour of a `gasp` range, by its bit number.
#[allow(non_camel_case_types)]
#[derive(PartialEq, Eq, Clone, Copy, Debug, Structural)]
pub enum RangeGaspBehavior {
    /// Bit 0 (0x0001).
    GASP_GRIDFIT,
    /// Bit 1 (0x0002).
    GASP_DOGRAY,
    /// Bit 2 (0x0004).
    GASP_SYMMETRIC_GRIDFIT,
    /// Bit 3 (0x0008).
    GASP_SYMMETRIC_SMOOTHING,
}

/// The bit number of each behaviour.
pub open spec fn gasp_bit(b: RangeGaspBehavior) -> u8 {
    match b {
        RangeGaspBehavior::GASP_GRIDFIT => 0,
        RangeGaspBehavior::GASP_DOGRAY => 1,
        RangeGaspBehavior::GASP_SYMMETRIC_GRIDFIT => 2,
        RangeGaspBehavior::GASP_SYMMETRIC_SMOOTHING => 3,
    }
}

impl RangeGaspBehavior {
    /// The bit number of the behaviour.
    pub fn value(self) -> (ret: u8)
        ensures
            ret == gasp_bit(self),
    {
        match self {
            RangeGaspBehavior::GASP_GRIDFIT => 0,
            RangeGaspBehavior::GASP_DOGRAY => 1,
            RangeGaspBehavior::GASP_SYMMETRIC_GRIDFIT => 2,
            RangeGaspBehavior::GASP_SYMMETRIC_SMOOTHING => 3,
        }
    }

    /// The behaviour with bit number `n`, if there is one.
    pub fn from_value(n: u8) -> (ret: Option<Self>)
        ensures
            match ret {
                Some(b) => gasp_bit(b) == n,
                None => n > 3,
            },
    {
        match n {
            0 => Some(RangeGaspBehavior::GASP_GRIDFIT),
            1 => Some(RangeGaspBehavior::GASP_DOGRAY),
            2 => Some(RangeGaspBehavior::GASP_SYMMETRIC_GRIDFIT),
            3 => Some(RangeGaspBehavior::GASP_SYMMETRIC_SMOOTHING),
            _ => None,
        }
    }
}

/// A record of the OpenType `name` table.
#[derive(Default, PartialEq, Eq, Clone, Debug)]
pub struct NameRecord {
    /// The name ID.
    pub name_id: Option<u64>,
    /// The platform ID.
    pub platform_id: Option<u64>,
    /// The encoding ID.
    pub encoding_id: Option<u64>,
    /// The language ID.
    pub language_id: Option<u64>,
    /// The string value for the record.
    pub string: Option<String>,
}

/// The character set of a PostScript font on Windows, by its code.
#[derive(PartialEq, Eq, Clone, Copy, Debug, Structural)]
pub enum PostscriptWindowsCharacterSet {
    ANSI,
    Default,
    Symbol,
    Macintosh,
    ShiftJIS,
    Hangul,
    HangulJohab,
    GB2312,
    ChineseBIG5,
    Greek,
    Turkish,
    Vietnamese,
    Hebrew,
    Arabic,
    Baltic,
    Bitstream,
    Cyrillic,
    Thai,
    EuropeanEastern,
    OEM,
}

/// The code of each character set, from 1 to 20 in the order of the
/// specification.
pub open spec fn charset_code(c: PostscriptWindowsCharacterSet) -> u8 {
    match c {
        PostscriptWindowsCharacterSet::ANSI => 1,
        PostscriptWindowsCharacterSet::Default => 2,
        PostscriptWindowsCharacterSet::Symbol => 3,
        PostscriptWindowsCharacterSet::Macintosh => 4,
        PostscriptWindowsCharacterSet::ShiftJIS => 5,
        PostscriptWindowsCharacterSet::Hangul => 6,
        PostscriptWindowsCharacterSet::HangulJohab => 7,
        PostscriptWindowsCharacterSet::GB2312 => 8,
        PostscriptWindowsCharacterSet::ChineseBIG5 => 9,
        PostscriptWindowsCharacterSet::Greek => 10,
        PostscriptWindowsCharacterSet::Turkish => 11,
        PostscriptWindowsCharacterSet::Vietnamese => 12,
        PostscriptWindowsCharacterSet::Hebrew => 13,
        PostscriptWindowsCharacterSet::Arabic => 14,
        PostscriptWindowsCharacterSet::Baltic => 15,
        PostscriptWindowsCharacterSet::Bitstream => 16,
        PostscriptWindowsCharacterSet::Cyrillic => 17,
        PostscriptWindowsCharacterSet::Thai => 18,
        PostscriptWindowsCharacterSet::EuropeanEastern => 19,
        PostscriptWindowsCharacterSet::OEM => 20,
    }
}

impl PostscriptWindowsCharacterSet {
    /// The code of the character set.
    pub fn value(self) -> (ret: u8)
        ensures
            ret == charset_code(self),
    {
        match self {
            PostscriptWindowsCharacterSet::ANSI => 1,
            PostscriptWindowsCharacterSet::Default => 2,
            PostscriptWindowsCharacterSet::Symbol => 3,
            PostscriptWindowsCharacterSet::Macintosh => 4,
            PostscriptWindowsCharacterSet::ShiftJIS => 5,
            PostscriptWindowsCharacterSet::Hangul => 6,
            PostscriptWindowsCharacterSet::HangulJohab => 7,
            PostscriptWindowsCharacterSet::GB2312 => 8,
            PostscriptWindowsCharacterSet::ChineseBIG5 => 9,
            PostscriptWindowsCharacterSet::Greek => 10,
            PostscriptWindowsCharacterSet::Turkish => 11,
            PostscriptWindowsCharacterSet::Vietnamese => 12,
            PostscriptWindowsCharacterSet::Hebrew => 13,
            PostscriptWindowsCharacterSet::Arabic => 14,
            PostscriptWindowsCharacterSet::Baltic => 15,
            PostscriptWindowsCharacterSet::Bitstream => 16,
            PostscriptWindowsCharacterSet::Cyrillic => 17,
            PostscriptWindowsCharacterSet::Thai => 18,
            PostscriptWindowsCharacterSet::EuropeanEastern => 19,
            PostscriptWindowsCharacterSet::OEM => 20,
        }
    }

    /// The character set with code `n`, if there is one.
    pub fn from_value(n: u8) -> (ret: Option<Self>)
        ensures
            match ret {
                Some(c) => charset_code(c) == n,
                None => n == 0 || n > 20,
            },
    {
        match n {
            1 => Some(PostscriptWindowsCharacterSet::ANSI),
            2 => Some(PostscriptWindowsCharacterSet::Default),
            3 => Some(PostscriptWindowsCharacterSet::Symbol),
            4 => Some(PostscriptWindowsCharacterSet::Macintosh),
            5 => Some(PostscriptWindowsCharacterSet::ShiftJIS),
            6 => Some(PostscriptWindowsCharacterSet::Hangul),
            7 => Some(PostscriptWindowsCharacterSet::HangulJohab),
            8 => Some(PostscriptWindowsCharacterSet::GB2312),
            9 => Some(PostscriptWindowsCharacterSet::ChineseBIG5),
            10 => Some(PostscriptWindowsCharacterSet::Greek),
            11 => Some(PostscriptWindowsCharacterSet::Turkish),
            12 => Some(PostscriptWindowsCharacterSet::Vietnamese),
            13 => Some(PostscriptWindowsCharacterSet::Hebrew),
            14 => Some(PostscriptWindowsCharacterSet::Arabic),
            15 => Some(PostscriptWindowsCharacterSet::Baltic),
            16 => Some(PostscriptWindowsCharacterSet::Bitstream),
            17 => Some(PostscriptWindowsCharacterSet::Cyrillic),
            18 => Some(PostscriptWindowsCharacterSet::Thai),
            19 => Some(PostscriptWindowsCharacterSet::EuropeanEastern),
            20 => Some(PostscriptWindowsCharacterSet::OEM),
            _ => None,
        }
    }
}

/// The contents of `metainfo.plist`: who made the font files, and the
/// version of the format.
#[derive(Debug, PartialEq, Eq)]
pub struct MetaInfo {
    /// The application or library that created the UFO, in reverse domain
    /// notation.
    pub creator: String,
    /// The major version of the UFO format.
    pub format_version: u64,
    /// The minor version of the UFO format.
    pub format_version_minor: u64,
}

impl Default for MetaInfo {
    /// Files made by this application, in version 3.0 of the format.
    fn default() -> (ret: Self)
        ensures
            ret.creator@ == crate::APPLICATION_ID@,
            ret.format_version == 3,
            ret.format_version_minor == 0,
    {
        MetaInfo {
            creator: String::from_str(crate::APPLICATION_ID),
            format_version: 3,
            format_version_minor: 0,
        }
    }
}

/// The contents of `contents.plist`: the glyph names, each with the name
/// of the file of the glyph, in order; and whether they changed since
/// they were read or saved.
#[derive(Debug)]
pub struct Contents {
    glyphs: IndexMap<String, String>,
    modified: bool,
}

impl Contents {
    /// The glyph names and file names, in order.
    pub closed spec fn entries(&self) -> Seq<(Seq<char>, Seq<char>)> {
        map_entries(self.glyphs)
    }

    /// Whether the contents changed since they were read or saved.
    pub closed spec fn is_modified(&self) -> bool {
        self.modified
    }

    /// No glyphs, and nothing to save.
    pub fn new() -> (ret: Self)
        ensures
            ret.entries() == Seq::<(Seq<char>, Seq<char>)>::empty(),
            !ret.is_modified(),
    {
        Contents { glyphs: string_map_new(), modified: false }
    }

    /// The contents read from a file: the glyph names and file names.
    pub fn from_glyphs(glyphs: IndexMap<String, String>) -> (ret: Self)
        ensures
            ret.entries() == map_entries(glyphs),
            !ret.is_modified(),
    {
        Contents { glyphs, modified: false }
    }

    /// The glyph names and file names, in order.
    pub fn glyphs(&self) -> (ret: &IndexMap<String, String>)
        ensures
            map_entries(*ret) == self.entries(),
    {
        &self.glyphs
    }

    /// Maps the glyph `name` to the file `filename`: a glyph listed already
    /// keeps its place. The contents are then modified.
    pub fn insert(&mut self, name: String, filename: String)
        ensures
            final(self).entries() == inserted_entries(old(self).entries(), name@, filename@),
            final(self).is_modified(),
    {
        string_map_insert(&mut self.glyphs, name, filename);
        self.modified = true;
    }

    /// Whether a save must write the file: when the contents changed, or
    /// when the file is to be created.
    pub fn needs_save(&self, create: bool) -> (ret: bool)
        ensures
            ret == (self.is_modified() || create),
    {
        self.modified || create
    }

    /// Records that the contents were saved.
    pub fn mark_saved(&mut self)
        ensures
            final(self).entries() == old(self).entries(),
            !final(self).is_modified(),
    {
        self.modified = false;
    }
}

/// The characters that identifiers are made of.
pub const IDENTIFIER_CHARACTERS: &'static str = "0123456789ABCDEFGHIJKLMNOPQRSTUVWXYZabcdefghijklmnopqrstuvwxyz";

/// The number of characters of an identifier.
pub const IDENTIFIER_LEN: usize = 10;

/// `picked` holds characters of `s` taken from the distinct positions `pos`.
pub open spec fn picked_from(s: Seq<char>, picked: Seq<char>, pos: Seq<int>) -> bool {
    &&& pos.len() == picked.len()
    &&& forall|i: int| 0 <= i < pos.len() ==> 0 <= #[trigger] pos[i] < s.len() && s[pos[i]] == picked[i]
    &&& forall|i: int, j: int| 0 <= i < j < pos.len() ==> #[trigger] pos[i] != #[trigger] pos[j]
}

/// Picks `amount` characters of `s` at random, each from another position,
/// all of them when `s` has fewer (`IteratorRandom::choose_multiple` on the
/// characters of `s`, with the thread's random generator). Which ones, and
/// in which order, is left to chance.
#[verifier::external_body]
fn choose_multiple_chars(s: &str, amount: usize) -> (ret: Vec<char>)
    ensures
        ret@.len() == (if amount <= s@.len() {
            amount as nat
        } else {
            s@.len()
        }),
        exists|pos: Seq<int>| picked_from(s@, ret@, pos),
{
    s.chars().choose_multiple(&mut rand::thread_rng(), amount)
}

/// The string of the characters `v` (`Iterator::collect` into a `String`).
#[verifier::external_body]
fn string_from_chars(v: Vec<char>) -> (ret: String)
    ensures
        ret@ == v@,
{
    v.into_iter().collect()
}

/// A random identifier, as the UFO conventions suggest: ten characters,
/// each an ASCII digit or letter, none of them twice.
pub fn make_random_identifier() -> (ret: String)
    ensures
        ret@.len() == IDENTIFIER_LEN,
        forall|i: int| 0 <= i < ret@.len() ==> IDENTIFIER_CHARACTERS@.contains(#[trigger] ret@[i]),
        forall|i: int, j: int| 0 <= i < j < ret@.len() ==> #[trigger] ret@[i] != #[trigger] ret@[j],
{
    proof {
        reveal_strlit("0123456789ABCDEFGHIJKLMNOPQRSTUVWXYZabcdefghijklmnopqrstuvwxyz");
    }
    let chars = choose_multiple_chars(IDENTIFIER_CHARACTERS, IDENTIFIER_LEN);
    let ghost s = IDENTIFIER_CHARACTERS@;
    proof {
        assert(s.len() == 62);
        assert forall|i: int, j: int| 0 <= i < j < 62 implies (s[i] as int) < (s[j] as int) by {
            assert(forall|k: int| 0 <= k < 61 ==> (#[trigger] s[k] as int) < (s[k + 1] as int));
            lemma_increasing(s, i, j);
        }
        let pos = choose|pos: Seq<int>| picked_from(s, chars@, pos);
        assert forall|i: int| 0 <= i < chars@.len() implies s.contains(#[trigger] chars@[i]) by {
            assert(s[pos[i]] == chars@[i]);
        }
        assert forall|i: int, j: int| 0 <= i < j < chars@.len() implies #[trigger] chars@[i]
            != #[trigger] chars@[j] by {
            let (a, b) = (pos[i], pos[j]);
            assert(a != b);
            if a < b {
                assert((s[a] as int) < (s[b] as int));
            } else {
                assert((s[b] as int) < (s[a] as int));
            }
        }
    }
    string_from_chars(chars)
}

proof fn lemma_increasing(s: Seq<char>, i: int, j: int)
    requires
        0 <= i < j < s.len(),
        forall|k: int| 0 <= k < s.len() - 1 ==> (#[trigger] s[k] as int) < (s[k + 1] as int),
    ensures
        (s[i] as int) < (s[j] as int),
    decreases j - i,
{
    if i + 1 < j {
        lemma_increasing(s, i + 1, j);
        assert((s[i] as int) < (s[i + 1] as int));
    }
}

} // verus!
