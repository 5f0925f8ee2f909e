//! Constraints on transformations in the editor: axis locks, precision and
//! snapping. Each is a set of flags; the actions of the editor's menu change
//! them.
use vstd::prelude::*;

verus! {

/// Set operations on flag words of at most four bits stay within four bits.
pub proof fn lemma_four_bits(a: u32, b: u32)
    by (bit_vector)
    requires
        a <= 15,
        b <= 15,
    ensures
        (a | b) <= 15,
        (a & b) <= 15,
        (a & !b) <= 15,
        (a ^ b) <= 15,
{
}

/// Locks of a transformation to an axis or a coordinate system.
#[derive(Debug, Default, Copy, Clone, PartialEq, Eq)]
pub struct Lock {
    bits: u32,
}

impl View for Lock {
    type V = u32;

    closed spec fn view(&self) -> u32 {
        self.bits
    }
}

/// The text that describes a lock, for the lock words that have one.
pub open spec fn lock_text(bits: u32) -> Seq<char> {
    if bits == 0 {
        ""@
    } else if bits == 5 {
        "Locked X axis. | Local coordinates."@
    } else if bits == 9 {
        "Locked X axis. | Control point axis coordinates."@
    } else if bits == 1 {
        "Locked X axis."@
    } else if bits == 6 {
        "Locked Y axis. | Local coordinates."@
    } else if bits == 10 {
        "Locked Y axis. | Control point axis coordinates."@
    } else if bits == 2 {
        "Locked Y axis."@
    } else if bits == 4 {
        "Local coordinates."@
    } else {
        "Control point axis coordinates."@
    }
}

/// The lock words that have a description: at most one axis, and at most one
/// coordinate system.
pub open spec fn lock_is_describable(bits: u32) -> bool {
    bits == 0 || bits == 5 || bits == 9 || bits == 1 || bits == 6 || bits == 10 || bits == 2
        || bits == 4 || bits == 8
}

/// The lock after the action that toggles the lock to `axis`, whose other
/// axis is `complement`.
pub open spec fn lock_axis_spec(bits: u32, axis: u32, complement: u32) -> u32 {
    if bits & axis != 0 {
        0
    } else {
        (bits & !complement) | axis
    }
}

/// The lock after the action that toggles the coordinate system `opt`.
pub open spec fn lock_option_spec(bits: u32, opt: u32) -> u32 {
    if bits & 3 != 0 {
        bits
    } else if bits & opt != 0 {
        bits & !opt
    } else {
        (bits & !12u32) | opt
    }
}

impl Lock {
    /// Lock to the X axis.
    pub fn x() -> (ret: Lock)
        ensures
            ret@ == 1,
    {
        Lock { bits: 1 }
    }
    /// Lock to the Y axis.
    pub fn y() -> (ret: Lock)
        ensures
            ret@ == 2,
    {
        Lock { bits: 2 }
    }
    /// Lock to local coordinates.
    pub fn local() -> (ret: Lock)
        ensures
            ret@ == 4,
    {
        Lock { bits: 4 }
    }
    /// Lock to the control point axis.
    pub fn controls() -> (ret: Lock)
        ensures
            ret@ == 8,
    {
        Lock { bits: 8 }
    }

    #[verifier::type_invariant]
    spec fn inv(self) -> bool {
        self.bits <= 15
    }

    /// No lock.
    pub fn empty() -> (ret: Lock)
        ensures
            ret@ == 0,
    {
        Lock { bits: 0 }
    }

    /// The flag word.
    pub fn bits(&self) -> (ret: u32)
        ensures
            ret == self@,
            ret <= 15,
    {
        proof {
            use_type_invariant(self);
        }
        self.bits
    }

    /// The lock with the given flag word, if it holds only known flags.
    pub fn from_bits(bits: u32) -> (ret: Option<Lock>)
        ensures
            ret is Some <==> bits <= 15,
            ret matches Some(l) ==> l@ == bits,
    {
        if bits <= 15 {
            Some(Lock { bits })
        } else {
            None
        }
    }

    /// Whether the lock holds no flag.
    pub fn is_empty(&self) -> (ret: bool)
        ensures
            ret == (self@ == 0),
    {
        self.bits == 0
    }

    /// Whether the two locks share a flag.
    pub fn intersects(&self, other: Lock) -> (ret: bool)
        ensures
            ret == (self@ & other@ != 0),
    {
        self.bits & other.bits != 0
    }

    /// The flags held by both.
    pub fn intersection(&self, other: Lock) -> (ret: Lock)
        ensures
            ret@ == self@ & other@,
    {
        proof {
            use_type_invariant(self);
            use_type_invariant(&other);
            lemma_four_bits(self.bits, other.bits);
        }
        Lock { bits: self.bits & other.bits }
    }

    /// The flags held by either.
    pub fn union(&self, other: Lock) -> (ret: Lock)
        ensures
            ret@ == self@ | other@,
    {
        proof {
            use_type_invariant(self);
            use_type_invariant(&other);
            lemma_four_bits(self.bits, other.bits);
        }
        Lock { bits: self.bits | other.bits }
    }

    /// Adds the flags of `other` if `value`, removes them otherwise.
    pub fn set(&mut self, other: Lock, value: bool)
        ensures
            final(self)@ == (if value {
                old(self)@ | other@
            } else {
                old(self)@ & !other@
            }),
    {
        proof {
            use_type_invariant(&*self);
            use_type_invariant(&other);
            lemma_four_bits(self.bits, other.bits);
        }
        if value {
            self.bits = self.bits | other.bits;
        } else {
            self.bits = self.bits & !other.bits;
        }
    }

    /// A description of the lock for the status bar.
    pub fn as_str(&self) -> (ret: &'static str)
        requires
            lock_is_describable(self@),
        ensures
            ret@ == lock_text(self@),
    {
        let bits = self.bits;
        if bits == 0 {
            ""
        } else if bits == 5 {
            "Locked X axis. | Local coordinates."
        } else if bits == 9 {
            "Locked X axis. | Control point axis coordinates."
        } else if bits == 1 {
            "Locked X axis."
        } else if bits == 6 {
            "Locked Y axis. | Local coordinates."
        } else if bits == 10 {
            "Locked Y axis. | Control point axis coordinates."
        } else if bits == 2 {
            "Locked Y axis."
        } else if bits == 4 {
            "Local coordinates."
        } else {
            "Control point axis coordinates."
        }
    }
}

/// The action that toggles the lock to an axis: if the lock already holds
/// that axis it is cleared; otherwise the other axis is dropped and this one
/// added.
pub fn lock_axis_action(state: Lock, axis: Lock, complement: Lock) -> (ret: Lock)
    ensures
        ret@ == lock_axis_spec(state@, axis@, complement@),
{
    if state.intersects(axis) {
        Lock::empty()
    } else {
        let mut flags = state;
        flags.set(complement, false);
        flags.set(axis, true);
        flags
    }
}

/// The action that toggles a coordinate system: it does nothing while an
/// axis is locked; otherwise the system is cleared if it is held, and made
/// the only one held if not.
pub fn lock_option_action(state: Lock, opt: Lock) -> (ret: Lock)
    ensures
        ret@ == lock_option_spec(state@, opt@),
{
    assert(1u32 | 2u32 == 3u32) by (bit_vector);
    assert(4u32 | 8u32 == 12u32) by (bit_vector);
    let axes = Lock::x().union(Lock::y());
    if !state.intersection(axes).is_empty() {
        return state;
    }
    let mut flags = state;
    if flags.intersects(opt) {
        flags.set(opt, false);
    } else {
        flags.set(Lock::local().union(Lock::controls()), false);
        flags.set(opt, true);
    }
    flags
}

/// The lock actions of the editor never lead from a lock that has a
/// description to one that has none: at most one axis and at most one
/// coordinate system stay locked.
pub proof fn law_lock_actions_keep_describable(bits: u32)
    by (bit_vector)
    requires
        lock_is_describable(bits),
    ensures
        lock_is_describable(lock_axis_spec(bits, 1, 2)),
        lock_is_describable(lock_axis_spec(bits, 2, 1)),
        lock_is_describable(lock_option_spec(bits, 4)),
        lock_is_describable(lock_option_spec(bits, 8)),
{
}

/// Step sizes to which transformations are rounded.
#[derive(Debug, Default, Copy, Clone, PartialEq, Eq)]
pub struct Precision {
    bits: u32,
}

impl View for Precision {
    type V = u32;

    closed spec fn view(&self) -> u32 {
        self.bits
    }
}

/// The text that describes a precision, for the words that have one.
pub open spec fn precision_text(bits: u32) -> Seq<char> {
    if bits == 0 {
        ""@
    } else if bits == 4 {
        "1."@
    } else if bits == 2 {
        ".5"@
    } else {
        ".1"@
    }
}

impl Precision {
    /// Steps of 1 unit.
    pub fn step_1() -> (ret: Precision)
        ensures
            ret@ == 4,
    {
        Precision { bits: 4 }
    }
    /// Steps of 0.5 units.
    pub fn step_05() -> (ret: Precision)
        ensures
            ret@ == 2,
    {
        Precision { bits: 2 }
    }
    /// Steps of 0.1 units.
    pub fn step_01() -> (ret: Precision)
        ensures
            ret@ == 1,
    {
        Precision { bits: 1 }
    }

    #[verifier::type_invariant]
    spec fn inv(self) -> bool {
        self.bits <= 7
    }

    /// No rounding.
    pub fn empty() -> (ret: Precision)
        ensures
            ret@ == 0,
    {
        Precision { bits: 0 }
    }

    /// The flag word.
    pub fn bits(&self) -> (ret: u32)
        ensures
            ret == self@,
            ret <= 7,
    {
        proof {
            use_type_invariant(self);
        }
        self.bits
    }

    /// The precision with the given flag word, if it holds only known flags.
    pub fn from_bits(bits: u32) -> (ret: Option<Precision>)
        ensures
            ret is Some <==> bits <= 7,
            ret matches Some(p) ==> p@ == bits,
    {
        if bits <= 7 {
            Some(Precision { bits })
        } else {
            None
        }
    }

    /// A description of the precision for the status bar; a precision holds
    /// at most one step size.
    pub fn as_str(&self) -> (ret: &'static str)
        requires
            self@ == 0 || self@ == 1 || self@ == 2 || self@ == 4,
        ensures
            ret@ == precision_text(self@),
    {
        let bits = self.bits;
        if bits == 0 {
            ""
        } else if bits == 4 {
            "1."
        } else if bits == 2 {
            ".5"
        } else {
            ".1"
        }
    }
}

/// Things that points snap to while they move.
#[derive(Debug, Default, Copy, Clone, PartialEq, Eq)]
pub struct Snap {
    bits: u32,
}

impl View for Snap {
    type V = u32;

    closed spec fn view(&self) -> u32 {
        self.bits
    }
}

/// The text that describes a snapping word: the targets it holds, in the
/// order angles, grid, guidelines, glyph metrics.
pub open spec fn snap_text(bits: u32) -> Seq<char> {
    if bits == 0 {
        ""@
    } else if bits == 1 {
        "Snap to angles."@
    } else if bits == 3 {
        "Snap to angles, grid."@
    } else if bits == 5 {
        "Snap to angles, guidelines."@
    } else if bits == 7 {
        "Snap to angles, grid, guidelines."@
    } else if bits == 15 {
        "Snap to angles, grid, guidelines, glyph metrics."@
    } else if bits == 11 {
        "Snap to angles, grid, glyph metrics."@
    } else if bits == 13 {
        "Snap to angles, guidelines, glyph metrics."@
    } else if bits == 9 {
        "Snap to angles, glyph metrics."@
    } else if bits == 14 {
        "Snap to grid, guidelines, glyph metrics."@
    } else if bits == 6 {
        "Snap to grid, guidelines."@
    } else if bits == 10 {
        "Snap to grid, glyph metrics."@
    } else if bits == 2 {
        "Snap to grid."@
    } else if bits == 12 {
        "Snap to guidelines, glyph metrics."@
    } else if bits == 4 {
        "Snap to guidelines."@
    } else {
        "Snap to glyph metrics."@
    }
}

impl Snap {
    /// Snap to angles.
    pub fn angle() -> (ret: Snap)
        ensures
            ret@ == 1,
    {
        Snap { bits: 1 }
    }
    /// Snap to the grid.
    pub fn grid() -> (ret: Snap)
        ensures
            ret@ == 2,
    {
        Snap { bits: 2 }
    }
    /// Snap to guidelines.
    pub fn guidelines() -> (ret: Snap)
        ensures
            ret@ == 4,
    {
        Snap { bits: 4 }
    }
    /// Snap to glyph metrics.
    pub fn metrics() -> (ret: Snap)
        ensures
            ret@ == 8,
    {
        Snap { bits: 8 }
    }

    #[verifier::type_invariant]
    spec fn inv(self) -> bool {
        self.bits <= 15
    }

    /// No snapping.
    pub fn empty() -> (ret: Snap)
        ensures
            ret@ == 0,
    {
        Snap { bits: 0 }
    }

    /// The flag word.
    pub fn bits(&self) -> (ret: u32)
        ensures
            ret == self@,
            ret <= 15,
    {
        proof {
            use_type_invariant(self);
        }
        self.bits
    }

    /// The snapping with the given flag word, if it holds only known flags.
    pub fn from_bits(bits: u32) -> (ret: Option<Snap>)
        ensures
            ret is Some <==> bits <= 15,
            ret matches Some(s) ==> s@ == bits,
    {
        if bits <= 15 {
            Some(Snap { bits })
        } else {
            None
        }
    }

    /// The flags held by either.
    pub fn union(&self, other: Snap) -> (ret: Snap)
        ensures
            ret@ == self@ | other@,
    {
        proof {
            use_type_invariant(self);
            use_type_invariant(&other);
            lemma_four_bits(self.bits, other.bits);
        }
        Snap { bits: self.bits | other.bits }
    }

    /// Flips the flags of `other`.
    pub fn toggle(&mut self, other: Snap)
        ensures
            final(self)@ == old(self)@ ^ other@,
    {
        proof {
            use_type_invariant(&*self);
            use_type_invariant(&other);
            lemma_four_bits(self.bits, other.bits);
        }
        self.bits = self.bits ^ other.bits;
    }

    /// A description of the snapping targets for the status bar.
    pub fn as_str(&self) -> (ret: &'static str)
        ensures
            ret@ == snap_text(self@),
    {
        proof {
            use_type_invariant(self);
        }
        let bits = self.bits;
        if bits == 0 {
            ""
        } else if bits == 1 {
            "Snap to angles."
        } else if bits == 3 {
            "Snap to angles, grid."
        } else if bits == 5 {
            "Snap to angles, guidelines."
        } else if bits == 7 {
            "Snap to angles, grid, guidelines."
        } else if bits == 15 {
            "Snap to angles, grid, guidelines, glyph metrics."
        } else if bits == 11 {
            "Snap to angles, grid, glyph metrics."
        } else if bits == 13 {
            "Snap to angles, guidelines, glyph metrics."
        } else if bits == 9 {
            "Snap to angles, glyph metrics."
        } else if bits == 14 {
            "Snap to grid, guidelines, glyph metrics."
        } else if bits == 6 {
            "Snap to grid, guidelines."
        } else if bits == 10 {
            "Snap to grid, glyph metrics."
        } else if bits == 2 {
            "Snap to grid."
        } else if bits == 12 {
            "Snap to guidelines, glyph metrics."
        } else if bits == 4 {
            "Snap to guidelines."
        } else {
            "Snap to glyph metrics."
        }
    }
}

/// The action that toggles one snapping target.
pub fn snap_toggle_action(state: Snap, anchor: Snap) -> (ret: Snap)
    ensures
        ret@ == state@ ^ anchor@,
{
    let mut flags = state;
    flags.toggle(anchor);
    flags
}

/// Toggling a snapping target twice restores the snapping.
pub proof fn law_snap_toggle_twice(bits: u32, anchor: u32)
    by (bit_vector)
    ensures
        (bits ^ anchor) ^ anchor == bits,
{
}

} // verus!
