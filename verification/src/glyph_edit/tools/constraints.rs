//! Constraints on transformations in the glyph editing view.
use vstd::prelude::*;

use crate::editor::tools::constraints::lemma_four_bits;

verus! {

/// Locks of a transformation to an axis, optionally in a coordinate system.
#[derive(Debug, Default, Copy, Clone, PartialEq, Eq)]
pub struct Lock {
    bits: u32,
}

impl View for Lock {
    type V = u32;

    closed spec fn view(&self) -> u32 {
        self.bits
    }
}

/// The text that describes a lock, for the lock words that have one.
pub open spec fn lock_text(bits: u32) -> Seq<char> {
    if bits == 0 {
        ""@
    } else if bits == 5 {
        "Locked X axis. | Local coordinates."@
    } else if bits == 9 {
        "Locked X axis. | Control point axis coordinates."@
    } else if bits == 1 {
        "Locked X axis."@
    } else if bits == 6 {
        "Locked Y axis. | Local coordinates."@
    } else if bits == 10 {
        "Locked Y axis. | Control point axis coordinates."@
    } else {
        "Locked Y axis."@
    }
}

/// The lock words that have a description: no lock, or one axis with at
/// most one coordinate system.
pub open spec fn lock_is_describable(bits: u32) -> bool {
    bits == 0 || bits == 5 || bits == 9 || bits == 1 || bits == 6 || bits == 10 || bits == 2
}

/// The lock after the action that toggles the lock to `axis`, whose other
/// axis is `complement`.
pub open spec fn lock_axis_spec(bits: u32, axis: u32, complement: u32) -> u32 {
    if bits & axis != 0 {
        0
    } else {
        (bits & !complement) | axis
    }
}

/// The lock after the action that toggles the coordinate system `opt`.
pub open spec fn lock_option_spec(bits: u32, opt: u32) -> u32 {
    if bits & 3 == 0 {
        bits
    } else if bits & opt != 0 {
        bits & !opt
    } else {
        (bits & !12u32) | opt
    }
}

impl Lock {
    #[verifier::type_invariant]
    spec fn inv(self) -> bool {
        self.bits <= 15
    }

    /// No lock.
    pub fn empty() -> (ret: Lock)
        ensures
            ret@ == 0,
    {
        Lock { bits: 0 }
    }

    /// Lock to the X axis.
    pub fn x() -> (ret: Lock)
        ensures
            ret@ == 1,
    {
        Lock { bits: 1 }
    }

    /// Lock to the Y axis.
    pub fn y() -> (ret: Lock)
        ensures
            ret@ == 2,
    {
        Lock { bits: 2 }
    }

    /// Lock to local coordinates.
    pub fn local() -> (ret: Lock)
        ensures
            ret@ == 4,
    {
        Lock { bits: 4 }
    }

    /// Lock to the control point axis.
    pub fn controls() -> (ret: Lock)
        ensures
            ret@ == 8,
    {
        Lock { bits: 8 }
    }

    /// The flag word.
    pub fn bits(&self) -> (ret: u32)
        ensures
            ret == self@,
            ret <= 15,
    {
        proof {
            use_type_invariant(self);
        }
        self.bits
    }

    /// The lock with the given flag word, if it holds only known flags.
    pub fn from_bits(bits: u32) -> (ret: Option<Lock>)
        ensures
            ret is Some <==> bits <= 15,
            ret matches Some(l) ==> l@ == bits,
    {
        if bits <= 15 {
            Some(Lock { bits })
        } else {
            None
        }
    }

    /// Whether the lock holds no flag.
    pub fn is_empty(&self) -> (ret: bool)
        ensures
            ret == (self@ == 0),
    {
        self.bits == 0
    }

    /// Whether the two locks share a flag.
    pub fn intersects(&self, other: Lock) -> (ret: bool)
        ensures
            ret == (self@ & other@ != 0),
    {
        self.bits & other.bits != 0
    }

    /// The flags held by both.
    pub fn intersection(&self, other: Lock) -> (ret: Lock)
        ensures
            ret@ == self@ & other@,
    {
        proof {
            use_type_invariant(self);
            use_type_invariant(&other);
            lemma_four_bits(self.bits, other.bits);
        }
        Lock { bits: self.bits & other.bits }
    }

    /// The flags held by either.
    pub fn union(&self, other: Lock) -> (ret: Lock)
        ensures
            ret@ == self@ | other@,
    {
        proof {
            use_type_invariant(self);
            use_type_invariant(&other);
            lemma_four_bits(self.bits, other.bits);
        }
        Lock { bits: self.bits | other.bits }
    }

    /// Adds the flags of `other` if `value`, removes them otherwise.
    pub fn set(&mut self, other: Lock, value: bool)
        ensures
            final(self)@ == (if value {
                old(self)@ | other@
            } else {
                old(self)@ & !other@
            }),
    {
        proof {
            use_type_invariant(&*self);
            use_type_invariant(&other);
            lemma_four_bits(self.bits, other.bits);
        }
        if value {
            self.bits = self.bits | other.bits;
        } else {
            self.bits = self.bits & !other.bits;
        }
    }

    /// A description of the lock for the status bar.
    pub fn as_str(&self) -> (ret: &'static str)
        requires
            lock_is_describable(self@),
        ensures
            ret@ == lock_text(self@),
    {
        let bits = self.bits;
        if bits == 0 {
            ""
        } else if bits == 5 {
            "Locked X axis. | Local coordinates."
        } else if bits == 9 {
            "Locked X axis. | Control point axis coordinates."
        } else if bits == 1 {
            "Locked X axis."
        } else if bits == 6 {
            "Locked Y axis. | Local coordinates."
        } else if bits == 10 {
            "Locked Y axis. | Control point axis coordinates."
        } else {
            "Locked Y axis."
        }
    }
}

/// The action that toggles the lock to an axis: if the lock already holds
/// that axis it is cleared; otherwise the other axis is dropped and this one
/// added.
pub fn lock_axis_action(state: Lock, axis: Lock, complement: Lock) -> (ret: Lock)
    ensures
        ret@ == lock_axis_spec(state@, axis@, complement@),
{
    if state.intersects(axis) {
        Lock::empty()
    } else {
        let mut flags = state;
        flags.set(complement, false);
        flags.set(axis, true);
        flags
    }
}

/// The action that toggles a coordinate system: it applies only while an
/// axis is locked; the system is then cleared if it is held, and made the
/// only one held if not.
pub fn lock_option_action(state: Lock, opt: Lock) -> (ret: Lock)
    ensures
        ret@ == lock_option_spec(state@, opt@),
{
    assert(1u32 | 2u32 == 3u32) by (bit_vector);
    assert(4u32 | 8u32 == 12u32) by (bit_vector);
    let axes = Lock::x().union(Lock::y());
    if state.intersection(axes).is_empty() {
        return state;
    }
    let mut flags = state;
    if flags.intersects(opt) {
        flags.set(opt, false);
    } else {
        flags.set(Lock::local().union(Lock::controls()), false);
        flags.set(opt, true);
    }
    flags
}

/// The lock actions of the glyph editing view never lead from a lock that
/// has a description to one that has none: a coordinate system is locked
/// only together with an axis, and at most one of each.
pub proof fn law_lock_actions_keep_describable(bits: u32)
    by (bit_vector)
    requires
        lock_is_describable(bits),
    ensures
        lock_is_describable(lock_axis_spec(bits, 1, 2)),
        lock_is_describable(lock_axis_spec(bits, 2, 1)),
        lock_is_describable(lock_option_spec(bits, 4)),
        lock_is_describable(lock_option_spec(bits, 8)),
{
}

/// Step sizes to which transformations are rounded.
#[derive(Debug, Default, Copy, Clone, PartialEq, Eq)]
pub struct Precision {
    bits: u32,
}

impl View for Precision {
    type V = u32;

    closed spec fn view(&self) -> u32 {
        self.bits
    }
}

impl Precision {
    #[verifier::type_invariant]
    spec fn inv(self) -> bool {
        self.bits <= 1
    }

    /// No rounding.
    pub fn empty() -> (ret: Precision)
        ensures
            ret@ == 0,
    {
        Precision { bits: 0 }
    }

    /// Steps of 0.5 units.
    pub fn step_5() -> (ret: Precision)
        ensures
            ret@ == 1,
    {
        Precision { bits: 1 }
    }

    /// The flag word.
    pub fn bits(&self) -> (ret: u32)
        ensures
            ret == self@,
            ret <= 1,
    {
        proof {
            use_type_invariant(self);
        }
        self.bits
    }

    /// The precision with the given flag word, if it holds only known flags.
    pub fn from_bits(bits: u32) -> (ret: Option<Precision>)
        ensures
            ret is Some <==> bits <= 1,
            ret matches Some(p) ==> p@ == bits,
    {
        if bits <= 1 {
            Some(Precision { bits })
        } else {
            None
        }
    }
}

/// Things that points snap to while they move.
#[derive(Debug, Default, Copy, Clone, PartialEq, Eq)]
pub struct Snap {
    bits: u32,
}

impl View for Snap {
    type V = u32;

    closed spec fn view(&self) -> u32 {
        self.bits
    }
}

impl Snap {
    #[verifier::type_invariant]
    spec fn inv(self) -> bool {
        self.bits <= 1
    }

    /// No snapping.
    pub fn empty() -> (ret: Snap)
        ensures
            ret@ == 0,
    {
        Snap { bits: 0 }
    }

    /// Snap to angles.
    pub fn angle() -> (ret: Snap)
        ensures
            ret@ == 1,
    {
        Snap { bits: 1 }
    }

    /// The flag word.
    pub fn bits(&self) -> (ret: u32)
        ensures
            ret == self@,
            ret <= 1,
    {
        proof {
            use_type_invariant(self);
        }
        self.bits
    }

    /// The snapping with the given flag word, if it holds only known flags.
    pub fn from_bits(bits: u32) -> (ret: Option<Snap>)
        ensures
            ret is Some <==> bits <= 1,
            ret matches Some(s) ==> s@ == bits,
    {
        if bits <= 1 {
            Some(Snap { bits })
        } else {
            None
        }
    }
}

} // verus!
