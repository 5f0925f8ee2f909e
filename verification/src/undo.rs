//! Undo history.
//!
//! The history is a list of events and a cursor: the events before the cursor
//! are done, the events from the cursor on are undone and can be redone. A run
//! of consecutive events that carry the same stamp and are all marked
//! `compress` is undone and redone as one step (for example the many small
//! moves of one drag of the mouse).
//!
//! The callbacks that perform an action live with the caller; the history
//! decides which events to undo or redo, and in which order, and answers with
//! their indices.
use vstd::prelude::*;

verus! {

/// Identifies what an action changes: the kind of object, the property and
/// the object's identifier bytes.
#[derive(Debug)]
pub struct EventStamp {
    pub t: String,
    pub property: String,
    pub id: Vec<u8>,
}

impl EventStamp {
    /// The stamp as plain values.
    pub open spec fn key(&self) -> (Seq<char>, Seq<char>, Seq<u8>) {
        (self.t@, self.property@, self.id@)
    }
}

impl PartialEq for EventStamp {
    fn eq(&self, other: &Self) -> (r: bool) {
        if !(self.t == other.t) || !(self.property == other.property) {
            return false;
        }
        if self.id.len() != other.id.len() {
            return false;
        }
        let mut i: usize = 0;
        while i < self.id.len()
            invariant
                self.id.len() == other.id.len(),
                i <= self.id.len(),
                forall|j: int| 0 <= j < i ==> self.id@[j] == other.id@[j],
            decreases self.id.len() - i,
        {
            if self.id[i] != other.id[i] {
                return false;
            }
            i = i + 1;
        }
        assert(self.id@ =~= other.id@);
        true
    }
}

impl vstd::std_specs::cmp::PartialEqSpecImpl for EventStamp {
    open spec fn obeys_eq_spec() -> bool {
        true
    }

    open spec fn eq_spec(&self, other: &EventStamp) -> bool {
        self.key() == other.key()
    }
}

impl Eq for EventStamp {}

/// What an event did, as far as the history needs to know.
#[derive(Debug)]
pub struct Action {
    pub stamp: EventStamp,
    /// Whether the action may be undone together with its neighbours of the
    /// same stamp.
    pub compress: bool,
}

/// An entry of the history.
#[derive(Debug)]
pub struct Event {
    pub timestamp: u64,
    pub action: Action,
}

/// Two neighbouring events are undone and redone together.
pub open spec fn related(a: Event, b: Event) -> bool {
    &&& a.action.stamp.key() == b.action.stamp.key()
    &&& a.action.compress
    &&& b.action.compress
}

/// The cursor after an undo that starts at cursor `c`.
pub open spec fn undo_stop(s: Seq<Event>, c: int) -> int
    decreases c,
{
    if c <= 0 {
        c
    } else if c - 1 > 0 && related(s[c - 2], s[c - 1]) {
        undo_stop(s, c - 1)
    } else {
        c - 1
    }
}

/// The cursor after a redo that starts at cursor `c`.
pub open spec fn redo_stop(s: Seq<Event>, c: int) -> int
    decreases s.len() - c,
{
    if c >= s.len() || c < 0 {
        c
    } else if c + 1 < s.len() && related(s[c], s[c + 1]) {
        redo_stop(s, c + 1)
    } else {
        c + 1
    }
}

/// The indices whose actions an undo from `c` to `stop` reverts, in order.
pub open spec fn undone_indices(c: int, stop: int) -> Seq<usize> {
    Seq::new((c - stop) as nat, |k: int| (c - 1 - k) as usize)
}

/// The indices whose actions a redo from `c` to `stop` performs, in order.
pub open spec fn redone_indices(c: int, stop: int) -> Seq<usize> {
    Seq::new((stop - c) as nat, |k: int| (c + k) as usize)
}

/// A cursor that never stands inside a run of related events.
pub open spec fn at_boundary(s: Seq<Event>, c: int) -> bool {
    0 < c < s.len() ==> !related(s[c - 1], s[c])
}

/// The undo history.
pub struct UndoDatabase {
    database: Vec<Event>,
    timestamp: u64,
    cursor: usize,
}

impl UndoDatabase {
    #[verifier::type_invariant]
    spec fn wf(self) -> bool {
        &&& self.cursor <= self.database.len()
        &&& at_boundary(self.database@, self.cursor as int)
        &&& forall|i: int, j: int|
            0 <= i < j < self.database.len() ==> #[trigger] self.database@[i].timestamp
                < #[trigger] self.database@[j].timestamp
        &&& forall|i: int|
            0 <= i < self.database.len() ==> #[trigger] self.database@[i].timestamp
                < self.timestamp
    }

    /// The events, oldest first.
    pub closed spec fn events(self) -> Seq<Event> {
        self.database@
    }

    /// The position that separates done events from undone ones.
    pub closed spec fn position(self) -> int {
        self.cursor as int
    }

    /// The timestamp that the next event gets.
    pub closed spec fn next_timestamp(self) -> u64 {
        self.timestamp
    }

    /// An empty history.
    pub fn new() -> (ret: Self)
        ensures
            ret.events() == Seq::<Event>::empty(),
            ret.position() == 0,
            ret.next_timestamp() == 0,
    {
        UndoDatabase { database: Vec::new(), timestamp: 0, cursor: 0 }
    }

    /// The events, oldest first.
    pub fn database(&self) -> (ret: &Vec<Event>)
        ensures
            ret@ == self.events(),
            forall|i: int, j: int|
                0 <= i < j < ret.len() ==> #[trigger] ret@[i].timestamp < #[trigger] ret@[j].timestamp,
            forall|i: int| 0 <= i < ret.len() ==> #[trigger] ret@[i].timestamp < self.next_timestamp(),
    {
        proof {
            use_type_invariant(self);
        }
        &self.database
    }

    /// The timestamp that the next event gets.
    pub fn timestamp(&self) -> (ret: u64)
        ensures
            ret == self.next_timestamp(),
    {
        self.timestamp
    }

    /// The position that separates done events from undone ones.
    pub fn cursor(&self) -> (ret: usize)
        ensures
            ret == self.position(),
            ret <= self.events().len(),
            at_boundary(self.events(), ret as int),
    {
        proof {
            use_type_invariant(self);
        }
        self.cursor
    }

    /// Whether there is an event to undo.
    pub fn can_undo(&self) -> (ret: bool)
        ensures
            ret == (self.position() > 0),
    {
        proof {
            use_type_invariant(self);
        }
        !(self.database.len() == 0 || self.cursor == 0)
    }

    /// Whether there is an event to redo.
    pub fn can_redo(&self) -> (ret: bool)
        ensures
            ret == (self.position() < self.events().len()),
    {
        self.cursor < self.database.len()
    }

    /// Records a new action: the undone events are forgotten and the action
    /// becomes the last done event. Returns the index of the new event.
    pub fn event(&mut self, action: Action) -> (ret: usize)
        requires
            old(self).next_timestamp() < u64::MAX,
        ensures
            ret == old(self).position(),
            final(self).events() == old(self).events().take(old(self).position()).push(
                Event { timestamp: old(self).next_timestamp(), action },
            ),
            final(self).position() == final(self).events().len(),
            final(self).next_timestamp() == old(self).next_timestamp() + 1,
    {
        proof {
            use_type_invariant(&*self);
        }
        let mut taken = UndoDatabase::new();
        std::mem::swap(&mut taken, self);
        let UndoDatabase { mut database, timestamp, cursor: at } = taken;
        database.truncate(at);
        database.push(Event { timestamp, action });
        let cursor = database.len();
        proof {
            assert forall|i: int, j: int| 0 <= i < j < database.len() implies
                #[trigger] database@[i].timestamp < #[trigger] database@[j].timestamp by {
                if j < database.len() - 1 {
                    assert(database@[i] == old(self).database@[i]);
                    assert(database@[j] == old(self).database@[j]);
                } else {
                    assert(database@[i] == old(self).database@[i]);
                }
            }
            assert forall|i: int| 0 <= i < database.len() implies
                #[trigger] database@[i].timestamp < timestamp + 1 by {
                if i < database.len() - 1 {
                    assert(database@[i] == old(self).database@[i]);
                }
            }
        }
        *self = UndoDatabase { database, timestamp: timestamp + 1, cursor };
        at
    }

    /// Moves the cursor back over the last done event, and over the events
    /// before it as long as they are related to the one after them. Returns
    /// the indices of the events to revert, in the order to revert them.
    pub fn undo(&mut self) -> (ret: Vec<usize>)
        ensures
            final(self).events() == old(self).events(),
            final(self).next_timestamp() == old(self).next_timestamp(),
            final(self).position() == undo_stop(old(self).events(), old(self).position()),
            ret@ == undone_indices(old(self).position(), final(self).position()),
    {
        proof {
            use_type_invariant(&*self);
        }
        let ghost s = self.database@;
        let ghost c0 = self.cursor as int;
        let mut ret: Vec<usize> = Vec::new();
        let mut cursor = self.cursor;
        let mut going = true;
        while going && cursor > 0
            invariant
                s == self.database@,
                0 <= cursor <= c0 <= s.len(),
                c0 == self.cursor,
                going ==> undo_stop(s, cursor as int) == undo_stop(s, c0),
                !going ==> undo_stop(s, c0) == cursor,
                ret@ == undone_indices(c0, cursor as int),
            decreases cursor,
        {
            proof {
                assert(undone_indices(c0, cursor - 1) =~= ret@.push((cursor - 1) as usize));
            }
            ret.push(cursor - 1);
            cursor = cursor - 1;
            if !(cursor > 0 && self.database[cursor - 1].action.compress
                && self.database[cursor].action.compress
                && self.database[cursor - 1].action.stamp == self.database[cursor].action.stamp) {
                going = false;
            }
        }
        proof {
            lemma_undo_stop_boundary(s, c0);
        }
        self.cursor = cursor;
        ret
    }

    /// Moves the cursor forward over the first undone event, and over the
    /// events after it as long as they are related to the one before them.
    /// Returns the indices of the events to perform again, in order.
    pub fn redo(&mut self) -> (ret: Vec<usize>)
        ensures
            final(self).events() == old(self).events(),
            final(self).next_timestamp() == old(self).next_timestamp(),
            final(self).position() == redo_stop(old(self).events(), old(self).position()),
            ret@ == redone_indices(old(self).position(), final(self).position()),
    {
        proof {
            use_type_invariant(&*self);
        }
        let ghost s = self.database@;
        let ghost c0 = self.cursor as int;
        let mut ret: Vec<usize> = Vec::new();
        let mut cursor = self.cursor;
        let len = self.database.len();
        let mut going = true;
        while going && cursor < len
            invariant
                s == self.database@,
                len == s.len(),
                0 <= c0 <= cursor <= len,
                c0 == self.cursor,
                going ==> redo_stop(s, cursor as int) == redo_stop(s, c0),
                !going ==> redo_stop(s, c0) == cursor,
                ret@ == redone_indices(c0, cursor as int),
            decreases len - cursor,
        {
            proof {
                assert(redone_indices(c0, cursor + 1) =~= ret@.push(cursor));
            }
            ret.push(cursor);
            cursor = cursor + 1;
            if !(cursor < len && self.database[cursor - 1].action.compress
                && self.database[cursor].action.compress
                && self.database[cursor - 1].action.stamp == self.database[cursor].action.stamp) {
                going = false;
            }
        }
        proof {
            lemma_redo_stop_boundary(s, c0);
        }
        self.cursor = cursor;
        ret
    }
}

/// An undo stops at a boundary, and every step it takes is inside a run of
/// related events.
pub proof fn lemma_undo_stop_boundary(s: Seq<Event>, c: int)
    requires
        0 <= c <= s.len(),
    ensures
        0 <= undo_stop(s, c) <= c,
        c > 0 ==> undo_stop(s, c) < c,
        at_boundary(s, undo_stop(s, c)),
        forall|k: int| undo_stop(s, c) <= k < c - 1 ==> #[trigger] related(s[k], s[k + 1]),
    decreases c,
{
    if c > 0 && c - 1 > 0 && related(s[c - 2], s[c - 1]) {
        lemma_undo_stop_boundary(s, c - 1);
    }
}

/// A redo stops at a boundary, and every step it takes is inside a run of
/// related events.
pub proof fn lemma_redo_stop_boundary(s: Seq<Event>, c: int)
    requires
        0 <= c <= s.len(),
    ensures
        c <= redo_stop(s, c) <= s.len(),
        c < s.len() ==> c < redo_stop(s, c),
        at_boundary(s, redo_stop(s, c)),
        forall|k: int| c <= k < redo_stop(s, c) - 1 ==> #[trigger] related(s[k], s[k + 1]),
    decreases s.len() - c,
{
    if c < s.len() && c + 1 < s.len() && related(s[c], s[c + 1]) {
        lemma_redo_stop_boundary(s, c + 1);
    }
}

proof fn lemma_redo_reaches(s: Seq<Event>, k: int, c: int)
    requires
        0 <= k < c <= s.len(),
        at_boundary(s, c),
        forall|j: int| k <= j < c - 1 ==> #[trigger] related(s[j], s[j + 1]),
    ensures
        redo_stop(s, k) == c,
    decreases c - k,
{
    if k + 1 < c {
        assert(related(s[k], s[k + 1]));
        lemma_redo_reaches(s, k + 1, c);
    }
}

proof fn lemma_undo_reaches(s: Seq<Event>, k: int, c: int)
    requires
        0 <= c < k <= s.len(),
        at_boundary(s, c),
        forall|j: int| c <= j < k - 1 ==> #[trigger] related(s[j], s[j + 1]),
    ensures
        undo_stop(s, k) == c,
    decreases k - c,
{
    if k - 1 > c {
        let j = k - 2;
        assert(related(s[j], s[j + 1]));
        lemma_undo_reaches(s, k - 1, c);
    }
}

/// Redo undoes an undo: from any reachable state of the history with a done
/// event, an undo followed by a redo brings the cursor back where it was, and
/// the redo performs again exactly the events that the undo reverted, in the
/// opposite order.
pub proof fn law_undo_then_redo(s: Seq<Event>, c: int)
    requires
        0 < c <= s.len(),
        at_boundary(s, c),
    ensures
        redo_stop(s, undo_stop(s, c)) == c,
        redone_indices(undo_stop(s, c), c) == undone_indices(c, undo_stop(s, c)).reverse(),
{
    lemma_undo_stop_boundary(s, c);
    lemma_redo_reaches(s, undo_stop(s, c), c);
    assert(redone_indices(undo_stop(s, c), c) =~= undone_indices(c, undo_stop(s, c)).reverse());
}

/// Undo undoes a redo: from any reachable state of the history with an
/// undone event, a redo followed by an undo brings the cursor back where it
/// was, and the undo reverts exactly the events that the redo performed, in
/// the opposite order.
pub proof fn law_redo_then_undo(s: Seq<Event>, c: int)
    requires
        0 <= c < s.len(),
        at_boundary(s, c),
    ensures
        undo_stop(s, redo_stop(s, c)) == c,
        undone_indices(redo_stop(s, c), c) == redone_indices(c, redo_stop(s, c)).reverse(),
{
    lemma_redo_stop_boundary(s, c);
    lemma_undo_reaches(s, redo_stop(s, c), c);
    assert(undone_indices(redo_stop(s, c), c) =~= redone_indices(c, redo_stop(s, c)).reverse());
}


/// An undo or a redo takes one event at a time, and steps over a further
/// neighbouring event only when both are marked `compress` and carry equal
/// stamps: every pair of neighbours it takes together is such a pair, it
/// stops before a pair that is not, and it always takes at least one event
/// when there is one. So from a cursor `c > 0` whose events `c - 2` and
/// `c - 1` are not both marked `compress` with equal stamps, an undo
/// reverts event `c - 1` alone.
pub proof fn law_undo_redo_group_only_compressed_runs(s: Seq<Event>, c: int)
    requires
        0 <= c <= s.len(),
    ensures
        c > 0 ==> 0 <= undo_stop(s, c) < c,
        forall|k: int|
            undo_stop(s, c) <= k < c - 1 ==> (#[trigger] s[k]).action.compress && s[k + 1].action.compress
                && s[k].action.stamp.key() == s[k + 1].action.stamp.key(),
        c > 0 && undo_stop(s, c) > 0 ==> !(s[undo_stop(s, c) - 1].action.compress
            && s[undo_stop(s, c)].action.compress && s[undo_stop(s, c) - 1].action.stamp.key()
            == s[undo_stop(s, c)].action.stamp.key()),
        c > 0 && (c == 1 || !s[c - 2].action.compress || !s[c - 1].action.compress
            || s[c - 2].action.stamp.key() != s[c - 1].action.stamp.key()) ==> undo_stop(s, c) == c - 1
            && undone_indices(c, undo_stop(s, c)) == seq![(c - 1) as usize],
        c < s.len() ==> c < redo_stop(s, c) <= s.len(),
        forall|k: int|
            c <= k < redo_stop(s, c) - 1 ==> (#[trigger] s[k]).action.compress && s[k + 1].action.compress
                && s[k].action.stamp.key() == s[k + 1].action.stamp.key(),
        c < s.len() && redo_stop(s, c) < s.len() ==> !(s[redo_stop(s, c) - 1].action.compress
            && s[redo_stop(s, c)].action.compress && s[redo_stop(s, c) - 1].action.stamp.key()
            == s[redo_stop(s, c)].action.stamp.key()),
        c < s.len() && (c + 1 == s.len() || !s[c].action.compress || !s[c + 1].action.compress
            || s[c].action.stamp.key() != s[c + 1].action.stamp.key()) ==> redo_stop(s, c) == c + 1
            && redone_indices(c, redo_stop(s, c)) == seq![c as usize],
{
    lemma_undo_stop_boundary(s, c);
    lemma_redo_stop_boundary(s, c);
    assert forall|k: int|
        undo_stop(s, c) <= k < c - 1 implies (#[trigger] s[k]).action.compress && s[k + 1].action.compress
            && s[k].action.stamp.key() == s[k + 1].action.stamp.key() by {
        assert(related(s[k], s[k + 1]));
    }
    assert forall|k: int|
        c <= k < redo_stop(s, c) - 1 implies (#[trigger] s[k]).action.compress && s[k + 1].action.compress
            && s[k].action.stamp.key() == s[k + 1].action.stamp.key() by {
        assert(related(s[k], s[k + 1]));
    }
    if c > 0 && undo_stop(s, c) == c - 1 {
        assert(undone_indices(c, c - 1) =~= seq![(c - 1) as usize]);
    }
    if c < s.len() && redo_stop(s, c) == c + 1 {
        assert(redone_indices(c, c + 1) =~= seq![c as usize]);
    }
}

} // verus!
