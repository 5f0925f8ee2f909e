//! The selected points of the glyph being edited: in the order they were
//! selected, and the set of their identifiers.
use vstd::prelude::*;

use std::collections::HashSet;

use crate::editor::tools::SelectionModifier;
use crate::glyphs::GlyphPointIndex;

verus! {

/// The identifiers of the points `s`.
pub open spec fn uuids_of(s: Seq<GlyphPointIndex>) -> Set<u128> {
    Set::new(|u: u128| exists|i: int| 0 <= i < s.len() && #[trigger] s[i].uuid == u)
}

/// Whether a point is none of `sel`.
pub open spec fn not_in(sel: Seq<GlyphPointIndex>) -> spec_fn(GlyphPointIndex) -> bool {
    |e: GlyphPointIndex| !sel.contains(e)
}

/// The selection after `sel` is applied with `modifier` to the points
/// `list` with identifiers `set`: replaced by it, extended with it, or
/// cleared of it.
pub open spec fn selection_after(
    list: Seq<GlyphPointIndex>,
    set: Set<u128>,
    sel: Seq<GlyphPointIndex>,
    modifier: SelectionModifier,
) -> (Seq<GlyphPointIndex>, Set<u128>) {
    match modifier {
        SelectionModifier::Replace => (sel, uuids_of(sel)),
        SelectionModifier::Add => (list + sel, set.union(uuids_of(list + sel))),
        SelectionModifier::Remove => (
            list.filter(not_in(sel)),
            set.difference(uuids_of(sel)),
        ),
    }
}

/// Whether a point's identifier is outside `set`.
pub open spec fn uuid_not_in(set: Set<u128>) -> spec_fn(GlyphPointIndex) -> bool {
    |p: GlyphPointIndex| !set.contains(p.uuid)
}

/// The editor leaves the selection alone: replacing an empty selection by
/// nothing, adding or removing nothing, adding only points already
/// selected, or removing only points not selected.
pub open spec fn editor_change_is_noop(
    list: Seq<GlyphPointIndex>,
    set: Set<u128>,
    sel: Seq<GlyphPointIndex>,
    modifier: SelectionModifier,
) -> bool {
    match modifier {
        SelectionModifier::Replace => sel.len() == 0 && list.len() == 0,
        SelectionModifier::Add => sel.len() == 0 || forall|i: int|
            0 <= i < sel.len() ==> set.contains(#[trigger] sel[i].uuid),
        SelectionModifier::Remove => sel.len() == 0 || forall|i: int|
            0 <= i < sel.len() ==> !set.contains(#[trigger] sel[i].uuid),
    }
}

/// The selection after the editor applies `sel` with `modifier`: as
/// `selection_after`, but adding only points whose identifiers are not
/// selected yet.
pub open spec fn editor_selection_after(
    list: Seq<GlyphPointIndex>,
    set: Set<u128>,
    sel: Seq<GlyphPointIndex>,
    modifier: SelectionModifier,
) -> (Seq<GlyphPointIndex>, Set<u128>) {
    match modifier {
        SelectionModifier::Add => {
            let added = list + sel.filter(uuid_not_in(set));
            (added, set.union(uuids_of(added)))
        },
        _ => selection_after(list, set, sel, modifier),
    }
}

/// The selected points.
#[derive(Debug)]
pub struct Selection {
    selection: Vec<GlyphPointIndex>,
    selection_set: HashSet<u128>,
}

impl Selection {
    /// The selected points, in order.
    pub closed spec fn list(&self) -> Seq<GlyphPointIndex> {
        self.selection@
    }

    /// The identifiers that the selection holds.
    pub closed spec fn set(&self) -> Set<u128> {
        self.selection_set@
    }

    /// Nothing selected.
    pub fn new() -> (ret: Self)
        ensures
            ret.list() == Seq::<GlyphPointIndex>::empty(),
            ret.set() == Set::<u128>::empty(),
    {
        Selection { selection: Vec::new(), selection_set: HashSet::new() }
    }

    /// Applies the points `sel` to the selection: `Replace` makes them the
    /// selection; `Add` appends them; `Remove` takes every point equal to
    /// one of them out of the list, and their identifiers out of the set.
    pub fn set_selection(&mut self, sel: &Vec<GlyphPointIndex>, modifier: SelectionModifier)
        ensures
            (final(self).list(), final(self).set()) == selection_after(
                old(self).list(),
                old(self).set(),
                sel@,
                modifier,
            ),
    {
        broadcast use vstd::std_specs::hash::group_hash_axioms;
        match modifier {
            SelectionModifier::Replace => {
                self.selection.clear();
                self.selection_set.clear();
                let ghost empty = self.selection@;
                self.extend_and_record(sel);
                assert(empty + sel@ =~= sel@);
                assert(self.selection@ =~= sel@);
                assert(self.selection_set@ =~= uuids_of(sel@));
                assert(self.list() == sel@);
                assert(self.set() == uuids_of(sel@));
            },
            SelectionModifier::Add => {
                self.extend_and_record(sel);
            },
            SelectionModifier::Remove => {
                let ghost old_list = self.selection@;
                let mut kept: Vec<GlyphPointIndex> = Vec::new();
                let mut i: usize = 0;
                while i < self.selection.len()
                    invariant
                        self.selection@ == old_list,
                        old_list == old(self).selection@,
                        self.selection_set@ == old(self).selection_set@,
                        i <= old_list.len(),
                        kept@ == old_list.take(i as int).filter(not_in(sel@)),
                    decreases old_list.len() - i,
                {
                    let e = self.selection[i];
                    let found = contains_point(sel, e);
                    if !found {
                        kept.push(e);
                    }
                    proof {
                        reveal(Seq::filter);
                        let t1 = old_list.take(i + 1);
                        assert(t1.drop_last() =~= old_list.take(i as int));
                        assert(t1.last() == e);
                        assert(not_in(sel@)(e) == !found);
                        assert(t1.filter(not_in(sel@)) == (if not_in(sel@)(t1.last()) {
                            t1.drop_last().filter(not_in(sel@)).push(t1.last())
                        } else {
                            t1.drop_last().filter(not_in(sel@))
                        }));
                    }
                    i = i + 1;
                }
                assert(old_list.take(i as int) =~= old_list);
                self.selection = kept;
                let ghost old_set = self.selection_set@;
                let mut j: usize = 0;
                while j < sel.len()
                    invariant
                        self.selection@ == old(self).selection@.filter(not_in(sel@)),
                        old_set == old(self).selection_set@,
                        j <= sel@.len(),
                        self.selection_set@ == old_set.difference(uuids_of(sel@.take(j as int))),
                    decreases sel@.len() - j,
                {
                    self.selection_set.remove(&sel[j].uuid);
                    proof {
                        assert(self.selection_set@ =~= old_set.difference(
                            uuids_of(sel@.take(j + 1)),
                        )) by {
                            assert forall|u: u128| uuids_of(sel@.take(j + 1)).contains(u) <==> (
                            uuids_of(sel@.take(j as int)).contains(u) || u == sel@[j as int].uuid) by {
                                if uuids_of(sel@.take(j + 1)).contains(u) {
                                    let k = choose|k: int| 0 <= k < j + 1 && #[trigger] sel@.take(j + 1)[k].uuid == u;
                                    if k < j {
                                        assert(sel@.take(j as int)[k].uuid == u);
                                    }
                                }
                                if uuids_of(sel@.take(j as int)).contains(u) {
                                    let k = choose|k: int| 0 <= k < j && #[trigger] sel@.take(j as int)[k].uuid == u;
                                    assert(sel@.take(j + 1)[k].uuid == u);
                                }
                                if u == sel@[j as int].uuid {
                                    assert(sel@.take(j + 1)[j as int].uuid == u);
                                }
                            }
                        }
                    }
                    j = j + 1;
                }
                assert(sel@.take(j as int) =~= sel@);
            },
        }
    }

    /// Applies a change of selection as the editor does, for its undo
    /// history: when the change would do nothing (see
    /// `editor_change_is_noop`) the selection is left alone and `None`
    /// returned; else the change is applied (adding only points not
    /// selected yet) and the previous list of points returned, from which
    /// `restore` undoes it.
    pub fn apply_editor_selection(&mut self, sel: &Vec<GlyphPointIndex>, modifier: SelectionModifier) -> (ret: Option<Vec<GlyphPointIndex>>)
        ensures
            editor_change_is_noop(old(self).list(), old(self).set(), sel@, modifier) ==> ret is None
                && final(self).list() == old(self).list() && final(self).set() == old(self).set(),
            !editor_change_is_noop(old(self).list(), old(self).set(), sel@, modifier) ==> (ret matches Some(v) && v@ == old(self).list())
                && (final(self).list(), final(self).set()) == editor_selection_after(
                old(self).list(),
                old(self).set(),
                sel@,
                modifier,
            ),
    {
        broadcast use vstd::std_specs::hash::group_hash_axioms;
        let n = sel.len();
        let noop = match modifier {
            SelectionModifier::Replace => n == 0 && self.selection.len() == 0,
            SelectionModifier::Add => n == 0 || self.all_selected(sel),
            SelectionModifier::Remove => n == 0 || self.none_selected(sel),
        };
        if noop {
            return None;
        }
        let old_list = self.selection.clone();
        proof {
            assert(old_list@ =~= self.selection@);
        }
        match modifier {
            SelectionModifier::Add => {
                let ghost set0 = self.selection_set@;
                let mut fresh: Vec<GlyphPointIndex> = Vec::new();
                let mut i: usize = 0;
                while i < n
                    invariant
                        n == sel@.len(),
                        i <= n,
                        self.selection_set@ == set0,
                        fresh@ == sel@.take(i as int).filter(uuid_not_in(set0)),
                    decreases n - i,
                {
                    let p = sel[i];
                    let seen = self.selection_set.contains(&p.uuid);
                    if !seen {
                        fresh.push(p);
                    }
                    proof {
                        reveal(Seq::filter);
                        let t1 = sel@.take(i + 1);
                        assert(t1.drop_last() =~= sel@.take(i as int));
                        assert(t1.last() == p);
                        assert(uuid_not_in(set0)(p) == !seen);
                    }
                    i = i + 1;
                }
                assert(sel@.take(n as int) =~= sel@);
                self.extend_and_record(&fresh);
            },
            _ => {
                self.set_selection(sel, modifier);
            },
        }
        Some(old_list)
    }

    /// Makes `old` the selection again, as before a change.
    pub fn restore(&mut self, old: &Vec<GlyphPointIndex>)
        ensures
            final(self).list() == old@,
            final(self).set() == uuids_of(old@),
    {
        self.set_selection(old, SelectionModifier::Replace);
    }

    fn all_selected(&self, sel: &Vec<GlyphPointIndex>) -> (ret: bool)
        ensures
            ret == forall|i: int| 0 <= i < sel@.len() ==> self.set().contains(#[trigger] sel@[i].uuid),
    {
        broadcast use vstd::std_specs::hash::group_hash_axioms;
        let mut i: usize = 0;
        while i < sel.len()
            invariant
                i <= sel@.len(),
                forall|k: int| 0 <= k < i ==> self.set().contains(#[trigger] sel@[k].uuid),
            decreases sel@.len() - i,
        {
            if !self.selection_set.contains(&sel[i].uuid) {
                return false;
            }
            i = i + 1;
        }
        true
    }

    fn none_selected(&self, sel: &Vec<GlyphPointIndex>) -> (ret: bool)
        ensures
            ret == forall|i: int| 0 <= i < sel@.len() ==> !self.set().contains(#[trigger] sel@[i].uuid),
    {
        broadcast use vstd::std_specs::hash::group_hash_axioms;
        let mut i: usize = 0;
        while i < sel.len()
            invariant
                i <= sel@.len(),
                forall|k: int| 0 <= k < i ==> !self.set().contains(#[trigger] sel@[k].uuid),
            decreases sel@.len() - i,
        {
            if self.selection_set.contains(&sel[i].uuid) {
                return false;
            }
            i = i + 1;
        }
        true
    }

    /// Appends `sel` to the list, then puts the identifier of every listed
    /// point in the set.
    fn extend_and_record(&mut self, sel: &Vec<GlyphPointIndex>)
        ensures
            final(self).list() == old(self).list() + sel@,
            final(self).set() == old(self).set().union(uuids_of(old(self).list() + sel@)),
    {
        broadcast use vstd::std_specs::hash::group_hash_axioms;
        let ghost start = self.selection@;
        let mut i: usize = 0;
        while i < sel.len()
            invariant
                i <= sel@.len(),
                self.selection@ == start + sel@.take(i as int),
                self.selection_set@ == old(self).selection_set@,
            decreases sel@.len() - i,
        {
            self.selection.push(sel[i]);
            proof {
                assert(start + sel@.take(i + 1) =~= (start + sel@.take(i as int)).push(sel@[i as int]));
            }
            i = i + 1;
        }
        assert(sel@.take(i as int) =~= sel@);
        let ghost list = self.selection@;
        let ghost old_set = self.selection_set@;
        let mut j: usize = 0;
        while j < self.selection.len()
            invariant
                self.selection@ == list,
                j <= list.len(),
                self.selection_set@ == old_set.union(uuids_of(list.take(j as int))),
            decreases list.len() - j,
        {
            let u = self.selection[j].uuid;
            self.selection_set.insert(u);
            proof {
                assert(self.selection_set@ =~= old_set.union(uuids_of(list.take(j + 1)))) by {
                    assert forall|w: u128| uuids_of(list.take(j + 1)).contains(w) <==> (uuids_of(
                        list.take(j as int),
                    ).contains(w) || w == u) by {
                        if uuids_of(list.take(j + 1)).contains(w) {
                            let k = choose|k: int| 0 <= k < j + 1 && #[trigger] list.take(j + 1)[k].uuid == w;
                            if k < j {
                                assert(list.take(j as int)[k].uuid == w);
                            }
                        }
                        if uuids_of(list.take(j as int)).contains(w) {
                            let k = choose|k: int| 0 <= k < j && #[trigger] list.take(j as int)[k].uuid == w;
                            assert(list.take(j + 1)[k].uuid == w);
                        }
                        if w == u {
                            assert(list.take(j + 1)[j as int].uuid == w);
                        }
                    }
                }
            }
            j = j + 1;
        }
        assert(list.take(j as int) =~= list);
    }

    /// The selected points, in order.
    pub fn get_selection(&self) -> (ret: &Vec<GlyphPointIndex>)
        ensures
            ret@ == self.list(),
    {
        &self.selection
    }

    /// The identifiers of the selected points.
    pub fn get_selection_set(&self) -> (ret: &HashSet<u128>)
        ensures
            ret@ == self.set(),
    {
        &self.selection_set
    }
}

/// Whether `p` is one of the points `sel`.
fn contains_point(sel: &Vec<GlyphPointIndex>, p: GlyphPointIndex) -> (ret: bool)
    ensures
        ret == sel@.contains(p),
{
    let mut i: usize = 0;
    while i < sel.len()
        invariant
            i <= sel@.len(),
            forall|k: int| 0 <= k < i ==> sel@[k] != p,
        decreases sel@.len() - i,
    {
        if sel[i] == p {
            return true;
        }
        i = i + 1;
    }
    false
}

/// The set of selected identifiers stays that of the selected points: when
/// it is so before a change by the editor, it is so after it. For a
/// removal this needs the identifiers to tell points apart: a point that is
/// kept must not share its identifier with a point that is removed.
pub proof fn law_selection_set_follows_list(
    list: Seq<GlyphPointIndex>,
    set: Set<u128>,
    sel: Seq<GlyphPointIndex>,
    modifier: SelectionModifier,
)
    requires
        set == uuids_of(list),
        modifier == SelectionModifier::Remove ==> forall|a: int, b: int|
            0 <= a < list.len() && 0 <= b < sel.len() && #[trigger] list[a].uuid == #[trigger] sel[b].uuid
                ==> list[a] == sel[b],
    ensures
        editor_selection_after(list, set, sel, modifier).1 == uuids_of(
            editor_selection_after(list, set, sel, modifier).0,
        ),
{
    broadcast use vstd::seq_lib::group_filter_ensures;

    let (l2, s2) = editor_selection_after(list, set, sel, modifier);
    match modifier {
        SelectionModifier::Replace => {},
        SelectionModifier::Add => {
            assert forall|u: u128| s2.contains(u) <==> uuids_of(l2).contains(u) by {
                if set.contains(u) {
                    let k = choose|k: int| 0 <= k < list.len() && #[trigger] list[k].uuid == u;
                    assert(l2[k].uuid == u);
                }
            }
            assert(s2 =~= uuids_of(l2));
        },
        SelectionModifier::Remove => {
            let kept = list.filter(not_in(sel));
            assert forall|u: u128| s2.contains(u) <==> uuids_of(kept).contains(u) by {
                if s2.contains(u) {
                    let k = choose|k: int| 0 <= k < list.len() && #[trigger] list[k].uuid == u;
                    if sel.contains(list[k]) {
                        let b = choose|b: int| 0 <= b < sel.len() && sel[b] == list[k];
                        assert(sel[b].uuid == u);
                    }
                    assert(not_in(sel)(list[k]));
                    assert(kept.contains(list[k]));
                    let j = choose|j: int| 0 <= j < kept.len() && kept[j] == list[k];
                    assert(kept[j].uuid == u);
                }
                if uuids_of(kept).contains(u) {
                    let j = choose|j: int| 0 <= j < kept.len() && #[trigger] kept[j].uuid == u;
                    assert(kept.contains(kept[j]));
                    list.lemma_filter_contains_rev(not_in(sel), kept[j]);
                    assert(list.contains(kept[j]));
                    assert(not_in(sel)(kept[j]));
                    let k = choose|k: int| 0 <= k < list.len() && list[k] == kept[j];
                    assert(list[k].uuid == u);
                    if uuids_of(sel).contains(u) {
                        let b = choose|b: int| 0 <= b < sel.len() && #[trigger] sel[b].uuid == u;
                        assert(list[k] == sel[b]);
                        assert(sel.contains(kept[j]));
                    }
                }
            }
            assert(s2 =~= uuids_of(kept));
        },
    }
}


/// Replacing the selection never counts as doing nothing while points are
/// selected or given: only replacing an empty selection by no points is
/// left alone. A replacement makes the given points the selection, with
/// their identifiers; in particular replacing a non-empty selection by no
/// points clears it, list and set.
pub proof fn law_replace_sets_the_selection(
    list: Seq<GlyphPointIndex>,
    set: Set<u128>,
    sel: Seq<GlyphPointIndex>,
)
    ensures
        editor_change_is_noop(list, set, sel, SelectionModifier::Replace) <==> (list.len() == 0 && sel.len()
            == 0),
        editor_selection_after(list, set, sel, SelectionModifier::Replace).0 == sel,
        forall|u: u128|
            #[trigger] editor_selection_after(list, set, sel, SelectionModifier::Replace).1.contains(u) <==> exists|
                i: int,
            | 0 <= i < sel.len() && sel[i].uuid == u,
        list.len() > 0 && sel.len() == 0 ==> !editor_change_is_noop(list, set, sel, SelectionModifier::Replace)
            && editor_selection_after(list, set, sel, SelectionModifier::Replace) == (
            Seq::<GlyphPointIndex>::empty(),
            Set::<u128>::empty(),
        ),
{
    if sel.len() == 0 {
        assert(uuids_of(sel) =~= Set::<u128>::empty());
        assert(sel =~= Seq::<GlyphPointIndex>::empty());
    }
}

/// Adding or removing points does nothing exactly when no point is given,
/// or when every given point is already selected (adding) or none of them
/// is (removing), judged by identifier.
pub proof fn law_add_remove_noop_rules(
    list: Seq<GlyphPointIndex>,
    set: Set<u128>,
    sel: Seq<GlyphPointIndex>,
)
    ensures
        editor_change_is_noop(list, set, sel, SelectionModifier::Add) <==> (forall|i: int|
            0 <= i < sel.len() ==> set.contains(#[trigger] sel[i].uuid)),
        editor_change_is_noop(list, set, sel, SelectionModifier::Remove) <==> (forall|i: int|
            0 <= i < sel.len() ==> !set.contains(#[trigger] sel[i].uuid)),
{
}

} // verus!
