//! A font project: a UFO directory on disk, and what the editor shows of it.
use vstd::prelude::*;

use crate::text::str_equal;

verus! {

/// The file of the font's information.
pub const FONTINFO_FILE: &'static str = "fontinfo.plist";

/// The file of the UFO's own information.
pub const METAINFO_FILE: &'static str = "metainfo.plist";

/// The file that lists the layers.
pub const LAYERCONTENTS_FILE: &'static str = "layercontents.plist";

/// The extension of a UFO directory.
pub const UFO_EXTENSION: &'static str = ".ufo";

/// `s` ends with `suffix`.
pub open spec fn ends_with(s: Seq<char>, suffix: Seq<char>) -> bool {
    suffix.len() <= s.len() && s.subrange(s.len() - suffix.len(), s.len() as int) == suffix
}

/// The name of a project: the font's family name when it has one, else
/// the name of its directory without the `.ufo` extension; none when there
/// is neither.
pub open spec fn project_name_spec(family_name: Seq<char>, dir_name: Option<Seq<char>>) -> Option<Seq<char>> {
    if family_name.len() > 0 {
        Some(family_name)
    } else {
        match dir_name {
            Some(d) => if ends_with(d, UFO_EXTENSION@) {
                Some(d.subrange(0, d.len() - UFO_EXTENSION@.len()))
            } else {
                Some(d)
            },
            None => None,
        }
    }
}

/// Whether `s` ends with `suffix`.
pub fn str_ends_with(s: &str, suffix: &str) -> (ret: bool)
    ensures
        ret == ends_with(s@, suffix@),
{
    let n = s.unicode_len();
    let m = suffix.unicode_len();
    if m > n {
        return false;
    }
    let tail = s.substring_char(n - m, n);
    str_equal(tail, suffix)
}

/// The name of a project from its family name and the name of its
/// directory, if that has one.
pub fn project_name(family_name: &str, dir_name: Option<&str>) -> (ret: Option<String>)
    ensures
        match project_name_spec(family_name@, match dir_name {
            Some(d) => Some(d@),
            None => None,
        }) {
            Some(n) => ret matches Some(r) && r@ == n,
            None => ret is None,
        },
{
    if family_name.unicode_len() > 0 {
        return Some(String::from_str(family_name));
    }
    match dir_name {
        Some(d) => {
            if str_ends_with(d, UFO_EXTENSION) {
                let n = d.unicode_len();
                let m = UFO_EXTENSION.unicode_len();
                Some(String::from_str(d.substring_char(0, n - m)))
            } else {
                Some(String::from_str(d))
            }
        },
        None => None,
    }
}

/// The list `dst` after each modified item `(i, g)` of `modified`, in
/// order, is written back: in place when `i` is within the list, appended
/// otherwise.
pub open spec fn merged<T>(dst: Seq<T>, modified: Seq<(usize, T)>) -> Seq<T>
    decreases modified.len(),
{
    if modified.len() == 0 {
        dst
    } else {
        let d = merged(dst, modified.drop_last());
        let (i, g) = modified.last();
        if i < d.len() {
            d.update(i as int, g)
        } else {
            d.push(g)
        }
    }
}

/// Each modified item that falls past the end of the list lands exactly
/// at its end: its index is the length of the list at its turn.
pub open spec fn appends_in_place<T>(dst: Seq<T>, modified: Seq<(usize, T)>) -> bool {
    forall|k: int|
        0 <= k < modified.len() ==> #[trigger] modified[k].0 >= merged(dst, modified.take(k)).len()
            ==> modified[k].0 == merged(dst, modified.take(k)).len()
}

/// Writes the modified guidelines of a project back to the list that its
/// font information saves: each `(i, g)` in order replaces item `i`, or is
/// appended when `i` is the length of the list.
pub fn merge_modified<T>(dst: &mut Vec<T>, modified: Vec<(usize, T)>)
    requires
        appends_in_place(old(dst)@, modified@),
    ensures
        final(dst)@ == merged(old(dst)@, modified@),
{
    let ghost start = dst@;
    let ghost all = modified@;
    let mut rest = modified;
    let mut items: Vec<(usize, T)> = Vec::new();
    while rest.len() > 0
        invariant
            items@ + rest@.reverse() == all.reverse(),
        decreases rest@.len(),
    {
        let x = rest.pop().unwrap();
        proof {
            assert(items@.push(x) + rest@.reverse() =~= items@ + (rest@.push(x)).reverse());
        }
        items.push(x);
    }
    assert(items@ =~= all.reverse());
    let mut k: usize = 0;
    let n = items.len();
    while items.len() > 0
        invariant
            n == all.len(),
            items@.len() + k == n,
            items@ =~= all.subrange(k as int, n as int).reverse(),
            dst@ == merged(start, all.take(k as int)),
            appends_in_place(start, all),
        decreases items@.len(),
    {
        let (i, g) = items.pop().unwrap();
        proof {
            assert(all[k as int].0 == i);
            assert(all.take(k + 1).drop_last() =~= all.take(k as int));
            assert(items@ =~= all.subrange(k + 1, n as int).reverse());
        }
        if i < dst.len() {
            dst.set(i, g);
        } else {
            dst.push(g);
        }
        k = k + 1;
    }
    assert(all.take(n as int) =~= all);
}

} // verus!
