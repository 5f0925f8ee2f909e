//! Text utilities shared by the modules: comparisons and prefixes of
//! strings, taken character by character.
use vstd::prelude::*;

verus! {

/// Whether two strings hold the same characters.
pub fn str_equal(a: &str, b: &str) -> (ret: bool)
    ensures
        ret == (a@ == b@),
{
    let n = a.unicode_len();
    if n != b.unicode_len() {
        return false;
    }
    let mut i: usize = 0;
    while i < n
        invariant
            n == a@.len(),
            n == b@.len(),
            i <= n,
            forall|j: int| 0 <= j < i ==> a@[j] == b@[j],
        decreases n - i,
    {
        if a.get_char(i) != b.get_char(i) {
            return false;
        }
        i = i + 1;
    }
    assert(a@ =~= b@);
    true
}

/// Whether `s` begins with `prefix`.
pub fn str_starts_with(s: &str, prefix: &str) -> (ret: bool)
    ensures
        ret == (prefix@.len() <= s@.len() && s@.take(prefix@.len() as int) == prefix@),
{
    let n = prefix.unicode_len();
    if n > s.unicode_len() {
        return false;
    }
    let mut i: usize = 0;
    while i < n
        invariant
            n == prefix@.len(),
            n <= s@.len(),
            i <= n,
            forall|j: int| 0 <= j < i ==> s@[j] == prefix@[j],
        decreases n - i,
    {
        if s.get_char(i) != prefix.get_char(i) {
            assert(s@.take(n as int)[i as int] != prefix@[i as int]);
            return false;
        }
        i = i + 1;
    }
    assert(s@.take(n as int) =~= prefix@);
    true
}

/// The string `a` followed by `b`.
pub fn str_concat(a: &str, b: &str) -> (ret: String)
    ensures
        ret@ == a@ + b@,
{
    let mut ret = String::from_str(a);
    ret.append(b);
    ret
}

/// Lexicographic order on sequences of characters, characters ordered by
/// their code points. This is also the order of their UTF-8 encodings.
pub open spec fn chars_less(a: Seq<char>, b: Seq<char>) -> bool
    decreases a.len(),
{
    if a.len() == 0 {
        b.len() > 0
    } else if b.len() == 0 {
        false
    } else if a[0] != b[0] {
        (a[0] as int) < (b[0] as int)
    } else {
        chars_less(a.drop_first(), b.drop_first())
    }
}

/// Whether the code point of `a` is below that of `b`.
pub fn char_less(a: char, b: char) -> (ret: bool)
    ensures
        ret == ((a as int) < (b as int)),
{
    (a as u32) < (b as u32)
}

/// Whether `a` comes strictly before `b` in lexicographic order.
pub fn str_less(a: &str, b: &str) -> (ret: bool)
    ensures
        ret == chars_less(a@, b@),
{
    let n = a.unicode_len();
    let m = b.unicode_len();
    let mut i: usize = 0;
    assert(a@.skip(0) =~= a@ && b@.skip(0) =~= b@);
    while i < n && i < m
        invariant
            n == a@.len(),
            m == b@.len(),
            i <= n,
            i <= m,
            chars_less(a@, b@) == chars_less(a@.skip(i as int), b@.skip(i as int)),
        decreases n - i,
    {
        let ca = a.get_char(i);
        let cb = b.get_char(i);
        if ca != cb {
            return char_less(ca, cb);
        }
        proof {
            assert(a@.skip(i as int).drop_first() =~= a@.skip(i + 1));
            assert(b@.skip(i as int).drop_first() =~= b@.skip(i + 1));
        }
        i = i + 1;
    }
    i < m
}

} // verus!
