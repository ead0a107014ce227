//! Character-level helpers for matching names given as `&str`.

use vstd::prelude::*;
use vstd::string::*;

verus! {

/// Whether `s` consists exactly of the characters `lit`.
pub fn str_equals(s: &str, lit: &[char]) -> (r: bool)
    ensures
        r == (s@ == lit@),
{
    let n = s.unicode_len();
    if n != lit.len() {
        return false;
    }
    let mut i: usize = 0;
    while i < n
        invariant
            n == s@.len(),
            n == lit@.len(),
            i <= n,
            forall|j: int| 0 <= j < i ==> s@[j] == lit@[j],
        decreases n - i,
    {
        if s.get_char(i) != lit[i] {
            return false;
        }
        i = i + 1;
    }
    assert(s@ =~= lit@);
    true
}

/// Whether `lit` occurs in `s` at position `i`.
pub open spec fn occurs_at(s: Seq<char>, lit: Seq<char>, i: int) -> bool {
    0 <= i && i + lit.len() <= s.len() && s.subrange(i, i + lit.len()) == lit
}

/// Whether `lit` occurs somewhere in `s`.
pub open spec fn contains_chars(s: Seq<char>, lit: Seq<char>) -> bool {
    exists|i: int| #[trigger] occurs_at(s, lit, i)
}

fn matches_at(s: &str, lit: &[char], i: usize) -> (r: bool)
    requires
        i + lit@.len() <= s@.len(),
    ensures
        r == occurs_at(s@, lit@, i as int),
{
    let m = lit.len();
    let n = s.unicode_len();
    let mut k: usize = 0;
    while k < m
        invariant
            m == lit@.len(),
            n == s@.len(),
            i + m <= s@.len(),
            k <= m,
            forall|j: int| 0 <= j < k ==> s@[i + j] == lit@[j],
        decreases m - k,
    {
        if s.get_char(i + k) != lit[k] {
            assert(s@.subrange(i as int, i + m)[k as int] != lit@[k as int]);
            return false;
        }
        k = k + 1;
    }
    assert(s@.subrange(i as int, i + m) =~= lit@);
    true
}

/// Whether the characters `lit` occur in `s`.
pub fn str_contains(s: &str, lit: &[char]) -> (r: bool)
    ensures
        r == contains_chars(s@, lit@),
{
    let n = s.unicode_len();
    let m = lit.len();
    if m > n {
        assert forall|i: int| !occurs_at(s@, lit@, i) by {}
        return false;
    }
    let mut i: usize = 0;
    loop
        invariant
            n == s@.len(),
            m == lit@.len(),
            m <= n,
            i <= n - m,
            forall|j: int| 0 <= j < i ==> !#[trigger] occurs_at(s@, lit@, j),
        decreases n - m - i,
    {
        if matches_at(s, lit, i) {
            return true;
        }
        if i == n - m {
            assert forall|j: int| !#[trigger] occurs_at(s@, lit@, j) by {
                if 0 <= j && j < i {
                }
            }
            return false;
        }
        i = i + 1;
    }
}

/// Whether `a` comes before `b` in the order of their characters' code
/// points, a proper prefix first.
pub open spec fn chars_less(a: Seq<char>, b: Seq<char>) -> bool
    decreases a.len(),
{
    if a.len() == 0 {
        b.len() > 0
    } else if b.len() == 0 {
        false
    } else if (a[0] as u32) != (b[0] as u32) {
        (a[0] as u32) < (b[0] as u32)
    } else {
        chars_less(a.drop_first(), b.drop_first())
    }
}

/// Whether `a` sorts before `b`; see [`chars_less`].
pub fn str_less(a: &str, b: &str) -> (r: bool)
    ensures
        r == chars_less(a@, b@),
{
    let n = a.unicode_len();
    let m = b.unicode_len();
    let mut i: usize = 0;
    assert(a@.skip(0) =~= a@);
    assert(b@.skip(0) =~= b@);
    while i < n && i < m
        invariant
            n == a@.len(),
            m == b@.len(),
            i <= n,
            i <= m,
            chars_less(a@, b@) == chars_less(a@.skip(i as int), b@.skip(i as int)),
        decreases n - i,
    {
        let x = a.get_char(i);
        let y = b.get_char(i);
        proof {
            assert(a@.skip(i as int).drop_first() =~= a@.skip(i as int + 1));
            assert(b@.skip(i as int).drop_first() =~= b@.skip(i as int + 1));
        }
        if (x as u32) != (y as u32) {
            return (x as u32) < (y as u32);
        }
        i = i + 1;
    }
    i == n && i < m
}

} // verus!
