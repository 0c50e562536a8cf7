//! Character-level text helpers used by priority ranking and search.

use vstd::prelude::*;
use vstd::string::*;

verus! {

/// `q` occurs in `s` as a contiguous run of characters.
pub open spec fn has_substring(s: Seq<char>, q: Seq<char>) -> bool {
    exists|i: int| 0 <= i && i + q.len() <= s.len() && #[trigger] s.subrange(i, i + q.len()) == q
}

/// The characters of `s`, in order.
fn chars_of(s: &str) -> (r: Vec<char>)
    ensures
        r@ == s@,
{
    let n = s.unicode_len();
    let mut r: Vec<char> = Vec::new();
    let mut i: usize = 0;
    while i < n
        invariant
            n == s@.len(),
            i <= n,
            r@ == s@.subrange(0, i as int),
        decreases n - i,
    {
        r.push(s.get_char(i));
        i = i + 1;
    }
    assert(r@ =~= s@);
    r
}

/// Whether `s` and `t` hold the same characters.
pub fn same_text(s: &str, t: &str) -> (r: bool)
    ensures
        r == (s@ == t@),
{
    let a = chars_of(s);
    let b = chars_of(t);
    if a.len() != b.len() {
        assert(a@.len() != b@.len());
        return false;
    }
    let mut i: usize = 0;
    while i < a.len()
        invariant
            a.len() == b.len(),
            a@ == s@,
            b@ == t@,
            i <= a.len(),
            forall|k: int| 0 <= k < i ==> a@[k] == b@[k],
        decreases a.len() - i,
    {
        if a[i] != b[i] {
            assert(a@[i as int] != b@[i as int]);
            return false;
        }
        i = i + 1;
    }
    assert(a@ =~= b@);
    true
}

/// Whether `q` occurs in `s` at position `i`.
fn occurs_at(s: &Vec<char>, q: &Vec<char>, i: usize) -> (r: bool)
    requires
        i + q.len() <= s.len(),
    ensures
        r == (s@.subrange(i as int, i + q.len()) == q@),
{
    let mut j: usize = 0;
    while j < q.len()
        invariant
            i + q.len() <= s.len(),
            j <= q.len(),
            forall|k: int| 0 <= k < j ==> s@[i + k] == q@[k],
        decreases q.len() - j,
    {
        if s[i + j] != q[j] {
            assert(s@.subrange(i as int, i + q.len())[j as int] != q@[j as int]);
            return false;
        }
        j = j + 1;
    }
    assert(s@.subrange(i as int, i + q.len()) =~= q@);
    true
}

/// Case-sensitive substring test: whether `q` occurs in `s`.
/// The empty query occurs in every text.
pub fn text_contains(s: &str, q: &str) -> (r: bool)
    ensures
        r == has_substring(s@, q@),
{
    let sv = chars_of(s);
    let qv = chars_of(q);
    if qv.len() > sv.len() {
        return false;
    }
    let last = sv.len() - qv.len();
    let mut i: usize = 0;
    while i <= last
        invariant
            sv@ == s@,
            qv@ == q@,
            last + qv.len() == sv.len(),
            forall|k: int| 0 <= k < i ==> #[trigger] sv@.subrange(k, k + qv.len()) != qv@,
        ensures
            forall|k: int| 0 <= k <= last ==> #[trigger] sv@.subrange(k, k + qv.len()) != qv@,
        decreases last + 1 - i,
    {
        if occurs_at(&sv, &qv, i) {
            return true;
        }
        if i == last {
            break;
        }
        i = i + 1;
    }
    assert forall|k: int| 0 <= k && k + q@.len() <= s@.len() implies #[trigger] s@.subrange(
        k,
        k + q@.len(),
    ) != q@ by {
        assert(sv@.subrange(k, k + qv.len()) != qv@);
    }
    false
}

} // verus!
