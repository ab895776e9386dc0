//! Small helpers for moving between `String` and character vectors.
//!
//! All text inside the library is kept as `Vec<char>`; a `String` is
//! produced or taken apart only at the edges, through the two trusted
//! conversions below.

use vstd::prelude::*;

verus! {

/// Relies on `core::iter::Iterator::collect` (via `String`'s
/// `FromIterator<char>`): collecting characters yields the string of
/// exactly those characters, in order.
#[verifier::external_body]
pub fn chars_to_string(v: &Vec<char>) -> (r: String)
    ensures
        r@ == v@,
{
    v.iter().collect()
}

/// Relies on `str::chars`: iterating a string slice yields its
/// characters in order.
#[verifier::external_body]
pub fn str_to_chars(s: &str) -> (r: Vec<char>)
    ensures
        r@ == s@,
{
    s.chars().collect()
}

/// Compare two character vectors.
pub fn chars_eq(a: &Vec<char>, b: &Vec<char>) -> (r: bool)
    ensures
        r == (a@ == b@),
{
    if a.len() != b.len() {
        return false;
    }
    let n = a.len();
    let mut j: usize = 0;
    while j < n
        invariant
            j <= n,
            n == a.len() == b.len(),
            forall|k: int| 0 <= k < j ==> a@[k] == b@[k],
        decreases n - j,
    {
        if a[j] != b[j] {
            return false;
        }
        j += 1;
    }
    proof {
        assert(a@ =~= b@);
    }
    true
}

/// Compare a character vector with a string slice.
pub fn chars_eq_str(a: &Vec<char>, s: &str) -> (r: bool)
    ensures
        r == (a@ == s@),
{
    let sv = str_to_chars(s);
    chars_eq(a, &sv)
}

/// Append all characters of `s` to `buf`.
pub fn push_chars(buf: &mut Vec<char>, s: &Vec<char>)
    ensures
        final(buf)@ == old(buf)@ + s@,
{
    let n = s.len();
    let mut j: usize = 0;
    while j < n
        invariant
            j <= n,
            n == s.len(),
            buf@ == old(buf)@ + s@.subrange(0, j as int),
        decreases n - j,
    {
        buf.push(s[j]);
        j += 1;
        proof {
            assert(s@.subrange(0, j as int) == s@.subrange(0, j - 1).push(s@[j - 1]));
        }
    }
    proof {
        assert(s@.subrange(0, n as int) == s@);
    }
}

/// Two pushes are equal only if both parts are.
pub proof fn lemma_push_cancel<T>(a: Seq<T>, b: Seq<T>, x: T, y: T)
    requires
        a.push(x) == b.push(y),
    ensures
        a == b,
        x == y,
{
    broadcast use vstd::seq::group_seq_axioms;

    assert(a.push(x).len() == a.len() + 1);
    assert(b.push(y).len() == b.len() + 1);
    assert(a.len() == b.len());
    assert forall|k: int| 0 <= k < a.len() implies a[k] == b[k] by {
        assert(0 <= k < b.len());
        assert(a.push(x)[k] == a[k]);
        assert(b.push(y)[k] == b[k]);
    }
    assert(a =~= b);
    assert(a.push(x)[a.len() as int] == x);
    assert(b.push(y)[b.len() as int] == y);
}

} // verus!
