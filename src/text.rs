//! Small operations on text that the parser and the messages need.
use vstd::prelude::*;

verus! {

/// Whether two strings hold the same characters.
pub fn same_text(a: &str, b: &str) -> (r: bool)
    ensures
        r == (a@ == b@),
{
    let n = a.unicode_len();
    if n != b.unicode_len() {
        return false;
    }
    let mut i: usize = 0;
    while i < n
        invariant
            i <= n,
            n == a@.len(),
            n == b@.len(),
            forall|k: int| 0 <= k < i ==> a@[k] == b@[k],
        decreases n - i,
    {
        if a.get_char(i) != b.get_char(i) {
            return false;
        }
        i = i + 1;
    }
    assert(a@ =~= b@);
    true
}

/// Whether the text begins with `-`.
pub open spec fn is_dashed(t: Seq<char>) -> bool {
    t.len() > 0 && t[0] == '-'
}

pub fn starts_with_dash(a: &str) -> (r: bool)
    ensures
        r == is_dashed(a@),
{
    a.unicode_len() > 0 && a.get_char(0) == '-'
}

} // verus!
