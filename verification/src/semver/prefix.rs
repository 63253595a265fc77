//! The longest common prefix of two sequences of release segments.

use vstd::prelude::*;

verus! {

/// The first position at or after `from` where `a` and `b` stop agreeing:
/// either a position that both have, with different numbers, or the end of
/// the shorter one.
pub open spec fn agree_until(a: Seq<u32>, b: Seq<u32>, from: int) -> int
    decreases a.len() - from,
{
    if 0 <= from < a.len() && from < b.len() && a[from] == b[from] {
        agree_until(a, b, from + 1)
    } else {
        from
    }
}

/// The length of the longest prefix that `a` and `b` share.
pub open spec fn common_prefix_len(a: Seq<u32>, b: Seq<u32>) -> int {
    agree_until(a, b, 0)
}

/// `len` is the length of the longest common prefix of `a` and `b`: they
/// agree below it and cannot agree at it.
pub open spec fn is_common_prefix_len(a: Seq<u32>, b: Seq<u32>, len: int) -> bool {
    &&& 0 <= len <= a.len()
    &&& len <= b.len()
    &&& forall|i: int| 0 <= i < len ==> a[i] == b[i]
    &&& (len < a.len() && len < b.len() ==> a[len] != b[len])
}

proof fn lemma_agree_until(a: Seq<u32>, b: Seq<u32>, from: int)
    requires
        0 <= from <= a.len(),
        from <= b.len(),
    ensures
        from <= agree_until(a, b, from) <= a.len(),
        agree_until(a, b, from) <= b.len(),
        forall|i: int| from <= i < agree_until(a, b, from) ==> a[i] == b[i],
        agree_until(a, b, from) < a.len() && agree_until(a, b, from) < b.len() ==> a[agree_until(
            a,
            b,
            from,
        )] != b[agree_until(a, b, from)],
    decreases a.len() - from,
{
    if from < a.len() && from < b.len() && a[from] == b[from] {
        lemma_agree_until(a, b, from + 1);
    }
}

/// `common_prefix_len` is the one length that `is_common_prefix_len` accepts.
pub proof fn lemma_common_prefix_len(a: Seq<u32>, b: Seq<u32>)
    ensures
        is_common_prefix_len(a, b, common_prefix_len(a, b)),
        forall|len: int| is_common_prefix_len(a, b, len) ==> len == common_prefix_len(a, b),
{
    lemma_agree_until(a, b, 0);
}

/// What two sequences share where one starts with the whole of the other is
/// the shorter one.
pub proof fn lemma_common_prefix_of_prefix(a: Seq<u32>, b: Seq<u32>)
    requires
        b.len() <= a.len(),
        forall|i: int| 0 <= i < b.len() ==> a[i] == b[i],
    ensures
        common_prefix_len(a, b) == b.len(),
{
    lemma_common_prefix_len(a, b);
    assert(is_common_prefix_len(a, b, b.len() as int));
}

/// Computes the length of the longest common prefix of two vectors.
pub(crate) fn common_prefix(a: &Vec<u32>, b: &Vec<u32>) -> (len: usize)
    ensures
        len == common_prefix_len(a@, b@),
{
    let mut i: usize = 0;
    while i < a.len() && i < b.len() && a[i] == b[i]
        invariant
            i <= a.len(),
            i <= b.len(),
            agree_until(a@, b@, i as int) == common_prefix_len(a@, b@),
        decreases a.len() - i,
    {
        i += 1;
    }
    i
}

} // verus!
