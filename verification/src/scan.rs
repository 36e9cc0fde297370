//! Runs: the longest prefix or suffix of a sequence whose elements all
//! satisfy a predicate.

use vstd::prelude::*;

verus! {

/// The length of the longest prefix of `s` whose elements all satisfy `p`.
/// Where some element fails `p`, this is the index of the first that does.
pub open spec fn prefix_len<A>(s: Seq<A>, p: spec_fn(A) -> bool) -> nat
    decreases s.len(),
{
    if s.len() > 0 && p(s[0]) {
        1 + prefix_len(s.drop_first(), p)
    } else {
        0
    }
}

/// The length of the longest suffix of `s` whose elements all satisfy `p`.
pub open spec fn suffix_len<A>(s: Seq<A>, p: spec_fn(A) -> bool) -> nat
    decreases s.len(),
{
    if s.len() > 0 && p(s.last()) {
        1 + suffix_len(s.drop_last(), p)
    } else {
        0
    }
}

/// Whether `k` marks the end of the longest prefix of `s` that satisfies `p`:
/// everything before `k` satisfies `p`, and the element at `k`, if there is
/// one, does not.
pub open spec fn ends_prefix<A>(s: Seq<A>, p: spec_fn(A) -> bool, k: int) -> bool {
    &&& 0 <= k <= s.len()
    &&& forall|i: int| 0 <= i < k ==> p(#[trigger] s[i])
    &&& k < s.len() ==> !p(s[k])
}

/// Whether the last `k` elements of `s` are its longest suffix that
/// satisfies `p`.
pub open spec fn starts_suffix<A>(s: Seq<A>, p: spec_fn(A) -> bool, k: int) -> bool {
    &&& 0 <= k <= s.len()
    &&& forall|i: int| s.len() - k <= i < s.len() ==> p(#[trigger] s[i])
    &&& k < s.len() ==> !p(s[s.len() - k - 1])
}

/// `prefix_len` ends the longest prefix that satisfies `p`.
pub proof fn lemma_prefix_len<A>(s: Seq<A>, p: spec_fn(A) -> bool)
    ensures
        ends_prefix(s, p, prefix_len(s, p) as int),
    decreases s.len(),
{
    if s.len() > 0 && p(s[0]) {
        let t = s.drop_first();
        lemma_prefix_len(t, p);
        assert forall|i: int| 0 <= i < prefix_len(s, p) implies p(#[trigger] s[i]) by {
            if i > 0 {
                assert(s[i] == t[i - 1]);
            }
        }
    }
}

/// Only one position ends the longest prefix that satisfies `p`.
pub proof fn lemma_prefix_len_unique<A>(s: Seq<A>, p: spec_fn(A) -> bool, k: int)
    requires
        ends_prefix(s, p, k),
    ensures
        prefix_len(s, p) == k,
    decreases s.len(),
{
    if k > 0 {
        let t = s.drop_first();
        assert(ends_prefix(t, p, k - 1));
        lemma_prefix_len_unique(t, p, k - 1);
    }
}

/// `suffix_len` starts the longest suffix that satisfies `p`.
pub proof fn lemma_suffix_len<A>(s: Seq<A>, p: spec_fn(A) -> bool)
    ensures
        starts_suffix(s, p, suffix_len(s, p) as int),
    decreases s.len(),
{
    if s.len() > 0 && p(s.last()) {
        let t = s.drop_last();
        lemma_suffix_len(t, p);
        assert forall|i: int| s.len() - suffix_len(s, p) <= i < s.len() implies p(
            #[trigger] s[i],
        ) by {
            if i < s.len() - 1 {
                assert(s[i] == t[i]);
            }
        }
    }
}

/// Only one length starts the longest suffix that satisfies `p`.
pub proof fn lemma_suffix_len_unique<A>(s: Seq<A>, p: spec_fn(A) -> bool, k: int)
    requires
        starts_suffix(s, p, k),
    ensures
        suffix_len(s, p) == k,
    decreases s.len(),
{
    if k > 0 {
        let t = s.drop_last();
        assert(starts_suffix(t, p, k - 1));
        lemma_suffix_len_unique(t, p, k - 1);
    }
}

} // verus!
