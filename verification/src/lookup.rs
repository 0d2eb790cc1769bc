//! First-match lookup over a sequence, as a spec-level function with the
//! lemmas the store's contracts lean on.
//!
//! Every row lookup of the tracker — a user by id or username, a project or
//! task by id — is "the first element satisfying a predicate". [`find_idx`]
//! names that index (or -1) so that contracts can speak of *the* matching
//! row deterministically; under the store's uniqueness invariants the first
//! match is the only one.

use vstd::prelude::*;

verus! {

/// The index of the first element of `s` satisfying `p`, or -1 if none does.
pub open spec fn find_idx<A>(s: Seq<A>, p: spec_fn(A) -> bool) -> int
    decreases s.len(),
{
    if s.len() == 0 {
        -1
    } else if p(s[0]) {
        0
    } else {
        let r = find_idx(s.subrange(1, s.len() as int), p);
        if r < 0 {
            -1
        } else {
            r + 1
        }
    }
}

/// What `find_idx` returns: a first match where one exists, -1 where none does.
pub proof fn lemma_find_idx<A>(s: Seq<A>, p: spec_fn(A) -> bool)
    ensures
        find_idx(s, p) >= 0 ==> find_idx(s, p) < s.len() && p(s[find_idx(s, p)]),
        find_idx(s, p) >= 0 ==> forall|j: int| 0 <= j < find_idx(s, p) ==> !p(s[j]),
        find_idx(s, p) < 0 ==> find_idx(s, p) == -1 && (forall|j: int|
            0 <= j < s.len() ==> !p(s[j])),
    decreases s.len(),
{
    if s.len() > 0 && !p(s[0]) {
        let t = s.subrange(1, s.len() as int);
        lemma_find_idx(t, p);
        let rt = find_idx(t, p);
        if rt >= 0 {
            assert(s[rt + 1] == t[rt]);
            assert forall|j: int| 0 <= j < rt + 1 implies !p(s[j]) by {
                if j >= 1 {
                    assert(!p(t[j - 1]));
                    assert(s[j] == t[j - 1]);
                }
            }
        } else {
            assert forall|j: int| 0 <= j < s.len() implies !p(s[j]) by {
                if j >= 1 {
                    assert(!p(t[j - 1]));
                    assert(s[j] == t[j - 1]);
                }
            }
        }
    }
}

/// An element at `i` satisfying `p`, with no match before it, pins
/// `find_idx` to `i`.
pub proof fn lemma_find_idx_at<A>(s: Seq<A>, p: spec_fn(A) -> bool, i: int)
    requires
        0 <= i < s.len(),
        p(s[i]),
        forall|j: int| 0 <= j < i ==> !p(s[j]),
    ensures
        find_idx(s, p) == i,
{
    lemma_find_idx(s, p);
}

/// Predicates that agree on every element of `s` find the same index.
pub proof fn lemma_find_idx_ext<A>(s: Seq<A>, p: spec_fn(A) -> bool, q: spec_fn(A) -> bool)
    requires
        forall|j: int| 0 <= j < s.len() ==> p(#[trigger] s[j]) == q(s[j]),
    ensures
        find_idx(s, p) == find_idx(s, q),
    decreases s.len(),
{
    if s.len() > 0 && !p(s[0]) {
        let t = s.subrange(1, s.len() as int);
        assert(forall|j: int| 0 <= j < t.len() ==> #[trigger] t[j] == s[j + 1]);
        lemma_find_idx_ext(t, p, q);
    }
}

/// No element satisfying `p` means `find_idx` is -1.
pub proof fn lemma_find_idx_none<A>(s: Seq<A>, p: spec_fn(A) -> bool)
    requires
        forall|j: int| 0 <= j < s.len() ==> !p(s[j]),
    ensures
        find_idx(s, p) == -1,
{
    lemma_find_idx(s, p);
}

} // verus!
