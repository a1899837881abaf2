use vstd::prelude::*;

verus! {

/// Process-wide generator of unique numeric identifiers, used for selectors
/// and for registered watch tokens.
///
/// The counter only ever moves forward, so no identifier is reused within the
/// allocator's lifetime. Wraparound on overflow is an explicit, documented
/// limitation rather than a handled case: `next` demands that the counter has
/// not reached its ceiling, and an unverified caller must check
/// `is_exhausted` first.
///
/// Concurrent callers share the allocator through exclusive access (in Rust,
/// an `&mut` borrow or a lock around it); any interleaving of their calls is
/// a chain of `next_step` transitions, and `lemma_ids_pairwise_distinct`
/// shows that every such chain hands out pairwise distinct identifiers.
pub struct IdAllocator {
    next_id: usize,
}

impl IdAllocator {
    /// The value the next call of `next` will return.
    pub closed spec fn counter(self) -> int {
        self.next_id as int
    }

    /// The set of identifiers handed out so far.
    pub open spec fn issued(self) -> Set<int> {
        Set::new(|i: int| 0 <= i < self.counter())
    }

    /// A fresh allocator that has issued nothing.
    pub fn new() -> (a: Self)
        ensures
            a.counter() == 0,
            a.issued() =~= Set::<int>::empty(),
    {
        IdAllocator { next_id: 0 }
    }

    /// Whether the counter has reached its ceiling, after which `next` may
    /// no longer be called.
    pub fn is_exhausted(&self) -> (b: bool)
        ensures
            b == (self.counter() == usize::MAX),
    {
        self.next_id == usize::MAX
    }

    /// Returns a previously-unissued identifier and advances the counter.
    pub fn next(&mut self) -> (id: usize)
        requires
            old(self).counter() < usize::MAX,
        ensures
            id == old(self).counter(),
            final(self).counter() == old(self).counter() + 1,
            !old(self).issued().contains(id as int),
            final(self).issued() =~= old(self).issued().insert(id as int),
    {
        let id = self.next_id;
        self.next_id = self.next_id + 1;
        id
    }
}

/// One call of `next`: it returns the counter's value and advances it by one.
pub open spec fn next_step(pre: IdAllocator, post: IdAllocator, id: usize) -> bool {
    &&& pre.counter() < usize::MAX
    &&& id == pre.counter()
    &&& post.counter() == pre.counter() + 1
}

/// A run of `next` calls, in the order their effects on the shared counter
/// took place, that starts in `pre`, hands out `ids`, and ends in `post`.
/// Calls from any number of callers interleave into exactly such a chain,
/// since each call's effect on the counter is a single atomic step.
pub open spec fn issue_chain(pre: IdAllocator, ids: Seq<usize>, post: IdAllocator) -> bool
    decreases ids.len(),
{
    if ids.len() == 0 {
        pre.counter() == post.counter()
    } else {
        exists|mid: IdAllocator|
            next_step(pre, mid, ids[0]) && issue_chain(mid, ids.skip(1), post)
    }
}

/// Along a chain, the k-th identifier handed out is the starting counter
/// plus k.
pub proof fn lemma_chain_ids(pre: IdAllocator, ids: Seq<usize>, post: IdAllocator)
    requires
        issue_chain(pre, ids, post),
    ensures
        forall|k: int| 0 <= k < ids.len() ==> ids[k] == pre.counter() + k,
    decreases ids.len(),
{
    if ids.len() > 0 {
        let mid = choose|mid: IdAllocator|
            next_step(pre, mid, ids[0]) && issue_chain(mid, ids.skip(1), post);
        lemma_chain_ids(mid, ids.skip(1), post);
        assert forall|k: int| 0 <= k < ids.len() implies ids[k] == pre.counter() + k by {
            if k > 0 {
                assert(ids.skip(1)[k - 1] == ids[k]);
            }
        }
    }
}

/// Identifiers issued by the allocator are pairwise distinct across any
/// number of callers: whatever chain of `next` calls their interleaving
/// forms, no two of the identifiers handed out are equal.
pub proof fn lemma_ids_pairwise_distinct(pre: IdAllocator, ids: Seq<usize>, post: IdAllocator)
    requires
        issue_chain(pre, ids, post),
    ensures
        forall|i: int, j: int| 0 <= i < j < ids.len() ==> ids[i] != ids[j],
{
    lemma_chain_ids(pre, ids, post);
}

} // verus!
