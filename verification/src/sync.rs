//! The mirror reconciliation policy: keeping a GPU-resident copy of a
//! serialized sequence in step with CPU-side edits.
//!
//! A `Mirror` tracks the remote allocation's capacity in bytes and one
//! staleness flag for the binding set built against the allocation. Per
//! frame, `reconcile` is called with the serialized payload's size: if
//! it fits, the caller overwrites the allocation in place and nothing
//! is invalidated; if it does not, the caller must allocate a new
//! buffer of exactly the payload's size, and every binding set
//! referencing the old allocation is stale until `rebuild` is called.
//! Capacity never shrinks, which bounds reallocation frequency.

use vstd::prelude::*;

verus! {

/// The tracked state of one GPU-resident mirror.
pub struct Mirror {
    /// Bytes the remote allocation can hold.
    pub capacity: usize,
    /// Whether a binding set referencing the allocation must be rebuilt
    /// before the next use.
    pub binding_stale: bool,
}

/// The capacity after reconciling a payload of `len` bytes against a
/// mirror of capacity `cap`: exact-fit growth, never shrinking.
pub open spec fn reconciled_capacity(cap: int, len: int) -> int {
    if len > cap {
        len
    } else {
        cap
    }
}

impl Mirror {
    /// A fresh mirror over an allocation of `initial_capacity` bytes,
    /// with its binding set freshly built.
    pub fn new(initial_capacity: usize) -> (r: Mirror)
        ensures
            r.capacity == initial_capacity,
            !r.binding_stale,
    {
        Mirror { capacity: initial_capacity, binding_stale: false }
    }

    /// Reconcile a serialized payload of `payload_len` bytes. Returns
    /// whether the allocation grew: exactly then must the caller
    /// replace the remote buffer (sized exactly to the payload), and
    /// exactly then does the binding set become stale. Without growth
    /// the capacity and the flag are untouched, so a binding set stays
    /// valid across any run of frames that do not grow.
    pub fn reconcile(&mut self, payload_len: usize) -> (grew: bool)
        ensures
            grew == (payload_len > old(self).capacity),
            final(self).capacity == reconciled_capacity(
                old(self).capacity as int,
                payload_len as int,
            ),
            final(self).capacity >= old(self).capacity,
            final(self).binding_stale == (old(self).binding_stale || grew),
            !grew ==> final(self).capacity == old(self).capacity && final(self).binding_stale
                == old(self).binding_stale,
    {
        if payload_len > self.capacity {
            self.capacity = payload_len;
            self.binding_stale = true;
            true
        } else {
            false
        }
    }

    /// Rebuild the binding set against the current allocation: clears
    /// the staleness flag and changes nothing else. Idempotent.
    pub fn rebuild(&mut self)
        ensures
            final(self).capacity == old(self).capacity,
            !final(self).binding_stale,
    {
        self.binding_stale = false;
    }
}

/// The capacity after reconciling a whole run of payload sizes, in
/// order.
pub open spec fn run_capacity(cap: int, sizes: Seq<int>) -> int
    decreases sizes.len(),
{
    if sizes.len() == 0 {
        cap
    } else {
        reconciled_capacity(run_capacity(cap, sizes.drop_last()), sizes.last())
    }
}

/// Capacity is monotone over any run of reconciliations: whatever the
/// payload sizes, the tracked capacity never decreases.
pub proof fn lemma_run_capacity_monotone(cap: int, sizes: Seq<int>)
    ensures
        run_capacity(cap, sizes) >= cap,
    decreases sizes.len(),
{
    if sizes.len() > 0 {
        lemma_run_capacity_monotone(cap, sizes.drop_last());
    }
}

/// A run of payloads that all fit leaves the capacity untouched, and a
/// binding set valid at the start is still valid at the end: staleness
/// arises exactly on the frames where the capacity grows.
pub proof fn lemma_quiet_run_keeps_binding(cap: int, sizes: Seq<int>)
    requires
        forall|i: int| 0 <= i < sizes.len() ==> #[trigger] sizes[i] <= cap,
    ensures
        run_capacity(cap, sizes) == cap,
    decreases sizes.len(),
{
    if sizes.len() > 0 {
        assert(forall|i: int|
            0 <= i < sizes.drop_last().len() ==> #[trigger] sizes.drop_last()[i] <= cap);
        lemma_quiet_run_keeps_binding(cap, sizes.drop_last());
        assert(sizes.last() <= cap);
    }
}

} // verus!
