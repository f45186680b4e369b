//! Lifetime bookkeeping for compiled GPU program objects.
//!
//! The driver hands out one object per successful compilation and must see
//! exactly one destruction per object. The store records which handles are
//! alive; components everywhere else hold handles by value and never destroy
//! them directly, so a handle held across frames stays valid while the
//! authoritative registry slot is swapped.

use vstd::prelude::*;

verus! {

/// Handle to one compiled GPU program object.
#[derive(Clone, Copy, Debug, PartialEq, Eq, Structural)]
pub struct ProgramId(pub u64);

/// The set of program objects currently alive in the rendering context,
/// together with how many were ever destroyed.
#[derive(Debug)]
pub struct ProgramStore {
    /// Identity the next compilation will receive.
    next_id: u64,
    /// Identities of the objects compiled and not yet destroyed.
    live: Vec<u64>,
    /// How many objects were destroyed so far.
    destroyed_count: u64,
}

impl ProgramStore {
    /// Every live identity was allocated, none is repeated, and every
    /// allocated identity is either live or was destroyed exactly once.
    pub closed spec fn wf(&self) -> bool {
        &&& forall|i: int| 0 <= i < self.live@.len() ==> self.live@[i] < self.next_id
        &&& forall|i: int, j: int|
            0 <= i < j < self.live@.len() ==> self.live@[i] != self.live@[j]
        &&& self.destroyed_count + self.live@.len() == self.next_id
    }

    /// Whether the program object behind `id` is alive.
    pub closed spec fn spec_is_live(&self, id: ProgramId) -> bool {
        self.live@.contains(id.0)
    }

    /// How many objects were destroyed so far.
    pub closed spec fn spec_destroyed_count(&self) -> u64 {
        self.destroyed_count
    }

    /// How many objects are alive now.
    pub closed spec fn spec_live_count(&self) -> nat {
        self.live@.len()
    }

    /// Identities this store has never handed out yet.
    pub closed spec fn spec_next_id(&self) -> u64 {
        self.next_id
    }

    /// A store with no objects.
    pub fn new() -> (r: ProgramStore)
        ensures
            r.wf(),
            r.spec_destroyed_count() == 0,
            r.spec_live_count() == 0,
            r.spec_next_id() == 0,
            forall|id: ProgramId| !r.spec_is_live(id),
    {
        ProgramStore { next_id: 0, live: Vec::new(), destroyed_count: 0 }
    }

    /// Whether the program object behind `id` is alive.
    pub fn is_live(&self, id: ProgramId) -> (r: bool)
        ensures
            r == self.spec_is_live(id),
    {
        let mut i: usize = 0;
        while i < self.live.len()
            invariant
                0 <= i <= self.live.len(),
                forall|j: int| 0 <= j < i ==> self.live@[j] != id.0,
            decreases self.live.len() - i,
        {
            if self.live[i] == id.0 {
                return true;
            }
            i += 1;
        }
        false
    }

    /// How many objects were destroyed so far.
    pub fn destroyed_count(&self) -> (r: u64)
        ensures
            r == self.spec_destroyed_count(),
    {
        self.destroyed_count
    }

    /// How many objects are alive now.
    pub fn live_count(&self) -> (r: usize)
        ensures
            r == self.spec_live_count(),
    {
        self.live.len()
    }

    /// Compiles `source` into a new program object. The model driver accepts
    /// every source; a driver rejection is represented by the caller not
    /// reaching this call.
    pub fn compile(&mut self, source: &str) -> (r: ProgramId)
        requires
            old(self).wf(),
            old(self).spec_next_id() < u64::MAX,
        ensures
            final(self).wf(),
            r.0 == old(self).spec_next_id(),
            !old(self).spec_is_live(r),
            final(self).spec_is_live(r),
            final(self).spec_next_id() == old(self).spec_next_id() + 1,
            final(self).spec_destroyed_count() == old(self).spec_destroyed_count(),
            final(self).spec_live_count() == old(self).spec_live_count() + 1,
            forall|other: ProgramId|
                other != r ==> final(self).spec_is_live(other) == old(self).spec_is_live(other),
    {
        let _ = source;
        let id = self.next_id;
        self.live.push(id);
        self.next_id = id + 1;
        proof {
            assert(self.live@.last() == id);
            assert(self.live@.contains(id));
            assert forall|other: ProgramId| other != ProgramId(id) implies self.spec_is_live(other)
                == old(self).spec_is_live(other) by {
                if self.live@.contains(other.0) {
                    let k = choose|k: int| 0 <= k < self.live@.len() && self.live@[k] == other.0;
                    assert(k < self.live@.len() - 1);
                    assert(old(self).live@[k] == other.0);
                }
                if old(self).live@.contains(other.0) {
                    let k = choose|k: int|
                        0 <= k < old(self).live@.len() && old(self).live@[k] == other.0;
                    assert(self.live@[k] == other.0);
                }
            }
        }
        ProgramId(id)
    }

    /// A live identity is strictly below the next one to be handed out, so
    /// a freshly compiled program never collides with a live one.
    pub proof fn lemma_live_bound(&self, id: ProgramId)
        requires
            self.wf(),
            self.spec_is_live(id),
        ensures
            id.0 < self.spec_next_id(),
    {
        let k = choose|k: int| 0 <= k < self.live@.len() && self.live@[k] == id.0;
        assert(self.live@[k] < self.next_id);
    }

    /// Destroys the program object behind `id`. The object must be alive:
    /// double destruction is ruled out statically.
    pub fn destroy(&mut self, id: ProgramId)
        requires
            old(self).wf(),
            old(self).spec_is_live(id),
        ensures
            final(self).wf(),
            !final(self).spec_is_live(id),
            final(self).spec_destroyed_count() == old(self).spec_destroyed_count() + 1,
            final(self).spec_next_id() == old(self).spec_next_id(),
            final(self).spec_live_count() + 1 == old(self).spec_live_count(),
            forall|other: ProgramId|
                other != id ==> final(self).spec_is_live(other) == old(self).spec_is_live(other),
    {
        let mut i: usize = 0;
        let n = self.live.len();
        while i < n
            invariant
                old(self) == self,
                n == self.live.len(),
                0 <= i <= n,
                forall|j: int| 0 <= j < i ==> self.live@[j] != id.0,
                old(self).wf(),
                old(self).spec_is_live(id),
            decreases n - i,
        {
            if self.live[i] == id.0 {
                let ghost pre = self.live@;
                self.live.swap_remove(i);
                proof {
                    assert(old(self).destroyed_count + pre.len() == old(self).next_id);
                    lemma_swap_remove_unique(pre, self.live@, i as int, id.0);
                    assert forall|k: int|
                        0 <= k < self.live@.len() implies self.live@[k] < self.next_id by {
                        assert(pre.contains(self.live@[k]));
                        let j = choose|j: int| 0 <= j < pre.len() && pre[j] == self.live@[k];
                        assert(pre[j] < old(self).next_id);
                    }
                }
                self.destroyed_count = self.destroyed_count + 1;
                return ;
            }
            i += 1;
        }
        proof {
            let k = choose|k: int| 0 <= k < self.live@.len() && self.live@[k] == id.0;
            assert(false);
        }
    }
}

/// After removing the sole occurrence of `target` (at position `i`, by a
/// swap with the last element), exactly the other elements remain, still
/// without repetition and with the same bound.
proof fn lemma_swap_remove_unique(pre: Seq<u64>, post: Seq<u64>, i: int, target: u64)
    requires
        0 <= i < pre.len(),
        pre[i] == target,
        forall|p: int, q: int| 0 <= p < q < pre.len() ==> pre[p] != pre[q],
        post == pre.update(i, pre.last()).drop_last(),
    ensures
        post.len() == pre.len() - 1,
        !post.contains(target),
        forall|x: u64| x != target ==> post.contains(x) == pre.contains(x),
        forall|p: int, q: int| 0 <= p < q < post.len() ==> post[p] != post[q],
        forall|k: int| 0 <= k < post.len() ==> pre.contains(#[trigger] post[k]),
{
    let swapped = pre.update(i, pre.last());
    assert forall|x: u64| x != target implies post.contains(x) == pre.contains(x) by {
        if pre.contains(x) {
            let k = choose|k: int| 0 <= k < pre.len() && pre[k] == x;
            if k == pre.len() - 1 {
                assert(k != i);
                assert(i < post.len());
                assert(post[i] == x);
            } else if k == i {
                assert(false);
            } else {
                assert(post[k] == x);
            }
            assert(post.contains(x));
        }
        if post.contains(x) {
            let k = choose|k: int| 0 <= k < post.len() && post[k] == x;
            if k == i {
                assert(pre.last() == x);
            } else {
                assert(pre[k] == x);
            }
            assert(pre.contains(x));
        }
    }
    assert(!post.contains(target)) by {
        if post.contains(target) {
            let k = choose|k: int| 0 <= k < post.len() && post[k] == target;
            if k == i {
                assert(pre.last() == target);
                assert(pre.len() - 1 == i || pre[i] != pre[pre.len() - 1]);
            } else {
                assert(pre[k] == target);
                assert(pre[i] == target);
            }
        }
    }
}

} // verus!
