//! Per-message mutual exclusion: a table of held message ids. Acquisition
//! is insert-if-absent; at most one refresh per message can hold the lock
//! at a time, and a refresh that cannot acquire it returns at once instead
//! of waiting.

use vstd::prelude::*;

verus! {

/// The table of message ids whose refresh lock is currently held.
pub struct MessageLocks {
    held: Vec<i64>,
}

impl MessageLocks {
    /// The held ids, as a set.
    pub closed spec fn held_set(&self) -> Set<i64> {
        self.held@.to_set()
    }

    /// Well-formed: no id is held twice. Established by [`MessageLocks::new`]
    /// and preserved by every operation.
    pub closed spec fn wf(self) -> bool {
        forall|i: int, j: int|
            0 <= i < j < self.held@.len() ==> #[trigger] self.held@[i] != #[trigger] self.held@[j]
    }

    /// An empty table: no lock is held.
    pub fn new() -> (r: MessageLocks)
        ensures
            r.held_set() == Set::<i64>::empty(),
            r.wf(),
    {
        let r = MessageLocks { held: Vec::new() };
        proof {
            assert(r.held_set() =~= Set::<i64>::empty());
        }
        r
    }

    fn index_of(&self, id: i64) -> (r: Option<usize>)
        ensures
            match r {
                Some(i) => i < self.held@.len() && self.held@[i as int] == id,
                None => !self.held@.contains(id),
            },
    {
        let mut i: usize = 0;
        while i < self.held.len()
            invariant
                i <= self.held.len(),
                forall|j: int| 0 <= j < i ==> self.held@[j] != id,
            decreases self.held.len() - i,
        {
            if self.held[i] == id {
                return Some(i);
            }
            i += 1;
        }
        None
    }

    /// Whether the lock for `id` is held.
    pub fn is_held(&self, id: i64) -> (r: bool)
        ensures
            r == self.held_set().contains(id),
    {
        let r = self.index_of(id);
        proof {
            if r is Some {
                assert(self.held@.contains(id));
            }
        }
        r.is_some()
    }

    /// Try to acquire the lock for `id`: a single insert-if-absent.
    /// Succeeds exactly when nobody holds it; on success the id is held
    /// afterwards, on failure the table is unchanged.
    pub fn lock(&mut self, id: i64) -> (acquired: bool)
        requires
            old(self).wf(),
        ensures
            acquired == !old(self).held_set().contains(id),
            final(self).held_set() == old(self).held_set().insert(id),
            final(self).wf(),
    {
        let found = self.index_of(id);
        match found {
            Some(_) => {
                proof {
                    assert(self.held@.contains(id));
                    assert(self.held_set() =~= self.held_set().insert(id));
                }
                false
            },
            None => {
                let ghost old_held = self.held@;
                self.held.push(id);
                proof {
                    broadcast use vstd::seq_lib::group_seq_properties;

                    assert(self.held@.drop_last() =~= old_held);
                    assert(self.held_set() =~= old_held.to_set().insert(id));
                }
                true
            },
        }
    }

    /// Release the lock for `id`. Releasing an unheld lock is a no-op.
    pub fn unlock(&mut self, id: i64)
        requires
            old(self).wf(),
        ensures
            final(self).held_set() == old(self).held_set().remove(id),
            final(self).wf(),
    {
        let found = self.index_of(id);
        match found {
            Some(i) => {
                let ghost old_held = self.held@;
                self.held.remove(i);
                proof {
                    old_held.remove_ensures(i as int);
                    assert forall|x: i64| #[trigger]
                        self.held@.contains(x) <==> old_held.to_set().remove(id).contains(x) by {
                        if self.held@.contains(x) {
                            let j = choose|j: int|
                                0 <= j < self.held@.len() && self.held@[j] == x;
                            if j < i {
                                assert(old_held[j] == x);
                            } else {
                                assert(old_held[j + 1] == x);
                            }
                            assert(old_held.contains(x));
                            assert(x != id);
                        }
                        if old_held.contains(x) && x != id {
                            let j = choose|j: int| 0 <= j < old_held.len() && old_held[j] == x;
                            if j < i {
                                assert(self.held@[j] == x);
                            } else {
                                assert(j != i);
                                assert(self.held@[j - 1] == x);
                            }
                        }
                    }
                    assert(self.held_set() =~= old_held.to_set().remove(id));
                }
            },
            None => {
                proof {
                    assert(self.held_set() =~= self.held_set().remove(id));
                }
            },
        }
    }
}

/// Law: of two refresh attempts for the same message whose lock
/// acquisitions overlap — the second tries before the first releases — at
/// most one acquires the lock, so at most one proceeds to the decision and
/// apply steps.
pub proof fn lemma_refresh_mutual_exclusion(
    held0: Set<i64>,
    held1: Set<i64>,
    held2: Set<i64>,
    id: i64,
    acquired1: bool,
    acquired2: bool,
)
    requires
        // what the first `lock(id)` ensures
        acquired1 == !held0.contains(id),
        held1 == held0.insert(id),
        // what the second `lock(id)` ensures, with no `unlock(id)` between
        acquired2 == !held1.contains(id),
        held2 == held1.insert(id),
    ensures
        !(acquired1 && acquired2),
        !acquired2,
{
}

} // verus!
