//! Stored starboard posts: the record linking a source message to its
//! mirrored copy in a starboard channel. At most one post exists per
//! (source message, starboard) pair, and mirror message ids are unique;
//! every operation preserves both.

use vstd::prelude::*;

verus! {

/// The record of one mirrored message.
#[derive(Clone, Copy, Debug, PartialEq, Eq, Structural)]
pub struct StarboardPost {
    /// The source message.
    pub message_id: i64,
    /// The mirrored message in the starboard channel.
    pub starboard_message_id: i64,
    /// The starboard the mirror lives on.
    pub starboard_id: i32,
    /// The vote count at the last successful apply. Advisory: it only
    /// short-circuits no-op refreshes; the vote store is the source of
    /// truth.
    pub last_known_point_count: i32,
}

/// The table of starboard posts.
pub struct PostStore {
    rows: Vec<StarboardPost>,
}

impl PostStore {
    /// The stored rows.
    pub closed spec fn rows(self) -> Seq<StarboardPost> {
        self.rows@
    }

    /// Well-formed: no two rows share a (message, starboard) pair, and no
    /// two rows share a mirror message id. Established by
    /// [`PostStore::new`] and preserved by every operation.
    pub closed spec fn wf(self) -> bool {
        forall|i: int, j: int|
            0 <= i < j < self.rows@.len() ==> ((#[trigger] self.rows@[i]).message_id != (
            #[trigger] self.rows@[j]).message_id || self.rows@[i].starboard_id
                != self.rows@[j].starboard_id) && self.rows@[i].starboard_message_id
                != self.rows@[j].starboard_message_id
    }

    /// Whether a post exists for the pair.
    pub open spec fn has_pair(self, message_id: i64, starboard_id: i32) -> bool {
        exists|i: int|
            0 <= i < self.rows().len() && (#[trigger] self.rows()[i]).message_id == message_id
                && self.rows()[i].starboard_id == starboard_id
    }

    /// Whether a post exists with this mirror message id.
    pub open spec fn has_mirror(self, starboard_message_id: i64) -> bool {
        exists|i: int|
            0 <= i < self.rows().len() && (#[trigger] self.rows()[i]).starboard_message_id
                == starboard_message_id
    }

    /// An empty table.
    pub fn new() -> (r: PostStore)
        ensures
            r.wf(),
            r.rows().len() == 0,
    {
        PostStore { rows: Vec::new() }
    }

    /// The post for a (message, starboard) pair, if any.
    pub fn get_by_starboard(&self, message_id: i64, starboard_id: i32) -> (r: Option<
        StarboardPost,
    >)
        ensures
            match r {
                Some(p) => self.rows().contains(p) && p.message_id == message_id && p.starboard_id
                    == starboard_id && self.has_pair(message_id, starboard_id),
                None => !self.has_pair(message_id, starboard_id),
            },
    {
        let mut i: usize = 0;
        while i < self.rows.len()
            invariant
                i <= self.rows@.len(),
                forall|j: int|
                    0 <= j < i ==> ((#[trigger] self.rows@[j]).message_id != message_id
                        || self.rows@[j].starboard_id != starboard_id),
            decreases self.rows@.len() - i,
        {
            let p = self.rows[i];
            if p.message_id == message_id && p.starboard_id == starboard_id {
                proof {
                    assert(self.rows@.contains(p));
                }
                return Some(p);
            }
            i += 1;
        }
        None
    }

    /// The post with this mirror message id, if any.
    pub fn get(&self, starboard_message_id: i64) -> (r: Option<StarboardPost>)
        ensures
            match r {
                Some(p) => self.rows().contains(p) && p.starboard_message_id
                    == starboard_message_id && self.has_mirror(starboard_message_id),
                None => !self.has_mirror(starboard_message_id),
            },
    {
        let mut i: usize = 0;
        while i < self.rows.len()
            invariant
                i <= self.rows@.len(),
                forall|j: int|
                    0 <= j < i ==> (#[trigger] self.rows@[j]).starboard_message_id
                        != starboard_message_id,
            decreases self.rows@.len() - i,
        {
            let p = self.rows[i];
            if p.starboard_message_id == starboard_message_id {
                proof {
                    assert(self.rows@.contains(p));
                }
                return Some(p);
            }
            i += 1;
        }
        None
    }

    /// Record a fresh mirror. The caller must have seen no post for the
    /// pair and a fresh mirror id; the uniqueness invariants then carry
    /// over.
    pub fn create(
        &mut self,
        message_id: i64,
        starboard_message_id: i64,
        starboard_id: i32,
        points: i32,
    ) -> (r: StarboardPost)
        requires
            old(self).wf(),
            !old(self).has_pair(message_id, starboard_id),
            !old(self).has_mirror(starboard_message_id),
        ensures
            final(self).wf(),
            r == (StarboardPost {
                message_id,
                starboard_message_id,
                starboard_id,
                last_known_point_count: points,
            }),
            final(self).rows() == old(self).rows().push(r),
    {
        let p = StarboardPost {
            message_id,
            starboard_message_id,
            starboard_id,
            last_known_point_count: points,
        };
        self.rows.push(p);
        p
    }

    /// Drop the record of a mirror.
    pub fn delete(&mut self, starboard_message_id: i64) -> (r: Option<StarboardPost>)
        requires
            old(self).wf(),
        ensures
            final(self).wf(),
            !final(self).has_mirror(starboard_message_id),
            forall|p: StarboardPost| #[trigger]
                final(self).rows().contains(p) <==> (old(self).rows().contains(p)
                    && p.starboard_message_id != starboard_message_id),
            r is Some <==> old(self).has_mirror(starboard_message_id),
    {
        let mut i: usize = 0;
        while i < self.rows.len()
            invariant
                self.wf(),
                self.rows@ == old(self).rows@,
                i <= self.rows@.len(),
                forall|j: int|
                    0 <= j < i ==> (#[trigger] self.rows@[j]).starboard_message_id
                        != starboard_message_id,
            decreases self.rows@.len() - i,
        {
            let p = self.rows[i];
            if p.starboard_message_id == starboard_message_id {
                let ghost pre = self.rows@;
                self.rows.remove(i);
                proof {
                    pre.remove_ensures(i as int);
                    assert(old(self).rows() == pre);
                    assert forall|q: StarboardPost| #[trigger]
                        self.rows().contains(q) implies old(self).rows().contains(q)
                        && q.starboard_message_id != starboard_message_id by {
                        let j = choose|j: int| 0 <= j < self.rows@.len() && self.rows@[j] == q;
                        if j < i {
                            assert(pre[j] == q);
                        } else {
                            assert(pre[j + 1] == q);
                        }
                        assert(pre.contains(q));
                    }
                    assert forall|q: StarboardPost|
                        old(self).rows().contains(q) && q.starboard_message_id
                            != starboard_message_id implies #[trigger]
                    self.rows().contains(q) by {
                        let j = choose|j: int| 0 <= j < pre.len() && pre[j] == q;
                        assert(j != i);
                        if j < i {
                            assert(self.rows@[j] == q);
                        } else {
                            assert(self.rows@[j - 1] == q);
                        }
                    }
                    assert(pre.contains(p));
                    assert forall|j: int|
                        0 <= j < self.rows().len() implies (
                    #[trigger] self.rows()[j]).starboard_message_id != starboard_message_id by {
                        assert(self.rows().contains(self.rows()[j]));
                    }
                }
                return Some(p);
            }
            i += 1;
        }
        proof {
            assert forall|q: StarboardPost| #[trigger]
                self.rows().contains(q) implies q.starboard_message_id
                != starboard_message_id by {
                let j = choose|j: int| 0 <= j < self.rows@.len() && self.rows@[j] == q;
            }
            assert forall|j: int|
                0 <= j < self.rows().len() implies (#[trigger] self.rows()[j]).starboard_message_id
                != starboard_message_id by {
                assert(self.rows().contains(self.rows()[j]));
            }
        }
        None
    }

    /// Record the vote count shown by the mirror after an apply.
    pub fn set_last_point_count(&mut self, starboard_message_id: i64, points: i32)
        requires
            old(self).wf(),
        ensures
            final(self).wf(),
            final(self).rows().len() == old(self).rows().len(),
            forall|j: int|
                0 <= j < old(self).rows().len() ==> (#[trigger] final(self).rows()[j])
                    == if old(self).rows()[j].starboard_message_id == starboard_message_id {
                    StarboardPost {
                        last_known_point_count: points,
                        ..old(self).rows()[j]
                    }
                } else {
                    old(self).rows()[j]
                },
    {
        let mut i: usize = 0;
        while i < self.rows.len()
            invariant
                i <= self.rows@.len(),
                self.rows@.len() == old(self).rows@.len(),
                forall|j: int|
                    0 <= j < i ==> (#[trigger] self.rows@[j]) == if old(
                        self,
                    ).rows@[j].starboard_message_id == starboard_message_id {
                        StarboardPost {
                            last_known_point_count: points,
                            ..old(self).rows@[j]
                        }
                    } else {
                        old(self).rows@[j]
                    },
                forall|j: int| i <= j < self.rows@.len() ==> (#[trigger] self.rows@[j]) == old(
                    self,
                ).rows@[j],
            decreases self.rows@.len() - i,
        {
            let p = self.rows[i];
            if p.starboard_message_id == starboard_message_id {
                self.rows.set(i, StarboardPost { last_known_point_count: points, ..p });
            }
            i += 1;
        }
        proof {
            assert forall|i: int, j: int| 0 <= i < j < self.rows@.len() implies ((
            #[trigger] self.rows@[i]).message_id != (#[trigger] self.rows@[j]).message_id
                || self.rows@[i].starboard_id != self.rows@[j].starboard_id)
                && self.rows@[i].starboard_message_id != self.rows@[j].starboard_message_id by {
                assert(old(self).rows@[i].starboard_message_id != old(
                    self,
                ).rows@[j].starboard_message_id);
            }
        }
    }
}

/// Law: at most one starboard post exists per (source message, starboard)
/// pair at any observation point — any two rows for the same pair are the
/// same row.
pub proof fn lemma_post_per_pair_unique(s: PostStore, i: int, j: int)
    requires
        s.wf(),
        0 <= i < s.rows().len(),
        0 <= j < s.rows().len(),
        s.rows()[i].message_id == s.rows()[j].message_id,
        s.rows()[i].starboard_id == s.rows()[j].starboard_id,
    ensures
        i == j,
{
}

} // verus!
