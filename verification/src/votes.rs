//! Votes: one user's up- or downvote on a message for a given starboard.
//! One vote per (voter, message, starboard); the count is always computed
//! fresh from the rows, never trusted from a cached number.

use vstd::prelude::*;

verus! {

/// One vote.
#[derive(Clone, Copy, PartialEq, Eq, Structural)]
pub struct Vote {
    pub message_id: i64,
    pub starboard_id: i32,
    pub user_id: i64,
    /// A downvote counts -1; an upvote +1.
    pub is_downvote: bool,
}

/// What one vote contributes to the count of a (message, starboard) pair.
pub open spec fn vote_weight(v: Vote, message_id: i64, starboard_id: i32) -> int {
    if v.message_id == message_id && v.starboard_id == starboard_id {
        if v.is_downvote {
            -1
        } else {
            1
        }
    } else {
        0
    }
}

/// The point count of a (message, starboard) pair: upvotes minus
/// downvotes.
pub open spec fn tally(rows: Seq<Vote>, message_id: i64, starboard_id: i32) -> int
    decreases rows.len(),
{
    if rows.len() == 0 {
        0
    } else {
        vote_weight(rows[0], message_id, starboard_id) + tally(
            rows.subrange(1, rows.len() as int),
            message_id,
            starboard_id,
        )
    }
}

/// The table of votes.
pub struct VoteStore {
    rows: Vec<Vote>,
}

impl VoteStore {
    /// The stored rows.
    pub closed spec fn rows(self) -> Seq<Vote> {
        self.rows@
    }

    /// Well-formed: one vote per (voter, message, starboard), and few
    /// enough rows that a count fits the count type. Established by
    /// [`VoteStore::new`] and preserved by every operation.
    pub closed spec fn wf(self) -> bool {
        &&& self.rows@.len() < i32::MAX
        &&& forall|i: int, j: int|
            0 <= i < j < self.rows@.len() ==> ((#[trigger] self.rows@[i]).user_id != (
            #[trigger] self.rows@[j]).user_id || self.rows@[i].message_id
                != self.rows@[j].message_id || self.rows@[i].starboard_id
                != self.rows@[j].starboard_id)
    }

    /// Whether a voter has a vote on the pair.
    pub open spec fn has_vote(self, user_id: i64, message_id: i64, starboard_id: i32) -> bool {
        exists|i: int|
            0 <= i < self.rows().len() && (#[trigger] self.rows()[i]).user_id == user_id
                && self.rows()[i].message_id == message_id && self.rows()[i].starboard_id
                == starboard_id
    }

    /// An empty table.
    pub fn new() -> (r: VoteStore)
        ensures
            r.wf(),
            r.rows().len() == 0,
    {
        VoteStore { rows: Vec::new() }
    }

    /// Record a vote: a reaction event arrived. An existing vote by the
    /// same voter on the same pair is replaced (its direction may flip).
    pub fn add_vote(&mut self, v: Vote)
        requires
            old(self).wf(),
            old(self).rows().len() + 1 < i32::MAX,
        ensures
            final(self).wf(),
            final(self).has_vote(v.user_id, v.message_id, v.starboard_id),
            old(self).has_vote(v.user_id, v.message_id, v.starboard_id) ==> exists|i: int|
                0 <= i < old(self).rows().len() && (#[trigger] old(self).rows()[i]).user_id
                    == v.user_id && old(self).rows()[i].message_id == v.message_id && old(
                    self,
                ).rows()[i].starboard_id == v.starboard_id && final(self).rows() == old(
                    self,
                ).rows().update(i, v),
            !old(self).has_vote(v.user_id, v.message_id, v.starboard_id) ==> final(self).rows()
                == old(self).rows().push(v),
    {
        let mut i: usize = 0;
        while i < self.rows.len()
            invariant
                old(self).wf(),
                old(self).rows().len() + 1 < i32::MAX,
                self.rows@ == old(self).rows@,
                i <= self.rows@.len(),
                forall|j: int|
                    0 <= j < i ==> ((#[trigger] self.rows@[j]).user_id != v.user_id
                        || self.rows@[j].message_id != v.message_id
                        || self.rows@[j].starboard_id != v.starboard_id),
            decreases self.rows@.len() - i,
        {
            let w = self.rows[i];
            if w.user_id == v.user_id && w.message_id == v.message_id && w.starboard_id
                == v.starboard_id {
                self.rows.set(i, v);
                proof {
                    assert(final(self).rows()[i as int] == v);
                    // the replaced row carried the same (voter, message,
                    // starboard) triple, so uniqueness carries over
                    assert forall|a: int, b: int|
                        0 <= a < b < self.rows@.len() implies ((#[trigger] self.rows@[a]).user_id
                        != (#[trigger] self.rows@[b]).user_id || self.rows@[a].message_id
                        != self.rows@[b].message_id || self.rows@[a].starboard_id
                        != self.rows@[b].starboard_id) by {
                        assert(old(self).rows@[a].user_id != old(self).rows@[b].user_id || old(
                            self,
                        ).rows@[a].message_id != old(self).rows@[b].message_id || old(
                            self,
                        ).rows@[a].starboard_id != old(self).rows@[b].starboard_id);
                    }
                }
                return ;
            }
            i += 1;
        }
        self.rows.push(v);
        proof {
            assert(final(self).rows()[old(self).rows().len() as int] == v);
        }
    }

    /// Remove a voter's vote on the pair, if any: the reaction was taken
    /// back.
    pub fn remove_vote(&mut self, user_id: i64, message_id: i64, starboard_id: i32) -> (removed:
        bool)
        requires
            old(self).wf(),
        ensures
            final(self).wf(),
            removed == old(self).has_vote(user_id, message_id, starboard_id),
            !final(self).has_vote(user_id, message_id, starboard_id),
            removed ==> exists|i: int|
                0 <= i < old(self).rows().len() && (#[trigger] old(self).rows()[i]).user_id
                    == user_id && old(self).rows()[i].message_id == message_id && old(
                    self,
                ).rows()[i].starboard_id == starboard_id && final(self).rows() == old(
                    self,
                ).rows().remove(i),
            !removed ==> final(self).rows() == old(self).rows(),
    {
        let mut i: usize = 0;
        while i < self.rows.len()
            invariant
                self.wf(),
                self.rows@ == old(self).rows@,
                i <= self.rows@.len(),
                forall|j: int|
                    0 <= j < i ==> ((#[trigger] self.rows@[j]).user_id != user_id
                        || self.rows@[j].message_id != message_id || self.rows@[j].starboard_id
                        != starboard_id),
            decreases self.rows@.len() - i,
        {
            let w = self.rows[i];
            if w.user_id == user_id && w.message_id == message_id && w.starboard_id
                == starboard_id {
                let ghost pre = self.rows@;
                self.rows.remove(i);
                proof {
                    pre.remove_ensures(i as int);
                    assert((#[trigger] old(self).rows()[i as int]).user_id == user_id && old(
                        self,
                    ).rows()[i as int].message_id == message_id && old(
                        self,
                    ).rows()[i as int].starboard_id == starboard_id && final(self).rows() == old(
                        self,
                    ).rows().remove(i as int));
                    assert(old(self).has_vote(user_id, message_id, starboard_id));
                    assert forall|j: int|
                        0 <= j < self.rows@.len() implies ((#[trigger] self.rows@[j]).user_id
                        != user_id || self.rows@[j].message_id != message_id
                        || self.rows@[j].starboard_id != starboard_id) by {
                        if j < i {
                            assert(self.rows@[j] == pre[j]);
                        } else {
                            assert(self.rows@[j] == pre[j + 1]);
                        }
                    }
                }
                return true;
            }
            i += 1;
        }
        false
    }

    /// How many votes are stored.
    pub fn len(&self) -> (r: usize)
        ensures
            r == self.rows().len(),
    {
        self.rows.len()
    }

    /// Count the votes of a (message, starboard) pair: upvotes minus
    /// downvotes, computed fresh from the rows.
    pub fn count(&self, message_id: i64, starboard_id: i32) -> (r: i32)
        requires
            self.wf(),
        ensures
            r as int == tally(self.rows(), message_id, starboard_id),
    {
        let ghost all = self.rows@;
        let mut total: i64 = 0;
        let mut i: usize = 0;
        proof {
            assert(all.subrange(0, all.len() as int) =~= all);
        }
        while i < self.rows.len()
            invariant
                self.wf(),
                self.rows@ == all,
                i <= all.len(),
                -(i as int) <= total as int <= i as int,
                tally(all, message_id, starboard_id) == total + tally(
                    all.subrange(i as int, all.len() as int),
                    message_id,
                    starboard_id,
                ),
            decreases all.len() - i,
        {
            let ghost tail = all.subrange(i as int, all.len() as int);
            proof {
                assert(tail[0] == all[i as int]);
                assert(tail.subrange(1, tail.len() as int) =~= all.subrange(
                    i + 1 as int,
                    all.len() as int,
                ));
            }
            let v = self.rows[i];
            if v.message_id == message_id && v.starboard_id == starboard_id {
                if v.is_downvote {
                    total -= 1;
                } else {
                    total += 1;
                }
            }
            i += 1;
        }
        proof {
            assert(all.subrange(all.len() as int, all.len() as int) =~= Seq::<Vote>::empty());
            assert(-(all.len() as int) <= total as int <= all.len() as int);
        }
        total as i32
    }
}

} // verus!
