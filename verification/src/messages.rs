//! Tracked source messages and the per-decision facts derived from them.

use vstd::prelude::*;

use crate::posts::PostStore;
use crate::util::clone_opt_string;

verus! {

/// A source message known to have at least one vote. Created on first vote;
/// moderation commands flag it (force, trash, freeze); it is never hard
/// deleted.
pub struct DbMessage {
    pub message_id: i64,
    pub guild_id: i64,
    pub channel_id: i64,
    pub author_id: i64,
    /// Whether the source channel is age-restricted.
    pub is_nsfw: bool,
    /// Starboard ids this message is pinned to regardless of votes.
    pub forced_to: Vec<i32>,
    /// A trashed message is withdrawn from every starboard.
    pub trashed: bool,
    pub trash_reason: Option<String>,
    /// A frozen message takes part in no further lifecycle transitions.
    pub frozen: bool,
}

impl DbMessage {
    /// Whether this message is pinned to the given starboard.
    pub fn is_forced(&self, starboard_id: i32) -> (r: bool)
        ensures
            r == self.forced_to@.contains(starboard_id),
    {
        let mut i: usize = 0;
        while i < self.forced_to.len()
            invariant
                i <= self.forced_to.len(),
                forall|j: int| 0 <= j < i ==> self.forced_to@[j] != starboard_id,
            decreases self.forced_to.len() - i,
        {
            if self.forced_to[i] == starboard_id {
                return true;
            }
            i += 1;
        }
        false
    }
}

/// Everything the status decision reads about one message, for one
/// starboard, flattened to plain values.
#[derive(Clone, Copy, PartialEq, Eq, Structural)]
pub struct MessageFacts {
    /// The message is trashed (withdrawn by a moderator).
    pub trashed: bool,
    /// The message is frozen (lifecycle suspended).
    pub frozen: bool,
    /// The message is pinned to this starboard.
    pub forced: bool,
    /// The source channel is age-restricted.
    pub is_nsfw: bool,
    /// The author is a bot.
    pub author_is_bot: bool,
    /// The parsed message carries a displayable image.
    pub has_image: bool,
    /// Seconds since the message was created.
    pub age_seconds: i64,
    /// Outcome of the content pattern checks; meaningful only when the
    /// resolved settings carry a pattern. Computed by the pattern engine
    /// and handed in as a value.
    pub content_matches: bool,
}

/// Assemble the decision facts for one (message, starboard) pair from the
/// stored row and the values only the platform or a clock can supply.
pub fn facts_for(
    msg: &DbMessage,
    starboard_id: i32,
    author_is_bot: bool,
    has_image: bool,
    age_seconds: i64,
    content_matches: bool,
) -> (r: MessageFacts)
    ensures
        r.trashed == msg.trashed,
        r.frozen == msg.frozen,
        r.forced == msg.forced_to@.contains(starboard_id),
        r.is_nsfw == msg.is_nsfw,
        r.author_is_bot == author_is_bot,
        r.has_image == has_image,
        r.age_seconds == age_seconds,
        r.content_matches == content_matches,
{
    MessageFacts {
        trashed: msg.trashed,
        frozen: msg.frozen,
        forced: msg.is_forced(starboard_id),
        is_nsfw: msg.is_nsfw,
        author_is_bot,
        has_image,
        age_seconds,
        content_matches,
    }
}

/// Spec-level value of a stored message row.
#[verifier::ext_equal]
pub struct MessageRowModel {
    pub message_id: i64,
    pub guild_id: i64,
    pub channel_id: i64,
    pub author_id: i64,
    pub is_nsfw: bool,
    pub forced_to: Seq<i32>,
    pub trashed: bool,
    pub trash_reason: Option<Seq<char>>,
    pub frozen: bool,
}

impl View for DbMessage {
    type V = MessageRowModel;

    open spec fn view(&self) -> MessageRowModel {
        MessageRowModel {
            message_id: self.message_id,
            guild_id: self.guild_id,
            channel_id: self.channel_id,
            author_id: self.author_id,
            is_nsfw: self.is_nsfw,
            forced_to: self.forced_to@,
            trashed: self.trashed,
            trash_reason: match self.trash_reason {
                Some(s) => Some(s@),
                None => None,
            },
            frozen: self.frozen,
        }
    }
}

/// Copy a vector of starboard ids.
fn copy_id_vec(v: &Vec<i32>) -> (r: Vec<i32>)
    ensures
        r@ == v@,
{
    let mut r: Vec<i32> = Vec::new();
    let mut i: usize = 0;
    while i < v.len()
        invariant
            i <= v.len(),
            r@ =~= v@.subrange(0, i as int),
        decreases v.len() - i,
    {
        r.push(v[i]);
        proof {
            assert(r@ =~= v@.subrange(0, i + 1 as int));
        }
        i += 1;
    }
    proof {
        assert(v@.subrange(0, v.len() as int) =~= v@);
    }
    r
}

/// Copy a stored message row, preserving the view.
pub fn clone_db_message(m: &DbMessage) -> (r: DbMessage)
    ensures
        r@ == m@,
{
    let r = DbMessage {
        message_id: m.message_id,
        guild_id: m.guild_id,
        channel_id: m.channel_id,
        author_id: m.author_id,
        is_nsfw: m.is_nsfw,
        forced_to: copy_id_vec(&m.forced_to),
        trashed: m.trashed,
        trash_reason: clone_opt_string(&m.trash_reason),
        frozen: m.frozen,
    };
    proof {
        assert(r@ =~= m@);
    }
    r
}

/// The table of tracked messages.
pub struct MessageStore {
    rows: Vec<DbMessage>,
}

impl MessageStore {
    /// The stored rows.
    pub closed spec fn rows(self) -> Seq<DbMessage> {
        self.rows@
    }

    /// Well-formed: one row per message id, held in ascending id order —
    /// reads that list rows come out id-ordered, as the durable store
    /// orders them. Established by [`MessageStore::new`] and preserved by
    /// every operation.
    pub closed spec fn wf(self) -> bool {
        &&& forall|i: int, j: int|
            0 <= i < j < self.rows@.len() ==> (#[trigger] self.rows@[i]).message_id != (
            #[trigger] self.rows@[j]).message_id
        &&& forall|i: int, j: int|
            0 <= i < j < self.rows@.len() ==> (#[trigger] self.rows@[i]).message_id < (
            #[trigger] self.rows@[j]).message_id
    }

    /// Whether a row exists for the message.
    pub open spec fn has(self, message_id: i64) -> bool {
        exists|i: int|
            0 <= i < self.rows().len() && (#[trigger] self.rows()[i]).message_id == message_id
    }

    /// The stored row of a tracked message.
    pub closed spec fn row_model(self, message_id: i64) -> MessageRowModel
        recommends
            self.has(message_id),
    {
        let i = choose|i: int|
            0 <= i < self.rows().len() && (#[trigger] self.rows()[i]).message_id == message_id;
        self.rows()[i]@
    }

    /// An empty table.
    pub fn new() -> (r: MessageStore)
        ensures
            r.wf(),
            r.rows().len() == 0,
    {
        MessageStore { rows: Vec::new() }
    }

    /// Track a message on its first vote. A message already tracked stays
    /// untouched and `None` comes back; otherwise the fresh row — no
    /// forced starboards, not trashed, not frozen — is stored at its
    /// id-ordered place and returned.
    pub fn create(
        &mut self,
        message_id: i64,
        guild_id: i64,
        channel_id: i64,
        author_id: i64,
        is_nsfw: bool,
    ) -> (r: Option<DbMessage>)
        requires
            old(self).wf(),
        ensures
            final(self).wf(),
            r is Some <==> !old(self).has(message_id),
            r is None ==> *final(self) == *old(self),
            r is Some ==> (r->0)@ == (MessageRowModel {
                message_id,
                guild_id,
                channel_id,
                author_id,
                is_nsfw,
                forced_to: Seq::empty(),
                trashed: false,
                trash_reason: None,
                frozen: false,
            }) && final(self).rows().len() == old(self).rows().len() + 1 && final(self).row_model(
                message_id,
            ) == (r->0)@,
            final(self).has(message_id),
            forall|m: i64|
                m != message_id ==> ((#[trigger] final(self).has(m)) == old(self).has(m) && (old(
                    self,
                ).has(m) ==> final(self).row_model(m) == old(self).row_model(m))),
    {
        let ghost pre = *old(self);
        let mut i: usize = 0;
        while i < self.rows.len() && self.rows[i].message_id < message_id
            invariant
                old(self).wf(),
                *self == *old(self),
                i <= self.rows@.len(),
                forall|j: int| 0 <= j < i ==> (#[trigger] self.rows@[j]).message_id < message_id,
            decreases self.rows@.len() - i,
        {
            i += 1;
        }
        if i < self.rows.len() && self.rows[i].message_id == message_id {
            proof {
                assert((#[trigger] old(self).rows()[i as int]).message_id == message_id);
            }
            return None;
        }
        proof {
            // the rows are ascending, so no row at or after `i` carries
            // the id either
            assert forall|j: int|
                0 <= j < self.rows@.len() implies (#[trigger] self.rows@[j]).message_id
                != message_id by {
                if j >= i && j < self.rows@.len() && i < self.rows@.len() {
                    assert(self.rows@[i as int].message_id <= self.rows@[j].message_id);
                }
            }
        }
        let row = DbMessage {
            message_id,
            guild_id,
            channel_id,
            author_id,
            is_nsfw,
            forced_to: Vec::new(),
            trashed: false,
            trash_reason: None,
            frozen: false,
        };
        let copy = clone_db_message(&row);
        let ghost rowv = row;
        self.rows.insert(i, row);
        proof {
            pre.rows@.insert_ensures(i as int, rowv);
            assert(self.rows@ == pre.rows@.insert(i as int, rowv));
            assert((#[trigger] self.rows()[i as int]).message_id == message_id);
            assert forall|a: int, b: int|
                0 <= a < b < self.rows@.len() implies (#[trigger] self.rows@[a]).message_id < (
            #[trigger] self.rows@[b]).message_id by {
                if b < i {
                    assert(pre.rows@[a].message_id < pre.rows@[b].message_id);
                } else if a > i {
                    assert(pre.rows@[a - 1].message_id < pre.rows@[b - 1].message_id);
                } else if a < i && b == i {
                    assert(self.rows@[a].message_id < message_id);
                } else if a == i && b > i {
                    assert(pre.rows@[b - 1].message_id != message_id);
                    assert(pre.rows@[b - 1].message_id >= pre.rows@[i as int].message_id || b - 1
                        == i);
                    assert(pre.rows@[b - 1].message_id > message_id);
                } else if a < i && b > i {
                    assert(pre.rows@[a].message_id < pre.rows@[b - 1].message_id);
                }
            }
            let w = choose|w: int|
                0 <= w < self.rows().len() && (#[trigger] self.rows()[w]).message_id == message_id;
            assert(w == i as int);
            assert(final(self).row_model(message_id) == rowv@);
            assert(copy@ =~= (MessageRowModel {
                message_id,
                guild_id,
                channel_id,
                author_id,
                is_nsfw,
                forced_to: Seq::empty(),
                trashed: false,
                trash_reason: None,
                frozen: false,
            }));
            assert(rowv@ =~= copy@);
            assert forall|m: i64|
                m != message_id implies ((#[trigger] final(self).has(m)) == pre.has(m) && (pre.has(
                    m,
                ) ==> final(self).row_model(m) == pre.row_model(m))) by {
                if pre.has(m) {
                    let k = choose|k: int|
                        0 <= k < pre.rows().len() && (#[trigger] pre.rows()[k]).message_id == m;
                    if k < i {
                        assert((#[trigger] self.rows()[k]).message_id == m);
                    } else {
                        assert((#[trigger] self.rows()[k + 1]).message_id == m);
                    }
                    assert(final(self).has(m));
                    let w2 = choose|w2: int|
                        0 <= w2 < self.rows().len() && (#[trigger] self.rows()[w2]).message_id
                            == m;
                    if k < i {
                        assert(w2 == k);
                    } else {
                        assert(self.rows()[w2].message_id == self.rows()[k + 1].message_id);
                        assert(w2 == k + 1);
                    }
                    assert(final(self).row_model(m) == pre.rows()[k]@);
                    let w3 = choose|w3: int|
                        0 <= w3 < pre.rows().len() && (#[trigger] pre.rows()[w3]).message_id == m;
                    assert(w3 == k);
                }
                if final(self).has(m) {
                    let k = choose|k: int|
                        0 <= k < self.rows().len() && (#[trigger] self.rows()[k]).message_id == m;
                    assert(k != i);
                    if k < i {
                        assert((#[trigger] pre.rows()[k]).message_id == m);
                    } else {
                        assert((#[trigger] pre.rows()[k - 1]).message_id == m);
                    }
                    assert(pre.has(m));
                }
            }
        }
        Some(copy)
    }

    /// The row for a message id, if any.
    pub fn get(&self, message_id: i64) -> (r: Option<DbMessage>)
        requires
            self.wf(),
        ensures
            r is Some <==> self.has(message_id),
            r is Some ==> (r->0)@ == self.row_model(message_id) && (r->0).message_id == message_id,
    {
        let mut i: usize = 0;
        while i < self.rows.len()
            invariant
                self.wf(),
                i <= self.rows@.len(),
                forall|j: int| 0 <= j < i ==> (#[trigger] self.rows@[j]).message_id != message_id,
            decreases self.rows@.len() - i,
        {
            if self.rows[i].message_id == message_id {
                let copy = clone_db_message(&self.rows[i]);
                proof {
                    assert((#[trigger] self.rows()[i as int]).message_id == message_id);
                    let w = choose|w: int|
                        0 <= w < self.rows().len() && (#[trigger] self.rows()[w]).message_id
                            == message_id;
                    assert(w == i as int);
                }
                return Some(copy);
            }
            i += 1;
        }
        None
    }

    /// The original message a refresh should target: when the given id is
    /// itself a mirrored message, follow its post record back to the
    /// source; then look that message up.
    pub fn get_original(&self, posts: &PostStore, message_id: i64) -> (r: Option<DbMessage>)
        requires
            self.wf(),
        ensures
            !posts.has_mirror(message_id) ==> (r is Some <==> self.has(message_id)) && (r
                is Some ==> (r->0)@ == self.row_model(message_id)),
            posts.has_mirror(message_id) ==> exists|p: crate::posts::StarboardPost|
                {
                    &&& #[trigger] posts.rows().contains(p)
                    &&& p.starboard_message_id == message_id
                    &&& (r is Some <==> self.has(p.message_id))
                    &&& (r is Some ==> (r->0)@ == self.row_model(p.message_id))
                },
    {
        let orig = match posts.get(message_id) {
            Some(p) => p.message_id,
            None => message_id,
        };
        self.get(orig)
    }

    fn update_row(&mut self, i: usize, row: DbMessage)
        requires
            old(self).wf(),
            i < old(self).rows().len(),
            row.message_id == old(self).rows()[i as int].message_id,
        ensures
            final(self).wf(),
            final(self).rows() == old(self).rows().update(i as int, row),
    {
        let ghost pre = self.rows@;
        self.rows.remove(i);
        self.rows.insert(i, row);
        proof {
            assert(final(self).rows() =~= old(self).rows().update(i as int, row));
            assert forall|a: int, b: int|
                0 <= a < b < self.rows@.len() implies (#[trigger] self.rows@[a]).message_id != (
            #[trigger] self.rows@[b]).message_id by {
                assert(pre[a].message_id != pre[b].message_id);
            }
        }
    }

    /// Freeze or unfreeze a message. Returns the updated row, or `None`
    /// for an untracked message.
    pub fn set_freeze(&mut self, message_id: i64, frozen: bool) -> (r: Option<DbMessage>)
        requires
            old(self).wf(),
        ensures
            final(self).wf(),
            r is Some <==> old(self).has(message_id),
            r is None ==> *final(self) == *old(self),
            r is Some ==> (r->0)@ == (MessageRowModel {
                frozen,
                ..old(self).row_model(message_id)
            }) && exists|i: int|
                {
                    &&& 0 <= i < old(self).rows().len()
                    &&& (#[trigger] old(self).rows()[i]).message_id == message_id
                    &&& final(self).rows() =~= old(self).rows().update(
                        i,
                        final(self).rows()[i],
                    )
                    &&& final(self).rows()[i]@ == (r->0)@
                },
    {
        let mut i: usize = 0;
        while i < self.rows.len()
            invariant
                old(self).wf(),
                *self == *old(self),
                i <= self.rows@.len(),
                forall|j: int| 0 <= j < i ==> (#[trigger] self.rows@[j]).message_id != message_id,
            decreases self.rows@.len() - i,
        {
            if self.rows[i].message_id == message_id {
                let mut row = clone_db_message(&self.rows[i]);
                row.frozen = frozen;
                let copy = clone_db_message(&row);
                proof {
                    assert((#[trigger] self.rows()[i as int]).message_id == message_id);
                    let w = choose|w: int|
                        0 <= w < self.rows().len() && (#[trigger] self.rows()[w]).message_id
                            == message_id;
                    assert(w == i as int);
                    assert(row@ =~= (MessageRowModel { frozen, ..old(self).row_model(message_id) }));
                }
                self.update_row(i, row);
                return Some(copy);
            }
            i += 1;
        }
        None
    }

    /// Pin or unpin the message on a set of starboards. Returns the
    /// updated row, or `None` for an untracked message.
    pub fn set_forced(&mut self, message_id: i64, forced: &Vec<i32>) -> (r: Option<DbMessage>)
        requires
            old(self).wf(),
        ensures
            final(self).wf(),
            r is Some <==> old(self).has(message_id),
            r is None ==> *final(self) == *old(self),
            r is Some ==> (r->0)@ == (MessageRowModel {
                forced_to: forced@,
                ..old(self).row_model(message_id)
            }) && exists|i: int|
                {
                    &&& 0 <= i < old(self).rows().len()
                    &&& (#[trigger] old(self).rows()[i]).message_id == message_id
                    &&& final(self).rows() =~= old(self).rows().update(
                        i,
                        final(self).rows()[i],
                    )
                    &&& final(self).rows()[i]@ == (r->0)@
                },
    {
        let mut i: usize = 0;
        while i < self.rows.len()
            invariant
                old(self).wf(),
                *self == *old(self),
                i <= self.rows@.len(),
                forall|j: int| 0 <= j < i ==> (#[trigger] self.rows@[j]).message_id != message_id,
            decreases self.rows@.len() - i,
        {
            if self.rows[i].message_id == message_id {
                let mut row = clone_db_message(&self.rows[i]);
                row.forced_to = copy_id_vec(forced);
                let copy = clone_db_message(&row);
                proof {
                    assert((#[trigger] self.rows()[i as int]).message_id == message_id);
                    let w = choose|w: int|
                        0 <= w < self.rows().len() && (#[trigger] self.rows()[w]).message_id
                            == message_id;
                    assert(w == i as int);
                    assert(row@ =~= (MessageRowModel {
                        forced_to: forced@,
                        ..old(self).row_model(message_id)
                    }));
                }
                self.update_row(i, row);
                return Some(copy);
            }
            i += 1;
        }
        None
    }

    /// Trash or untrash a message, with the moderator's reason. Returns
    /// the updated row, or `None` for an untracked message.
    pub fn set_trashed(&mut self, message_id: i64, trashed: bool, reason: Option<String>) -> (r:
        Option<DbMessage>)
        requires
            old(self).wf(),
        ensures
            final(self).wf(),
            r is Some <==> old(self).has(message_id),
            r is None ==> *final(self) == *old(self),
            r is Some ==> (r->0)@ == (MessageRowModel {
                trashed,
                trash_reason: match reason {
                    Some(s) => Some(s@),
                    None => None,
                },
                ..old(self).row_model(message_id)
            }) && exists|i: int|
                {
                    &&& 0 <= i < old(self).rows().len()
                    &&& (#[trigger] old(self).rows()[i]).message_id == message_id
                    &&& final(self).rows() =~= old(self).rows().update(
                        i,
                        final(self).rows()[i],
                    )
                    &&& final(self).rows()[i]@ == (r->0)@
                },
    {
        let mut i: usize = 0;
        while i < self.rows.len()
            invariant
                old(self).wf(),
                *self == *old(self),
                i <= self.rows@.len(),
                forall|j: int| 0 <= j < i ==> (#[trigger] self.rows@[j]).message_id != message_id,
            decreases self.rows@.len() - i,
        {
            if self.rows[i].message_id == message_id {
                let mut row = clone_db_message(&self.rows[i]);
                row.trashed = trashed;
                row.trash_reason = reason;
                let copy = clone_db_message(&row);
                proof {
                    assert((#[trigger] self.rows()[i as int]).message_id == message_id);
                    let w = choose|w: int|
                        0 <= w < self.rows().len() && (#[trigger] self.rows()[w]).message_id
                            == message_id;
                    assert(w == i as int);
                    assert(row@ =~= (MessageRowModel {
                        trashed,
                        trash_reason: match reason {
                            Some(s) => Some(s@),
                            None => None,
                        },
                        ..old(self).row_model(message_id)
                    }));
                }
                self.update_row(i, row);
                return Some(copy);
            }
            i += 1;
        }
        None
    }

    /// The guild's trashed messages, ascending by message id.
    pub fn list_trashed(&self, guild_id: i64) -> (r: Vec<DbMessage>)
        requires
            self.wf(),
        ensures
            r@.len() == self.rows().filter(
                |m: DbMessage| m.guild_id == guild_id && m.trashed,
            ).len(),
            forall|j: int|
                0 <= j < r@.len() ==> (#[trigger] r@[j])@ == self.rows().filter(
                    |m: DbMessage| m.guild_id == guild_id && m.trashed,
                )[j]@,
            forall|a: int, b: int|
                0 <= a < b < r@.len() ==> (#[trigger] r@[a]).message_id < (
                #[trigger] r@[b]).message_id,
    {
        proof {
            lemma_filter_keeps_ascending_ids(
                self.rows@,
                |m: DbMessage| m.guild_id == guild_id && m.trashed,
            );
        }
        let ghost pred = |m: DbMessage| m.guild_id == guild_id && m.trashed;
        let mut r: Vec<DbMessage> = Vec::new();
        let mut i: usize = 0;
        proof {
            assert(self.rows@.subrange(0, 0) =~= Seq::<DbMessage>::empty());
            reveal_with_fuel(Seq::filter, 2);
        }
        while i < self.rows.len()
            invariant
                i <= self.rows@.len(),
                r@.len() == self.rows@.subrange(0, i as int).filter(
                    |m: DbMessage| m.guild_id == guild_id && m.trashed,
                ).len(),
                forall|j: int|
                    0 <= j < r@.len() ==> (#[trigger] r@[j])@ == self.rows@.subrange(
                        0,
                        i as int,
                    ).filter(|m: DbMessage| m.guild_id == guild_id && m.trashed)[j]@,
            decreases self.rows@.len() - i,
        {
            let ghost prefix = self.rows@.subrange(0, i as int);
            proof {
                reveal_with_fuel(Seq::filter, 2);
                assert(self.rows@.subrange(0, i + 1 as int) =~= prefix.push(
                    self.rows@[i as int],
                ));
                assert(prefix.push(self.rows@[i as int]).drop_last() =~= prefix);
            }
            let row = &self.rows[i];
            if row.trashed && row.guild_id == guild_id {
                r.push(clone_db_message(row));
            }
            i += 1;
        }
        proof {
            assert(self.rows@.subrange(0, self.rows@.len() as int) =~= self.rows@);
            let flt = self.rows@.filter(|m: DbMessage| m.guild_id == guild_id && m.trashed);
            assert forall|a: int, b: int|
                0 <= a < b < r@.len() implies (#[trigger] r@[a]).message_id < (
            #[trigger] r@[b]).message_id by {
                assert(r@[a]@ == flt[a]@ && r@[b]@ == flt[b]@);
                assert(flt[a].message_id < flt[b].message_id);
            }
        }
        r
    }
}

/// Elements of a filtered sequence come from the sequence that was
/// filtered.
proof fn lemma_row_filter_subset(s: Seq<DbMessage>, pred: spec_fn(DbMessage) -> bool, x: DbMessage)
    requires
        s.filter(pred).contains(x),
    ensures
        s.contains(x),
    decreases s.len(),
{
    reveal_with_fuel(Seq::filter, 2);
    if s.len() > 0 {
        if s.drop_last().filter(pred).contains(x) {
            lemma_row_filter_subset(s.drop_last(), pred, x);
            let j = choose|j: int| 0 <= j < s.drop_last().len() && s.drop_last()[j] == x;
            assert(s[j] == x);
        } else {
            assert(x == s.last());
            assert(s[s.len() - 1] == x);
        }
    }
}

/// A filter of a sequence whose message ids ascend keeps them ascending.
proof fn lemma_filter_keeps_ascending_ids(s: Seq<DbMessage>, pred: spec_fn(DbMessage) -> bool)
    requires
        forall|i: int, j: int|
            0 <= i < j < s.len() ==> (#[trigger] s[i]).message_id < (#[trigger] s[j]).message_id,
    ensures
        forall|a: int, b: int|
            0 <= a < b < s.filter(pred).len() ==> (#[trigger] s.filter(pred)[a]).message_id < (
            #[trigger] s.filter(pred)[b]).message_id,
    decreases s.len(),
{
    reveal_with_fuel(Seq::filter, 2);
    if s.len() > 0 {
        let d = s.drop_last();
        assert forall|i: int, j: int|
            0 <= i < j < d.len() implies (#[trigger] d[i]).message_id < (
        #[trigger] d[j]).message_id by {
            assert(s[i].message_id < s[j].message_id);
        }
        lemma_filter_keeps_ascending_ids(d, pred);
        if pred(s.last()) {
            let out = d.filter(pred).push(s.last());
            assert(s.filter(pred) == out);
            assert forall|a: int, b: int|
                0 <= a < b < out.len() implies (#[trigger] out[a]).message_id < (
            #[trigger] out[b]).message_id by {
                if b == out.len() - 1 {
                    assert(d.filter(pred).contains(out[a]));
                    lemma_row_filter_subset(d, pred, out[a]);
                    let k = choose|k: int| 0 <= k < d.len() && d[k] == out[a];
                    assert(s[k].message_id < s.last().message_id || k == s.len() - 1);
                    assert(k < s.len() - 1);
                } else {
                    assert(d.filter(pred)[a].message_id < d.filter(pred)[b].message_id);
                }
            }
        }
    }
}

} // verus!
