//! Filter groups: named, ordered lists of conditions that gate whether a
//! message can appear on a starboard. A message passes when every filter of
//! every attached group passes; a message with no attached groups passes
//! trivially.

use vstd::prelude::*;

use crate::messages::MessageFacts;

verus! {

/// One condition over the decision facts.
#[derive(Clone, Copy, PartialEq, Eq, Structural)]
pub enum FilterRule {
    /// The author must not be a bot.
    AuthorIsHuman,
    /// The author must be a bot.
    AuthorIsBot,
    /// The message must carry a displayable image.
    HasImage,
    /// The source channel must not be age-restricted.
    NotNsfw,
    /// The message must be at least this many seconds old.
    AgeAtLeast(i64),
    /// The message must be at most this many seconds old.
    AgeAtMost(i64),
}

/// Whether one rule passes for the given facts.
pub open spec fn rule_passes(rule: FilterRule, f: MessageFacts) -> bool {
    match rule {
        FilterRule::AuthorIsHuman => !f.author_is_bot,
        FilterRule::AuthorIsBot => f.author_is_bot,
        FilterRule::HasImage => f.has_image,
        FilterRule::NotNsfw => !f.is_nsfw,
        FilterRule::AgeAtLeast(s) => f.age_seconds >= s,
        FilterRule::AgeAtMost(s) => f.age_seconds <= s,
    }
}

/// One filter inside a group, addressed by position.
#[derive(Clone, Copy, PartialEq, Eq, Structural)]
pub struct Filter {
    /// Surrogate id; unique across all filters.
    pub id: i32,
    pub filter_group_id: i32,
    /// One-based position inside the group; positions are renumbered on
    /// insert and delete.
    pub position: i16,
    pub rule: FilterRule,
}

/// A named, ordered filter list.
pub struct FilterGroup {
    /// Surrogate id; unique across all groups.
    pub id: i32,
    pub guild_id: i64,
    pub name: String,
    /// The group's filters, held in position order.
    pub filters: Vec<Filter>,
}

/// The link attaching a filter group to a starboard.
#[derive(Clone, Copy, Debug, PartialEq, Eq, Structural)]
pub struct StarboardFilterGroup {
    pub filter_group_id: i32,
    pub starboard_id: i32,
}

/// The table of group-to-starboard links; one link per pair.
pub struct StarboardFilterGroupStore {
    rows: Vec<StarboardFilterGroup>,
}

impl StarboardFilterGroupStore {
    /// The stored links.
    pub closed spec fn rows(self) -> Seq<StarboardFilterGroup> {
        self.rows@
    }

    /// Well-formed: one link per (group, starboard) pair. Established by
    /// [`StarboardFilterGroupStore::new`] and preserved by every
    /// operation.
    pub closed spec fn wf(self) -> bool {
        forall|i: int, j: int|
            0 <= i < j < self.rows@.len() ==> ((#[trigger] self.rows@[i]).filter_group_id != (
            #[trigger] self.rows@[j]).filter_group_id || self.rows@[i].starboard_id
                != self.rows@[j].starboard_id)
    }

    /// Whether the pair is linked.
    pub open spec fn has(self, filter_group_id: i32, starboard_id: i32) -> bool {
        exists|i: int|
            0 <= i < self.rows().len() && (#[trigger] self.rows()[i]).filter_group_id
                == filter_group_id && self.rows()[i].starboard_id == starboard_id
    }

    /// An empty table.
    pub fn new() -> (r: StarboardFilterGroupStore)
        ensures
            r.wf(),
            r.rows().len() == 0,
    {
        StarboardFilterGroupStore { rows: Vec::new() }
    }

    fn index_of(&self, filter_group_id: i32, starboard_id: i32) -> (r: Option<usize>)
        ensures
            match r {
                Some(i) => i < self.rows().len() && self.rows()[i as int].filter_group_id
                    == filter_group_id && self.rows()[i as int].starboard_id == starboard_id
                    && self.has(filter_group_id, starboard_id),
                None => !self.has(filter_group_id, starboard_id),
            },
    {
        let mut i: usize = 0;
        while i < self.rows.len()
            invariant
                i <= self.rows@.len(),
                forall|j: int|
                    0 <= j < i ==> ((#[trigger] self.rows@[j]).filter_group_id != filter_group_id
                        || self.rows@[j].starboard_id != starboard_id),
            decreases self.rows@.len() - i,
        {
            if self.rows[i].filter_group_id == filter_group_id && self.rows[i].starboard_id
                == starboard_id {
                proof {
                    assert((#[trigger] self.rows()[i as int]).filter_group_id == filter_group_id);
                }
                return Some(i);
            }
            i += 1;
        }
        None
    }

    /// Attach a group to a starboard. An existing link stays untouched and
    /// `None` comes back.
    pub fn create(&mut self, filter_group_id: i32, starboard_id: i32) -> (r: Option<
        StarboardFilterGroup,
    >)
        requires
            old(self).wf(),
        ensures
            final(self).wf(),
            r is Some <==> !old(self).has(filter_group_id, starboard_id),
            r is None ==> *final(self) == *old(self),
            r is Some ==> r->0 == (StarboardFilterGroup { filter_group_id, starboard_id }) && final(self).rows() == old(self).rows().push(r->0),
            final(self).has(filter_group_id, starboard_id),
    {
        match self.index_of(filter_group_id, starboard_id) {
            Some(_) => None,
            None => {
                let row = StarboardFilterGroup { filter_group_id, starboard_id };
                self.rows.push(row);
                proof {
                    assert((#[trigger] final(self).rows()[old(self).rows().len() as int])
                        == row);
                    assert forall|a: int, b: int|
                        0 <= a < b < self.rows@.len() implies ((
                    #[trigger] self.rows@[a]).filter_group_id != (
                    #[trigger] self.rows@[b]).filter_group_id || self.rows@[a].starboard_id
                        != self.rows@[b].starboard_id) by {
                        if b == self.rows@.len() - 1 {
                            assert(old(self).rows()[a].filter_group_id != filter_group_id || old(self).rows()[a].starboard_id != starboard_id);
                        }
                    }
                }
                Some(row)
            },
        }
    }

    /// Detach a group from a starboard, returning the removed link, or
    /// `None` when there was none.
    pub fn delete(&mut self, filter_group_id: i32, starboard_id: i32) -> (r: Option<
        StarboardFilterGroup,
    >)
        requires
            old(self).wf(),
        ensures
            final(self).wf(),
            r is Some <==> old(self).has(filter_group_id, starboard_id),
            r is None ==> *final(self) == *old(self),
            !final(self).has(filter_group_id, starboard_id),
            r is Some ==> exists|i: int|
                0 <= i < old(self).rows().len() && (#[trigger] old(self).rows()[i]) == r->0
                    && final(self).rows() == old(self).rows().remove(i),
    {
        match self.index_of(filter_group_id, starboard_id) {
            None => {
                proof {
                    assert forall|j: int|
                        0 <= j < self.rows@.len() implies ((
                    #[trigger] self.rows@[j]).filter_group_id != filter_group_id
                        || self.rows@[j].starboard_id != starboard_id) by {
                        if self.rows@[j].filter_group_id == filter_group_id
                            && self.rows@[j].starboard_id == starboard_id {
                            assert((#[trigger] self.rows()[j]).filter_group_id
                                == filter_group_id);
                        }
                    }
                }
                None
            },
            Some(i) => {
                let row = self.rows[i];
                let ghost pre = self.rows@;
                self.rows.remove(i);
                proof {
                    pre.remove_ensures(i as int);
                    assert((#[trigger] old(self).rows()[i as int]) == row);
                    assert forall|j: int|
                        0 <= j < self.rows@.len() implies ((
                    #[trigger] self.rows@[j]).filter_group_id != filter_group_id
                        || self.rows@[j].starboard_id != starboard_id) by {
                        if j < i {
                            assert(self.rows@[j] == pre[j]);
                        } else {
                            assert(self.rows@[j] == pre[j + 1]);
                        }
                    }
                }
                Some(row)
            },
        }
    }

    /// The groups attached to a starboard, in store order.
    pub fn list_by_starboard(&self, starboard_id: i32) -> (r: Vec<StarboardFilterGroup>)
        ensures
            r@ == self.rows().filter(|g: StarboardFilterGroup| g.starboard_id == starboard_id),
    {
        let mut r: Vec<StarboardFilterGroup> = Vec::new();
        let mut i: usize = 0;
        proof {
            assert(self.rows@.subrange(0, 0) =~= Seq::<StarboardFilterGroup>::empty());
        }
        while i < self.rows.len()
            invariant
                i <= self.rows@.len(),
                r@ =~= self.rows@.subrange(0, i as int).filter(
                    |g: StarboardFilterGroup| g.starboard_id == starboard_id,
                ),
            decreases self.rows@.len() - i,
        {
            let ghost prefix = self.rows@.subrange(0, i as int);
            proof {
                reveal_with_fuel(Seq::filter, 2);
                assert(self.rows@.subrange(0, i + 1 as int) =~= prefix.push(self.rows@[i as int]));
                assert(prefix.push(self.rows@[i as int]).drop_last() =~= prefix);
            }
            let row = self.rows[i];
            if row.starboard_id == starboard_id {
                r.push(row);
            }
            i += 1;
        }
        proof {
            assert(self.rows@.subrange(0, self.rows@.len() as int) =~= self.rows@);
        }
        r
    }
}

/// Whether every filter of one group passes.
pub open spec fn group_passes(g: FilterGroup, f: MessageFacts) -> bool {
    forall|j: int| 0 <= j < g.filters@.len() ==> rule_passes(#[trigger] g.filters@[j].rule, f)
}

/// Whether every attached group passes; no groups pass trivially.
pub open spec fn all_groups_pass(gs: Seq<FilterGroup>, f: MessageFacts) -> bool {
    forall|i: int| 0 <= i < gs.len() ==> group_passes(#[trigger] gs[i], f)
}

/// Evaluate one rule.
pub fn eval_rule(rule: &FilterRule, f: &MessageFacts) -> (r: bool)
    ensures
        r == rule_passes(*rule, *f),
{
    match rule {
        FilterRule::AuthorIsHuman => !f.author_is_bot,
        FilterRule::AuthorIsBot => f.author_is_bot,
        FilterRule::HasImage => f.has_image,
        FilterRule::NotNsfw => !f.is_nsfw,
        FilterRule::AgeAtLeast(s) => f.age_seconds >= *s,
        FilterRule::AgeAtMost(s) => f.age_seconds <= *s,
    }
}

/// Evaluate one group: all of its filters must pass.
pub fn eval_group(g: &FilterGroup, f: &MessageFacts) -> (r: bool)
    ensures
        r == group_passes(*g, *f),
{
    let mut j: usize = 0;
    while j < g.filters.len()
        invariant
            j <= g.filters.len(),
            forall|k: int| 0 <= k < j ==> rule_passes(#[trigger] g.filters@[k].rule, *f),
        decreases g.filters.len() - j,
    {
        if !eval_rule(&g.filters[j].rule, f) {
            return false;
        }
        j += 1;
    }
    true
}

/// Evaluate every attached group.
pub fn eval_groups(gs: &Vec<FilterGroup>, f: &MessageFacts) -> (r: bool)
    ensures
        r == all_groups_pass(gs@, *f),
{
    let mut i: usize = 0;
    while i < gs.len()
        invariant
            i <= gs.len(),
            forall|k: int| 0 <= k < i ==> group_passes(#[trigger] gs@[k], *f),
        decreases gs.len() - i,
    {
        if !eval_group(&gs[i], f) {
            return false;
        }
        i += 1;
    }
    true
}

/// Shift the positions of every filter at or after `from` by one, making
/// room to insert a filter at `from`. Positions are capped well below the
/// i16 range by the per-group filter limit, stated here as a bound.
pub fn shift_positions(filters: &mut Vec<Filter>, from: i16)
    requires
        forall|i: int| 0 <= i < old(filters)@.len() ==> (#[trigger] old(filters)@[i].position)
            < i16::MAX,
    ensures
        final(filters)@.len() == old(filters)@.len(),
        forall|i: int|
            0 <= i < old(filters)@.len() && old(filters)@[i].position >= from ==> (
            #[trigger] final(filters)@[i]) == (Filter {
                position: (old(filters)@[i].position + 1) as i16,
                ..old(filters)@[i]
            }),
        forall|i: int|
            0 <= i < old(filters)@.len() && old(filters)@[i].position < from ==> (
            #[trigger] final(filters)@[i]) == old(filters)@[i],
{
    let mut i: usize = 0;
    while i < filters.len()
        invariant
            i <= filters.len(),
            filters@.len() == old(filters)@.len(),
            forall|k: int| i <= k < filters@.len() ==> (#[trigger] filters@[k]) == old(
                filters,
            )@[k],
            forall|k: int| 0 <= k < old(filters)@.len() ==> (#[trigger] old(filters)@[k].position)
                < i16::MAX,
            forall|k: int|
                0 <= k < i && old(filters)@[k].position >= from ==> (#[trigger] filters@[k])
                    == (Filter { position: (old(filters)@[k].position + 1) as i16, ..old(
                    filters,
                )@[k] }),
            forall|k: int|
                0 <= k < i && old(filters)@[k].position < from ==> (#[trigger] filters@[k]) == old(
                    filters,
                )@[k],
        decreases filters.len() - i,
    {
        let f = filters[i];
        if f.position >= from {
            let updated = Filter { position: f.position + 1, ..f };
            filters.set(i, updated);
        }
        i += 1;
    }
}

/// The position one past the last filter of a group: where a filter lands
/// when no position was asked for.
pub fn last_position(filters: &Vec<Filter>) -> (r: i16)
    requires
        forall|i: int| 0 <= i < filters@.len() ==> 0 <= (#[trigger] filters@[i].position),
    ensures
        forall|i: int| 0 <= i < filters@.len() ==> (#[trigger] filters@[i].position) <= r,
        r == 0 || exists|i: int|
            0 <= i < filters@.len() && (#[trigger] filters@[i].position) == r,
{
    let mut best: i16 = 0;
    let mut i: usize = 0;
    while i < filters.len()
        invariant
            i <= filters.len(),
            0 <= best,
            forall|k: int| 0 <= k < i ==> (#[trigger] filters@[k].position) <= best,
            best == 0 || exists|k: int|
                0 <= k < i && (#[trigger] filters@[k].position) == best,
        decreases filters.len() - i,
    {
        if filters[i].position > best {
            best = filters[i].position;
        }
        i += 1;
    }
    best
}

} // verus!
