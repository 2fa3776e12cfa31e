//! Premium expiry: a background pass atomically finds and clears lapsed
//! premium grants, tries to auto-redeem stored credit from eligible
//! members (stopping at the first success), and stores the guild's new
//! premium gate for the config resolver.

use vstd::prelude::*;

verus! {

/// A guild's premium state.
#[derive(Clone, Copy, PartialEq, Eq, Structural)]
pub struct GuildPremium {
    pub guild_id: i64,
    /// When the current premium grant ends, if one is active.
    pub premium_end: Option<i64>,
    /// What the config resolver reads: premium features are on.
    pub premium_gate: bool,
}

/// A member's stored premium credit.
#[derive(Clone, Copy, Debug, PartialEq, Eq, Structural)]
pub struct MemberCredit {
    pub user_id: i64,
    /// Months of premium credit the member holds.
    pub credits: u32,
    /// Whether the member opted into automatic redemption.
    pub autoredeem_enabled: bool,
}

/// Whether a guild's grant has lapsed at time `now`.
pub open spec fn is_expired(g: GuildPremium, now: i64) -> bool {
    g.premium_end is Some && g.premium_end->0 < now
}

/// The same guild with its grant cleared.
pub open spec fn cleared(g: GuildPremium) -> GuildPremium {
    GuildPremium { premium_end: None, ..g }
}

/// Every lapsed grant cleared.
pub open spec fn clear_expired(rows: Seq<GuildPremium>, now: i64) -> Seq<GuildPremium> {
    rows.map_values(
        |g: GuildPremium|
            if is_expired(g, now) {
                cleared(g)
            } else {
                g
            },
    )
}

/// The ids of the guilds whose grant lapses at time `now`, in row order.
pub open spec fn expired_ids(rows: Seq<GuildPremium>, now: i64) -> Seq<i64>
    decreases rows.len(),
{
    if rows.len() == 0 {
        Seq::empty()
    } else {
        (if is_expired(rows[0], now) {
            seq![rows[0].guild_id]
        } else {
            Seq::empty()
        }) + expired_ids(rows.subrange(1, rows.len() as int), now)
    }
}

/// An id is listed exactly when some row with that id has lapsed.
pub proof fn lemma_expired_ids_membership(rows: Seq<GuildPremium>, now: i64, id: i64)
    ensures
        expired_ids(rows, now).contains(id) <==> exists|j: int|
            0 <= j < rows.len() && (#[trigger] rows[j]).guild_id == id && is_expired(rows[j], now),
    decreases rows.len(),
{
    if rows.len() > 0 {
        let tail = rows.subrange(1, rows.len() as int);
        lemma_expired_ids_membership(tail, now, id);
        if expired_ids(rows, now).contains(id) {
            if is_expired(rows[0], now) && rows[0].guild_id == id {
            } else {
                assert(expired_ids(tail, now).contains(id));
                let j = choose|j: int|
                    0 <= j < tail.len() && (#[trigger] tail[j]).guild_id == id && is_expired(
                        tail[j],
                        now,
                    );
                assert(rows[j + 1].guild_id == id && is_expired(rows[j + 1], now));
            }
        }
        if exists|j: int|
            0 <= j < rows.len() && (#[trigger] rows[j]).guild_id == id && is_expired(
                rows[j],
                now,
            ) {
            let j = choose|j: int|
                0 <= j < rows.len() && (#[trigger] rows[j]).guild_id == id && is_expired(
                    rows[j],
                    now,
                );
            if j == 0 {
                assert(expired_ids(rows, now)[0] == id);
            } else {
                assert(tail[j - 1].guild_id == id && is_expired(tail[j - 1], now));
                assert(expired_ids(tail, now).contains(id));
                let k = choose|k: int|
                    0 <= k < expired_ids(tail, now).len() && expired_ids(tail, now)[k] == id;
                let head: Seq<i64> = if is_expired(rows[0], now) {
                    seq![rows[0].guild_id]
                } else {
                    Seq::empty()
                };
                assert(expired_ids(rows, now) == head + expired_ids(tail, now));
                assert(expired_ids(rows, now)[head.len() + k] == id);
                assert(expired_ids(rows, now).contains(id));
            }
        }
    }
}

/// The table of guild premium rows.
pub struct GuildTable {
    rows: Vec<GuildPremium>,
}

impl GuildTable {
    /// The stored rows.
    pub closed spec fn rows(self) -> Seq<GuildPremium> {
        self.rows@
    }

    /// Well-formed: one row per guild. Established by [`GuildTable::new`]
    /// and preserved by every operation.
    pub closed spec fn wf(self) -> bool {
        forall|i: int, j: int|
            0 <= i < j < self.rows@.len() ==> (#[trigger] self.rows@[i]).guild_id != (
            #[trigger] self.rows@[j]).guild_id
    }

    /// An empty table.
    pub fn new() -> (r: GuildTable)
        ensures
            r.wf(),
            r.rows().len() == 0,
    {
        GuildTable { rows: Vec::new() }
    }

    /// A well-formed table holds one row per guild; exported so that
    /// callers can feed [`lemma_expired_cleared_once`] from a table value.
    pub proof fn lemma_rows_one_per_guild(self)
        requires
            self.wf(),
        ensures
            forall|i: int, j: int|
                0 <= i < j < self.rows().len() ==> (#[trigger] self.rows()[i]).guild_id != (
                #[trigger] self.rows()[j]).guild_id,
    {
    }

    /// Add or replace a guild's row.
    pub fn upsert(&mut self, g: GuildPremium)
        requires
            old(self).wf(),
        ensures
            final(self).wf(),
            final(self).rows().len() <= old(self).rows().len() + 1,
            exists|j: int| 0 <= j < final(self).rows().len() && (#[trigger] final(self).rows()[j])
                == g,
            forall|j: int|
                0 <= j < final(self).rows().len() && (#[trigger] final(self).rows()[j]).guild_id
                    != g.guild_id ==> old(self).rows().contains(final(self).rows()[j]),
    {
        let mut i: usize = 0;
        while i < self.rows.len()
            invariant
                self.wf(),
                self.rows@ == old(self).rows@,
                i <= self.rows@.len(),
                forall|j: int| 0 <= j < i ==> (#[trigger] self.rows@[j]).guild_id != g.guild_id,
            decreases self.rows@.len() - i,
        {
            if self.rows[i].guild_id == g.guild_id {
                self.rows.set(i, g);
                proof {
                    assert(final(self).rows()[i as int] == g);
                }
                return ;
            }
            i += 1;
        }
        let ghost pre = self.rows@;
        self.rows.push(g);
        proof {
            assert(final(self).rows()[pre.len() as int] == g);
            assert forall|j: int|
                0 <= j < final(self).rows().len() && (#[trigger] final(self).rows()[j]).guild_id
                    != g.guild_id implies old(self).rows().contains(final(self).rows()[j]) by {
                assert(j < pre.len());
                assert(pre[j] == final(self).rows()[j]);
            }
        }
    }

    /// A guild's row, if any.
    pub fn get(&self, guild_id: i64) -> (r: Option<GuildPremium>)
        ensures
            match r {
                Some(g) => self.rows().contains(g) && g.guild_id == guild_id,
                None => forall|j: int|
                    0 <= j < self.rows().len() ==> (#[trigger] self.rows()[j]).guild_id
                        != guild_id,
            },
    {
        let mut i: usize = 0;
        while i < self.rows.len()
            invariant
                i <= self.rows@.len(),
                forall|j: int| 0 <= j < i ==> (#[trigger] self.rows@[j]).guild_id != guild_id,
            decreases self.rows@.len() - i,
        {
            let g = self.rows[i];
            if g.guild_id == guild_id {
                proof {
                    assert(self.rows@.contains(g));
                }
                return Some(g);
            }
            i += 1;
        }
        None
    }

    /// One expiry pass at time `now`: atomically clear every lapsed grant
    /// and return the ids of the guilds cleared, each exactly once.
    pub fn expire_pass(&mut self, now: i64) -> (r: Vec<i64>)
        requires
            old(self).wf(),
        ensures
            final(self).wf(),
            final(self).rows() == clear_expired(old(self).rows(), now),
            r@ == expired_ids(old(self).rows(), now),
            // each cleared guild is listed exactly once
            forall|a: int, b: int| 0 <= a < b < r@.len() ==> r@[a] != r@[b],
    {
        let ghost orig = self.rows@;
        let mut r: Vec<i64> = Vec::new();
        let mut i: usize = 0;
        proof {
            assert(orig.subrange(0, orig.len() as int) =~= orig);
        }
        while i < self.rows.len()
            invariant
                self.rows@.len() == orig.len(),
                i <= orig.len(),
                forall|j: int| i <= j < orig.len() ==> (#[trigger] self.rows@[j]) == orig[j],
                forall|j: int|
                    0 <= j < i ==> (#[trigger] self.rows@[j]) == (if is_expired(orig[j], now) {
                        cleared(orig[j])
                    } else {
                        orig[j]
                    }),
                expired_ids(orig, now) == r@ + expired_ids(
                    orig.subrange(i as int, orig.len() as int),
                    now,
                ),
            decreases orig.len() - i,
        {
            let ghost tail = orig.subrange(i as int, orig.len() as int);
            let g = self.rows[i];
            proof {
                assert(tail[0] == orig[i as int]);
                assert(tail.subrange(1, tail.len() as int) =~= orig.subrange(
                    i + 1 as int,
                    orig.len() as int,
                ));
            }
            if g.premium_end.is_some() && g.premium_end.unwrap() < now {
                self.rows.set(i, GuildPremium { premium_end: None, ..g });
                r.push(g.guild_id);
                proof {
                    assert(r@ =~= r@.subrange(0, r@.len() - 1).push(g.guild_id));
                    assert((seq![orig[i as int].guild_id] + expired_ids(
                        orig.subrange(i + 1 as int, orig.len() as int),
                        now,
                    )) =~= seq![orig[i as int].guild_id] + expired_ids(
                        orig.subrange(i + 1 as int, orig.len() as int),
                        now,
                    ));
                    assert(expired_ids(tail, now) =~= seq![orig[i as int].guild_id]
                        + expired_ids(orig.subrange(i + 1 as int, orig.len() as int), now));
                    assert(r@ + expired_ids(orig.subrange(i + 1 as int, orig.len() as int), now)
                        =~= r@.subrange(0, r@.len() - 1) + expired_ids(tail, now));
                }
            } else {
                proof {
                    assert(expired_ids(tail, now) =~= expired_ids(
                        orig.subrange(i + 1 as int, orig.len() as int),
                        now,
                    ));
                }
            }
            i += 1;
        }
        proof {
            assert(expired_ids(orig.subrange(orig.len() as int, orig.len() as int), now)
                =~= Seq::<i64>::empty());
            assert(r@ =~= expired_ids(orig, now));
            assert(self.rows@ =~= clear_expired(orig, now));
            assert forall|a: int, b: int| 0 <= a < b < r@.len() implies r@[a] != r@[b] by {
                lemma_expired_listed_once(orig, now, a, b);
            }
        }
        r
    }
}

/// In a table with one row per guild, the expired-id list has no
/// duplicates.
proof fn lemma_expired_listed_once(rows: Seq<GuildPremium>, now: i64, a: int, b: int)
    requires
        forall|i: int, j: int|
            0 <= i < j < rows.len() ==> (#[trigger] rows[i]).guild_id != (
            #[trigger] rows[j]).guild_id,
        0 <= a < b < expired_ids(rows, now).len(),
    ensures
        expired_ids(rows, now)[a] != expired_ids(rows, now)[b],
    decreases rows.len(),
{
    if rows.len() > 0 {
        let tail = rows.subrange(1, rows.len() as int);
        if is_expired(rows[0], now) {
            if a == 0 {
                let id = rows[0].guild_id;
                let idb = expired_ids(rows, now)[b];
                assert(expired_ids(tail, now)[b - 1] == idb);
                assert(expired_ids(tail, now).contains(idb));
                lemma_expired_ids_membership(tail, now, idb);
                let j = choose|j: int|
                    0 <= j < tail.len() && (#[trigger] tail[j]).guild_id == idb && is_expired(
                        tail[j],
                        now,
                    );
                assert(rows[j + 1].guild_id == idb);
                assert(rows[0].guild_id != rows[j + 1].guild_id);
            } else {
                lemma_expired_listed_once(tail, now, a - 1, b - 1);
            }
        } else {
            lemma_expired_listed_once(tail, now, a, b);
        }
    }
}

/// Whether a member's credit can be auto-redeemed.
pub open spec fn redeemable(m: MemberCredit) -> bool {
    m.autoredeem_enabled && m.credits >= 1
}

/// Try to auto-redeem one month of credit for a lapsed guild: walk the
/// members in order and redeem from the first eligible one, taking one
/// credit; stop there. Returns the member charged, if any.
pub fn auto_redeem(members: &mut Vec<MemberCredit>) -> (r: Option<i64>)
    ensures
        match r {
            Some(uid) => exists|k: int|
                {
                    &&& 0 <= k < old(members)@.len()
                    &&& redeemable(#[trigger] old(members)@[k])
                    &&& forall|j: int| 0 <= j < k ==> !redeemable(#[trigger] old(members)@[j])
                    &&& uid == old(members)@[k].user_id
                    &&& final(members)@ == old(members)@.update(
                        k,
                        MemberCredit {
                            credits: (old(members)@[k].credits - 1) as u32,
                            ..old(members)@[k]
                        },
                    )
                },
            None => (forall|j: int|
                0 <= j < old(members)@.len() ==> !redeemable(#[trigger] old(members)@[j]))
                && final(members)@ == old(members)@,
        },
        r is Some <==> exists|j: int|
            0 <= j < old(members)@.len() && redeemable(#[trigger] old(members)@[j]),
{
    let mut i: usize = 0;
    while i < members.len()
        invariant
            members@ == old(members)@,
            i <= members@.len(),
            forall|j: int| 0 <= j < i ==> !redeemable(#[trigger] members@[j]),
        decreases members@.len() - i,
    {
        let m = members[i];
        if m.autoredeem_enabled && m.credits >= 1 {
            members.set(i, MemberCredit { credits: m.credits - 1, ..m });
            return Some(m.user_id);
        }
        i += 1;
    }
    None
}

/// Handle one lapsed guild: attempt auto-redemption — walking the members
/// in order and charging the first eligible one a single credit, touching
/// nobody else — and return the guild's new premium gate: `true` exactly
/// when some member's credit was redeemed, `false` when none could be.
pub fn process_expired_guild(members: &mut Vec<MemberCredit>) -> (premium: bool)
    ensures
        premium == exists|j: int|
            0 <= j < old(members)@.len() && redeemable(#[trigger] old(members)@[j]),
        premium ==> exists|k: int|
            {
                &&& 0 <= k < old(members)@.len()
                &&& redeemable(#[trigger] old(members)@[k])
                &&& forall|j: int| 0 <= j < k ==> !redeemable(#[trigger] old(members)@[j])
                &&& final(members)@ == old(members)@.update(
                    k,
                    MemberCredit {
                        credits: (old(members)@[k].credits - 1) as u32,
                        ..old(members)@[k]
                    },
                )
            },
        !premium ==> final(members)@ == old(members)@,
{
    auto_redeem(members).is_some()
}

/// Law: one expiry pass clears a lapsed guild exactly once — it appears
/// once in the pass's result, and a second pass (at the same or any later
/// time) does not list it again, because its grant is already cleared.
pub proof fn lemma_expired_cleared_once(rows: Seq<GuildPremium>, now: i64, now2: i64, id: i64)
    requires
        forall|i: int, j: int|
            0 <= i < j < rows.len() ==> (#[trigger] rows[i]).guild_id != (
            #[trigger] rows[j]).guild_id,
        expired_ids(rows, now).contains(id),
    ensures
        !expired_ids(clear_expired(rows, now), now2).contains(id),
{
    lemma_expired_ids_membership(rows, now, id);
    let after = clear_expired(rows, now);
    lemma_expired_ids_membership(after, now2, id);
    let j = choose|j: int|
        0 <= j < rows.len() && (#[trigger] rows[j]).guild_id == id && is_expired(rows[j], now);
    if expired_ids(after, now2).contains(id) {
        let k = choose|k: int|
            0 <= k < after.len() && (#[trigger] after[k]).guild_id == id && is_expired(
                after[k],
                now2,
            );
        assert(after[k].guild_id == rows[k].guild_id);
        assert(k == j);
        assert(after[j] == cleared(rows[j]));
        assert(!is_expired(after[j], now2));
    }
}

} // verus!
