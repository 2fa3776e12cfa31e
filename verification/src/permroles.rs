//! Permission roles: per-role voting permissions, globally and per
//! starboard. A per-starboard row whose fields are all unset is dropped
//! rather than stored.

use vstd::prelude::*;

verus! {

/// A role's global permission settings; `None` means "no opinion".
#[derive(Clone, Copy, PartialEq, Eq, Structural)]
pub struct PermRole {
    pub role_id: i64,
    pub guild_id: i64,
    pub obtain_xproles: Option<bool>,
    pub give_votes: Option<bool>,
    pub receive_votes: Option<bool>,
}

/// A role's permission settings for one starboard.
#[derive(Clone, Copy, PartialEq, Eq, Structural)]
pub struct PermRoleStarboard {
    pub permrole_id: i64,
    pub starboard_id: i32,
    pub give_votes: Option<bool>,
    pub receive_votes: Option<bool>,
}

impl PermRoleStarboard {
    /// A per-starboard row with no opinion on anything carries no
    /// information: an update with both fields unset deletes the row
    /// instead of storing it.
    pub fn is_empty(&self) -> (r: bool)
        ensures
            r == (self.give_votes is None && self.receive_votes is None),
    {
        self.give_votes.is_none() && self.receive_votes.is_none()
    }
}

/// The table of permission roles.
pub struct PermRoleStore {
    rows: Vec<PermRole>,
}

impl PermRoleStore {
    /// The stored rows.
    pub closed spec fn rows(self) -> Seq<PermRole> {
        self.rows@
    }

    /// Well-formed: one row per role. Established by
    /// [`PermRoleStore::new`] and preserved by every operation.
    pub closed spec fn wf(self) -> bool {
        forall|i: int, j: int|
            0 <= i < j < self.rows@.len() ==> (#[trigger] self.rows@[i]).role_id != (
            #[trigger] self.rows@[j]).role_id
    }

    /// Whether a row exists for the role.
    pub open spec fn has(self, role_id: i64) -> bool {
        exists|i: int|
            0 <= i < self.rows().len() && (#[trigger] self.rows()[i]).role_id == role_id
    }

    /// An empty table.
    pub fn new() -> (r: PermRoleStore)
        ensures
            r.wf(),
            r.rows().len() == 0,
    {
        PermRoleStore { rows: Vec::new() }
    }

    /// Add a role with no opinions set. The caller must not add a role
    /// twice.
    pub fn create(&mut self, role_id: i64, guild_id: i64) -> (r: PermRole)
        requires
            old(self).wf(),
            !old(self).has(role_id),
        ensures
            final(self).wf(),
            r == (PermRole {
                role_id,
                guild_id,
                obtain_xproles: None,
                give_votes: None,
                receive_votes: None,
            }),
            final(self).rows() == old(self).rows().push(r),
    {
        let row = PermRole {
            role_id,
            guild_id,
            obtain_xproles: None,
            give_votes: None,
            receive_votes: None,
        };
        self.rows.push(row);
        row
    }

    /// Remove a role's row, returning it, or `None` when there is none.
    pub fn delete(&mut self, role_id: i64) -> (r: Option<PermRole>)
        requires
            old(self).wf(),
        ensures
            final(self).wf(),
            r is Some <==> old(self).has(role_id),
            r is None ==> *final(self) == *old(self),
            !final(self).has(role_id),
            r is Some ==> (r->0).role_id == role_id && exists|i: int|
                0 <= i < old(self).rows().len() && (#[trigger] old(self).rows()[i]) == r->0
                    && final(self).rows() == old(self).rows().remove(i),
    {
        let mut i: usize = 0;
        while i < self.rows.len()
            invariant
                old(self).wf(),
                *self == *old(self),
                i <= self.rows@.len(),
                forall|j: int| 0 <= j < i ==> (#[trigger] self.rows@[j]).role_id != role_id,
            decreases self.rows@.len() - i,
        {
            let row = self.rows[i];
            if row.role_id == role_id {
                let ghost pre = self.rows@;
                self.rows.remove(i);
                proof {
                    pre.remove_ensures(i as int);
                    assert((#[trigger] old(self).rows()[i as int]) == row);
                    assert forall|j: int|
                        0 <= j < self.rows@.len() implies (#[trigger] self.rows@[j]).role_id
                        != role_id by {
                        if j < i {
                            assert(self.rows@[j] == pre[j]);
                        } else {
                            assert(self.rows@[j] == pre[j + 1]);
                        }
                    }
                }
                return Some(row);
            }
            i += 1;
        }
        proof {
            assert forall|j: int|
                0 <= j < self.rows@.len() implies (#[trigger] self.rows@[j]).role_id
                != role_id by {}
        }
        None
    }

    /// Store a role's settings over its existing row. Returns the row as
    /// stored, or `None` when the role is untracked.
    pub fn update(&mut self, row: PermRole) -> (r: Option<PermRole>)
        requires
            old(self).wf(),
        ensures
            final(self).wf(),
            r is Some <==> old(self).has(row.role_id),
            r is None ==> *final(self) == *old(self),
            r is Some ==> r->0 == row && exists|i: int|
                0 <= i < old(self).rows().len() && (#[trigger] old(self).rows()[i]).role_id
                    == row.role_id && final(self).rows() == old(self).rows().update(i, row),
    {
        let mut i: usize = 0;
        while i < self.rows.len()
            invariant
                old(self).wf(),
                *self == *old(self),
                i <= self.rows@.len(),
                forall|j: int| 0 <= j < i ==> (#[trigger] self.rows@[j]).role_id != row.role_id,
            decreases self.rows@.len() - i,
        {
            if self.rows[i].role_id == row.role_id {
                proof {
                    assert((#[trigger] old(self).rows()[i as int]).role_id == row.role_id);
                }
                self.rows.set(i, row);
                proof {
                    assert forall|a: int, b: int|
                        0 <= a < b < self.rows@.len() implies (#[trigger] self.rows@[a]).role_id
                        != (#[trigger] self.rows@[b]).role_id by {
                        assert(old(self).rows@[a].role_id != old(self).rows@[b].role_id);
                    }
                }
                return Some(row);
            }
            i += 1;
        }
        None
    }

    /// A role's row, if any.
    pub fn get(&self, role_id: i64) -> (r: Option<PermRole>)
        requires
            self.wf(),
        ensures
            r is Some <==> self.has(role_id),
            r is Some ==> self.rows().contains(r->0) && (r->0).role_id == role_id,
    {
        let mut i: usize = 0;
        while i < self.rows.len()
            invariant
                i <= self.rows@.len(),
                forall|j: int| 0 <= j < i ==> (#[trigger] self.rows@[j]).role_id != role_id,
            decreases self.rows@.len() - i,
        {
            let row = self.rows[i];
            if row.role_id == role_id {
                proof {
                    assert(self.rows@.contains(row));
                    assert((#[trigger] self.rows()[i as int]).role_id == role_id);
                }
                return Some(row);
            }
            i += 1;
        }
        None
    }

    /// The guild's roles, in store order.
    pub fn list_by_guild(&self, guild_id: i64) -> (r: Vec<PermRole>)
        ensures
            r@ == self.rows().filter(|p: PermRole| p.guild_id == guild_id),
    {
        let mut r: Vec<PermRole> = Vec::new();
        let mut i: usize = 0;
        proof {
            assert(self.rows@.subrange(0, 0) =~= Seq::<PermRole>::empty());
        }
        while i < self.rows.len()
            invariant
                i <= self.rows@.len(),
                r@ =~= self.rows@.subrange(0, i as int).filter(
                    |p: PermRole| p.guild_id == guild_id,
                ),
            decreases self.rows@.len() - i,
        {
            let ghost prefix = self.rows@.subrange(0, i as int);
            proof {
                reveal_with_fuel(Seq::filter, 2);
                assert(self.rows@.subrange(0, i + 1 as int) =~= prefix.push(self.rows@[i as int]));
                assert(prefix.push(self.rows@[i as int]).drop_last() =~= prefix);
            }
            let row = self.rows[i];
            if row.guild_id == guild_id {
                r.push(row);
            }
            i += 1;
        }
        proof {
            assert(self.rows@.subrange(0, self.rows@.len() as int) =~= self.rows@);
        }
        r
    }
}

/// The table of per-starboard permission rows.
pub struct PermRoleStarboardStore {
    rows: Vec<PermRoleStarboard>,
}

impl PermRoleStarboardStore {
    /// The stored rows.
    pub closed spec fn rows(self) -> Seq<PermRoleStarboard> {
        self.rows@
    }

    /// Well-formed: one row per (role, starboard). Established by
    /// [`PermRoleStarboardStore::new`] and preserved by every operation.
    pub closed spec fn wf(self) -> bool {
        forall|i: int, j: int|
            0 <= i < j < self.rows@.len() ==> ((#[trigger] self.rows@[i]).permrole_id != (
            #[trigger] self.rows@[j]).permrole_id || self.rows@[i].starboard_id
                != self.rows@[j].starboard_id)
    }

    /// Whether a row exists for the pair.
    pub open spec fn has(self, permrole_id: i64, starboard_id: i32) -> bool {
        exists|i: int|
            0 <= i < self.rows().len() && (#[trigger] self.rows()[i]).permrole_id == permrole_id
                && self.rows()[i].starboard_id == starboard_id
    }

    /// An empty table.
    pub fn new() -> (r: PermRoleStarboardStore)
        ensures
            r.wf(),
            r.rows().len() == 0,
    {
        PermRoleStarboardStore { rows: Vec::new() }
    }

    fn index_of(&self, permrole_id: i64, starboard_id: i32) -> (r: Option<usize>)
        ensures
            match r {
                Some(i) => i < self.rows().len() && self.rows()[i as int].permrole_id
                    == permrole_id && self.rows()[i as int].starboard_id == starboard_id
                    && self.has(permrole_id, starboard_id),
                None => !self.has(permrole_id, starboard_id),
            },
    {
        let mut i: usize = 0;
        while i < self.rows.len()
            invariant
                i <= self.rows@.len(),
                forall|j: int|
                    0 <= j < i ==> ((#[trigger] self.rows@[j]).permrole_id != permrole_id
                        || self.rows@[j].starboard_id != starboard_id),
            decreases self.rows@.len() - i,
        {
            if self.rows[i].permrole_id == permrole_id && self.rows[i].starboard_id
                == starboard_id {
                proof {
                    assert((#[trigger] self.rows()[i as int]).permrole_id == permrole_id);
                }
                return Some(i);
            }
            i += 1;
        }
        None
    }

    /// Add a row for the pair with no opinions set. A pair already present
    /// stays untouched and `None` comes back.
    pub fn create(&mut self, permrole_id: i64, starboard_id: i32) -> (r: Option<PermRoleStarboard>)
        requires
            old(self).wf(),
        ensures
            final(self).wf(),
            r is Some <==> !old(self).has(permrole_id, starboard_id),
            r is None ==> *final(self) == *old(self),
            r is Some ==> r->0 == (PermRoleStarboard {
                permrole_id,
                starboard_id,
                give_votes: None,
                receive_votes: None,
            }) && final(self).rows() == old(self).rows().push(r->0),
    {
        match self.index_of(permrole_id, starboard_id) {
            Some(_) => None,
            None => {
                let row = PermRoleStarboard {
                    permrole_id,
                    starboard_id,
                    give_votes: None,
                    receive_votes: None,
                };
                self.rows.push(row);
                proof {
                    assert forall|a: int, b: int|
                        0 <= a < b < self.rows@.len() implies ((
                    #[trigger] self.rows@[a]).permrole_id != (
                    #[trigger] self.rows@[b]).permrole_id || self.rows@[a].starboard_id
                        != self.rows@[b].starboard_id) by {
                        if b == self.rows@.len() - 1 {
                            assert(old(self).rows()[a].permrole_id != permrole_id || old(
                                self,
                            ).rows()[a].starboard_id != starboard_id);
                        }
                    }
                }
                Some(row)
            },
        }
    }

    /// Remove the pair's row, returning it, or `None` when there is none.
    pub fn delete(&mut self, permrole_id: i64, starboard_id: i32) -> (r: Option<PermRoleStarboard>)
        requires
            old(self).wf(),
        ensures
            final(self).wf(),
            r is Some <==> old(self).has(permrole_id, starboard_id),
            r is None ==> *final(self) == *old(self),
            !final(self).has(permrole_id, starboard_id),
            r is Some ==> (r->0).permrole_id == permrole_id && (r->0).starboard_id == starboard_id
                && exists|i: int|
                0 <= i < old(self).rows().len() && (#[trigger] old(self).rows()[i]) == r->0
                    && final(self).rows() == old(self).rows().remove(i),
    {
        match self.index_of(permrole_id, starboard_id) {
            None => {
                proof {
                    assert forall|j: int|
                        0 <= j < self.rows@.len() implies ((#[trigger] self.rows@[j]).permrole_id
                        != permrole_id || self.rows@[j].starboard_id != starboard_id) by {
                        assert(!self.has(permrole_id, starboard_id));
                        if self.rows@[j].permrole_id == permrole_id && self.rows@[j].starboard_id
                            == starboard_id {
                            assert((#[trigger] self.rows()[j]).permrole_id == permrole_id);
                        }
                    }
                }
                None
            },
            Some(i) => {
                let row = self.rows[i];
                let ghost pre = self.rows@;
                self.rows.remove(i);
                proof {
                    pre.remove_ensures(i as int);
                    assert((#[trigger] old(self).rows()[i as int]) == row);
                    assert forall|j: int|
                        0 <= j < self.rows@.len() implies ((#[trigger] self.rows@[j]).permrole_id
                        != permrole_id || self.rows@[j].starboard_id != starboard_id) by {
                        if j < i {
                            assert(self.rows@[j] == pre[j]);
                        } else {
                            assert(self.rows@[j] == pre[j + 1]);
                        }
                    }
                }
                Some(row)
            },
        }
    }

    /// Store the pair's settings: a row with no opinions left is deleted
    /// instead of stored; otherwise the existing row is replaced. Returns
    /// the row as it ended up, or `None` when the pair was untracked (or
    /// the empty update deleted nothing).
    pub fn update(&mut self, row: PermRoleStarboard) -> (r: Option<PermRoleStarboard>)
        requires
            old(self).wf(),
        ensures
            final(self).wf(),
            (row.give_votes is None && row.receive_votes is None) ==> !final(self).has(
                row.permrole_id,
                row.starboard_id,
            ),
            !(row.give_votes is None && row.receive_votes is None) ==> {
                &&& r is Some <==> old(self).has(row.permrole_id, row.starboard_id)
                &&& (r is Some ==> r->0 == row && exists|i: int|
                    0 <= i < old(self).rows().len() && (#[trigger] old(self).rows()[i]).permrole_id
                        == row.permrole_id && old(self).rows()[i].starboard_id == row.starboard_id
                        && final(self).rows() == old(self).rows().update(i, row))
                &&& (r is None ==> *final(self) == *old(self))
            },
    {
        if row.is_empty() {
            return self.delete(row.permrole_id, row.starboard_id);
        }
        match self.index_of(row.permrole_id, row.starboard_id) {
            None => None,
            Some(i) => {
                proof {
                    assert((#[trigger] old(self).rows()[i as int]).permrole_id == row.permrole_id);
                }
                self.rows.set(i, row);
                proof {
                    assert forall|a: int, b: int|
                        0 <= a < b < self.rows@.len() implies ((
                    #[trigger] self.rows@[a]).permrole_id != (
                    #[trigger] self.rows@[b]).permrole_id || self.rows@[a].starboard_id
                        != self.rows@[b].starboard_id) by {
                        assert(old(self).rows@[a].permrole_id != old(self).rows@[b].permrole_id
                            || old(self).rows@[a].starboard_id != old(
                            self,
                        ).rows@[b].starboard_id);
                    }
                }
                Some(row)
            },
        }
    }

    /// The pair's row, if any.
    pub fn get(&self, permrole_id: i64, starboard_id: i32) -> (r: Option<PermRoleStarboard>)
        ensures
            r is Some <==> self.has(permrole_id, starboard_id),
            r is Some ==> self.rows().contains(r->0) && (r->0).permrole_id == permrole_id && (
            r->0).starboard_id == starboard_id,
    {
        match self.index_of(permrole_id, starboard_id) {
            Some(i) => {
                let row = self.rows[i];
                proof {
                    assert(self.rows@.contains(row));
                }
                Some(row)
            },
            None => None,
        }
    }

    /// A role's per-starboard rows, in store order.
    pub fn list_by_permrole(&self, permrole_id: i64) -> (r: Vec<PermRoleStarboard>)
        ensures
            r@ == self.rows().filter(|p: PermRoleStarboard| p.permrole_id == permrole_id),
    {
        let mut r: Vec<PermRoleStarboard> = Vec::new();
        let mut i: usize = 0;
        proof {
            assert(self.rows@.subrange(0, 0) =~= Seq::<PermRoleStarboard>::empty());
        }
        while i < self.rows.len()
            invariant
                i <= self.rows@.len(),
                r@ =~= self.rows@.subrange(0, i as int).filter(
                    |p: PermRoleStarboard| p.permrole_id == permrole_id,
                ),
            decreases self.rows@.len() - i,
        {
            let ghost prefix = self.rows@.subrange(0, i as int);
            proof {
                reveal_with_fuel(Seq::filter, 2);
                assert(self.rows@.subrange(0, i + 1 as int) =~= prefix.push(self.rows@[i as int]));
                assert(prefix.push(self.rows@[i as int]).drop_last() =~= prefix);
            }
            let row = self.rows[i];
            if row.permrole_id == permrole_id {
                r.push(row);
            }
            i += 1;
        }
        proof {
            assert(self.rows@.subrange(0, self.rows@.len() as int) =~= self.rows@);
        }
        r
    }
}

} // verus!
