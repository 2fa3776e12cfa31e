//! Channel-scoped override records: a named settings patch attached to a
//! starboard, applying to a set of channels or categories; and the table
//! that stores them. Override names are unique per guild; ids are unique
//! across the table.

use vstd::prelude::*;

use crate::settings::{OverrideValues, OverrideValuesModel};
use crate::util::{clone_opt_string, clone_string_vec};

verus! {

/// How many channels one override may list.
pub const MAX_CHANNELS_PER_OVERRIDE: usize = 2;

/// A stored override: a named, channel-scoped settings patch for one
/// starboard.
pub struct StarboardOverride {
    /// Surrogate id; unique across all overrides.
    pub id: i32,
    pub guild_id: i64,
    /// Unique per guild.
    pub name: String,
    /// The starboard this override belongs to.
    pub starboard_id: i32,
    /// Channels (or parent categories) the override affects.
    pub channel_ids: Vec<i64>,
    /// The sparse settings deltas.
    pub overrides: OverrideValues,
}

/// Spec-level value of a stored override.
#[verifier::ext_equal]
pub struct OverrideRowModel {
    pub id: i32,
    pub guild_id: i64,
    pub name: Seq<char>,
    pub starboard_id: i32,
    pub channel_ids: Seq<i64>,
    pub overrides: OverrideValuesModel,
}

impl View for StarboardOverride {
    type V = OverrideRowModel;

    open spec fn view(&self) -> OverrideRowModel {
        OverrideRowModel {
            id: self.id,
            guild_id: self.guild_id,
            name: self.name@,
            starboard_id: self.starboard_id,
            channel_ids: self.channel_ids@,
            overrides: self.overrides@,
        }
    }
}

/// Copy a patch, preserving the view.
pub fn clone_override_values(v: &OverrideValues) -> (r: OverrideValues)
    ensures
        r@ == v@,
{
    let r = OverrideValues {
        enabled: v.enabled,
        required: v.required,
        required_remove: v.required_remove,
        upvote_emojis: match &v.upvote_emojis {
            Some(e) => Some(clone_string_vec(e)),
            None => None,
        },
        downvote_emojis: match &v.downvote_emojis {
            Some(e) => Some(clone_string_vec(e)),
            None => None,
        },
        autoreact_upvote: v.autoreact_upvote,
        autoreact_downvote: v.autoreact_downvote,
        self_vote: v.self_vote,
        allow_bots: v.allow_bots,
        require_image: v.require_image,
        older_than: v.older_than,
        newer_than: v.newer_than,
        matches: clone_opt_string(&v.matches),
        not_matches: clone_opt_string(&v.not_matches),
    };
    proof {
        assert(r@ =~= v@);
    }
    r
}

/// Copy a vector of channel ids.
pub fn copy_channel_vec(v: &Vec<i64>) -> (r: Vec<i64>)
    ensures
        r@ == v@,
{
    let mut r: Vec<i64> = Vec::new();
    let mut i: usize = 0;
    while i < v.len()
        invariant
            i <= v.len(),
            r@ =~= v@.subrange(0, i as int),
        decreases v.len() - i,
    {
        r.push(v[i]);
        proof {
            assert(r@ =~= v@.subrange(0, i + 1 as int));
        }
        i += 1;
    }
    proof {
        assert(v@.subrange(0, v.len() as int) =~= v@);
    }
    r
}

/// Copy an override row, preserving the view.
pub fn clone_override(o: &StarboardOverride) -> (r: StarboardOverride)
    ensures
        r@ == o@,
{
    let r = StarboardOverride {
        id: o.id,
        guild_id: o.guild_id,
        name: o.name.clone(),
        starboard_id: o.starboard_id,
        channel_ids: copy_channel_vec(&o.channel_ids),
        overrides: clone_override_values(&o.overrides),
    };
    proof {
        assert(r@ =~= o@);
    }
    r
}

impl StarboardOverride {
    /// Reject a channel list that is over the limit; the error text is shown
    /// to the user as-is.
    pub fn validate_channels(channel_ids: &[i64]) -> (r: Result<(), String>)
        ensures
            r is Ok <==> channel_ids@.len() <= MAX_CHANNELS_PER_OVERRIDE,
    {
        if channel_ids.len() > MAX_CHANNELS_PER_OVERRIDE {
            Err(String::from_str(
                "You can only have up to 2 channels per override.\nTip: You can override the settings for an entire category if you include its ID.",
            ))
        } else {
            Ok(())
        }
    }

    /// The override's settings patch.
    pub fn get_overrides(&self) -> (r: OverrideValues)
        ensures
            r@ == self.overrides@,
    {
        clone_override_values(&self.overrides)
    }
}

/// Whether two channel lists share an id.
pub open spec fn channels_overlap_model(a: Seq<i64>, b: Seq<i64>) -> bool {
    exists|i: int| 0 <= i < a.len() && b.contains(#[trigger] a[i])
}

/// Whether two channel lists share an id.
pub fn channels_overlap(a: &Vec<i64>, b: &Vec<i64>) -> (r: bool)
    ensures
        r == channels_overlap_model(a@, b@),
{
    let mut i: usize = 0;
    while i < a.len()
        invariant
            i <= a.len(),
            forall|j: int| 0 <= j < i ==> !b@.contains(#[trigger] a@[j]),
        decreases a.len() - i,
    {
        let mut k: usize = 0;
        while k < b.len()
            invariant
                k <= b.len(),
                i < a.len(),
                forall|j: int| 0 <= j < k ==> b@[j] != a@[i as int],
            decreases b.len() - k,
        {
            if b[k] == a[i] {
                proof {
                    assert(b@.contains(a@[i as int]));
                }
                return true;
            }
            k += 1;
        }
        i += 1;
    }
    false
}

/// Renaming an override can fail two ways: the override may not exist, or
/// the new name may already be taken in the guild.
#[derive(Clone, Copy, Debug, PartialEq, Eq, Structural)]
pub enum RenameOutcome {
    Renamed,
    NoSuchOverride,
    NameTaken,
}

/// The table of overrides.
pub struct OverrideStore {
    rows: Vec<StarboardOverride>,
}

impl OverrideStore {
    /// The stored rows.
    pub closed spec fn rows(self) -> Seq<StarboardOverride> {
        self.rows@
    }

    /// Well-formed: ids are unique, and names are unique per guild.
    /// Established by [`OverrideStore::new`] and preserved by every
    /// operation.
    pub closed spec fn wf(self) -> bool {
        forall|i: int, j: int|
            0 <= i < j < self.rows@.len() ==> (#[trigger] self.rows@[i]).id != (
            #[trigger] self.rows@[j]).id && ((self.rows@[i]).guild_id != (self.rows@[j]).guild_id
                || (self.rows@[i]).name@ != (self.rows@[j]).name@)
    }

    /// Whether a row with this name exists in the guild.
    pub open spec fn has_name(self, guild_id: i64, name: Seq<char>) -> bool {
        exists|i: int|
            0 <= i < self.rows().len() && (#[trigger] self.rows()[i]).guild_id == guild_id
                && self.rows()[i].name@ == name
    }

    /// Whether a row with this id exists.
    pub open spec fn has_id(self, id: i32) -> bool {
        exists|i: int| 0 <= i < self.rows().len() && (#[trigger] self.rows()[i]).id == id
    }

    /// The row with this name in the guild.
    pub closed spec fn row_by_name(self, guild_id: i64, name: Seq<char>) -> OverrideRowModel
        recommends
            self.has_name(guild_id, name),
    {
        let i = choose|i: int|
            0 <= i < self.rows().len() && (#[trigger] self.rows()[i]).guild_id == guild_id
                && self.rows()[i].name@ == name;
        self.rows()[i]@
    }

    /// An empty table.
    pub fn new() -> (r: OverrideStore)
        ensures
            r.wf(),
            r.rows().len() == 0,
    {
        OverrideStore { rows: Vec::new() }
    }

    fn index_by_name(&self, guild_id: i64, name: &String) -> (r: Option<usize>)
        requires
            self.wf(),
        ensures
            match r {
                Some(i) => i < self.rows().len() && self.rows()[i as int].guild_id == guild_id
                    && self.rows()[i as int].name@ == name@ && self.has_name(guild_id, name@)
                    && self.rows()[i as int]@ == self.row_by_name(guild_id, name@),
                None => !self.has_name(guild_id, name@),
            },
    {
        let mut i: usize = 0;
        while i < self.rows.len()
            invariant
                self.wf(),
                i <= self.rows@.len(),
                forall|j: int|
                    0 <= j < i ==> ((#[trigger] self.rows@[j]).guild_id != guild_id
                        || self.rows@[j].name@ != name@),
            decreases self.rows@.len() - i,
        {
            if self.rows[i].guild_id == guild_id && self.rows[i].name == *name {
                proof {
                    assert((#[trigger] self.rows()[i as int]).guild_id == guild_id);
                    let w = choose|w: int|
                        0 <= w < self.rows().len() && (#[trigger] self.rows()[w]).guild_id
                            == guild_id && self.rows()[w].name@ == name@;
                    assert(w == i as int);
                }
                return Some(i);
            }
            i += 1;
        }
        None
    }

    /// Create an override with empty settings. A name already used in the
    /// guild leaves the table untouched and returns `None`.
    pub fn create(&mut self, id: i32, guild_id: i64, name: &String, starboard_id: i32) -> (r:
        Option<StarboardOverride>)
        requires
            old(self).wf(),
            !old(self).has_id(id),
        ensures
            final(self).wf(),
            r is Some <==> !old(self).has_name(guild_id, name@),
            r is None ==> *final(self) == *old(self),
            r is Some ==> (r->0)@ == (OverrideRowModel {
                id,
                guild_id,
                name: name@,
                starboard_id,
                channel_ids: Seq::empty(),
                overrides: crate::settings::empty_patch(),
            }) && final(self).rows().len() == old(self).rows().len() + 1 && final(self).rows()[old(self).rows().len() as int]@ == (r->0)@ && final(self).rows().subrange(
                0,
                old(self).rows().len() as int,
            ) == old(self).rows() && final(self).has_name(guild_id, name@) && final(self).row_by_name(guild_id, name@) == (r->0)@,
    {
        match self.index_by_name(guild_id, name) {
            Some(_) => None,
            None => {
                let row = StarboardOverride {
                    id,
                    guild_id,
                    name: name.clone(),
                    starboard_id,
                    channel_ids: Vec::new(),
                    overrides: OverrideValues::empty(),
                };
                let copy = clone_override(&row);
                proof {
                    assert(copy@ =~= (OverrideRowModel {
                        id,
                        guild_id,
                        name: name@,
                        starboard_id,
                        channel_ids: Seq::empty(),
                        overrides: crate::settings::empty_patch(),
                    }));
                }
                self.rows.push(row);
                proof {
                    assert(final(self).rows().subrange(0, old(self).rows().len() as int) =~= old(self).rows());
                    assert forall|a: int, b: int|
                        0 <= a < b < self.rows@.len() implies (#[trigger] self.rows@[a]).id != (
                    #[trigger] self.rows@[b]).id && ((self.rows@[a]).guild_id
                        != (self.rows@[b]).guild_id || (self.rows@[a]).name@
                        != (self.rows@[b]).name@) by {
                        if b == self.rows@.len() - 1 {
                            assert(old(self).rows().contains(old(self).rows()[a]));
                        }
                    }
                    let n = old(self).rows().len() as int;
                    assert((#[trigger] self.rows()[n]).guild_id == guild_id && self.rows()[n].name@
                        == name@);
                    let w = choose|w: int|
                        0 <= w < self.rows().len() && (#[trigger] self.rows()[w]).guild_id
                            == guild_id && self.rows()[w].name@ == name@;
                    assert(w == n);
                }
                Some(copy)
            },
        }
    }

    /// Delete the override with this name in the guild, returning the
    /// deleted row, or `None` when there is none.
    pub fn delete(&mut self, guild_id: i64, name: &String) -> (r: Option<StarboardOverride>)
        requires
            old(self).wf(),
        ensures
            final(self).wf(),
            r is Some <==> old(self).has_name(guild_id, name@),
            r is None ==> *final(self) == *old(self),
            r is Some ==> (r->0)@ == old(self).row_by_name(guild_id, name@) && !final(self).has_name(guild_id, name@) && exists|i: int|
                0 <= i < old(self).rows().len() && (#[trigger] old(self).rows()[i])@ == (r->0)@
                    && final(self).rows() == old(self).rows().remove(i),
    {
        match self.index_by_name(guild_id, name) {
            Some(i) => {
                let copy = clone_override(&self.rows[i]);
                let ghost pre = self.rows@;
                self.rows.remove(i);
                proof {
                    pre.remove_ensures(i as int);
                    assert(final(self).rows() == old(self).rows().remove(i as int));
                    assert((#[trigger] old(self).rows()[i as int])@ == copy@);
                    assert forall|j: int|
                        0 <= j < self.rows@.len() implies ((#[trigger] self.rows@[j]).guild_id
                        != guild_id || self.rows@[j].name@ != name@) by {
                        if j < i {
                            assert(self.rows@[j] == pre[j]);
                        } else {
                            assert(self.rows@[j] == pre[j + 1]);
                        }
                    }
                }
                Some(copy)
            },
            None => None,
        }
    }

    /// Rename an override. Fails when no override carries the old name, or
    /// when the new name is already taken in the guild.
    pub fn rename(&mut self, guild_id: i64, old_name: &String, new_name: &String) -> (r:
        RenameOutcome)
        requires
            old(self).wf(),
        ensures
            final(self).wf(),
            r == RenameOutcome::NoSuchOverride <==> !old(self).has_name(guild_id, old_name@),
            r == RenameOutcome::NameTaken <==> (old(self).has_name(guild_id, old_name@) && old(self).has_name(guild_id, new_name@) && old_name@ != new_name@),
            r != RenameOutcome::Renamed ==> *final(self) == *old(self),
            r == RenameOutcome::Renamed ==> final(self).has_name(guild_id, new_name@) && final(self).row_by_name(guild_id, new_name@) == (OverrideRowModel {
                name: new_name@,
                ..old(self).row_by_name(guild_id, old_name@)
            }),
    {
        if *old_name == *new_name {
            // renaming to the same name: succeeds exactly when the row
            // exists, and changes nothing observable
            match self.index_by_name(guild_id, old_name) {
                Some(_) => {
                    return RenameOutcome::Renamed;
                },
                None => {
                    return RenameOutcome::NoSuchOverride;
                },
            }
        }
        let has_new = self.index_by_name(guild_id, new_name);
        match self.index_by_name(guild_id, old_name) {
            None => RenameOutcome::NoSuchOverride,
            Some(i) => {
                match has_new {
                    Some(_) => RenameOutcome::NameTaken,
                    None => {
                        let mut row = clone_override(&self.rows[i]);
                        row.name = new_name.clone();
                        let ghost pre = self.rows@;
                        let ghost newrow = row;
                        self.rows.remove(i);
                        self.rows.insert(i, row);
                        proof {
                            assert(self.rows@ =~= pre.update(i as int, newrow));
                            assert(final(self).rows()[i as int].name@ == new_name@);
                            assert(final(self).has_name(guild_id, new_name@));
                            let w = choose|w: int|
                                0 <= w < self.rows().len() && (
                                #[trigger] self.rows()[w]).guild_id == guild_id
                                    && self.rows()[w].name@ == new_name@;
                            assert forall|a: int, b: int|
                                0 <= a < b < self.rows@.len() implies (
                            #[trigger] self.rows@[a]).id != (#[trigger] self.rows@[b]).id && ((
                            self.rows@[a]).guild_id != (self.rows@[b]).guild_id || (
                            self.rows@[a]).name@ != (self.rows@[b]).name@) by {
                                assert(pre[a].id != pre[b].id);
                                assert((pre[a]).guild_id != (pre[b]).guild_id || (pre[a]).name@
                                    != (pre[b]).name@);
                            }
                            assert(w == i as int);
                        }
                        RenameOutcome::Renamed
                    },
                }
            },
        }
    }

    /// Replace the channel list of the named override. Returns the updated
    /// row, or `None` when there is none.
    pub fn set_channels(&mut self, guild_id: i64, name: &String, channel_ids: &Vec<i64>) -> (r:
        Option<StarboardOverride>)
        requires
            old(self).wf(),
        ensures
            final(self).wf(),
            r is Some <==> old(self).has_name(guild_id, name@),
            r is None ==> *final(self) == *old(self),
            r is Some ==> (r->0)@ == (OverrideRowModel {
                channel_ids: channel_ids@,
                ..old(self).row_by_name(guild_id, name@)
            }) && final(self).has_name(guild_id, name@) && final(self).row_by_name(guild_id, name@)
                == (r->0)@,
    {
        match self.index_by_name(guild_id, name) {
            None => None,
            Some(i) => {
                let mut row = clone_override(&self.rows[i]);
                row.channel_ids = copy_channel_vec(channel_ids);
                let copy = clone_override(&row);
                let ghost pre = self.rows@;
                let ghost newrow = row;
                self.rows.remove(i);
                self.rows.insert(i, row);
                proof {
                    assert(self.rows@ =~= pre.update(i as int, newrow));
                    assert forall|a: int, b: int|
                        0 <= a < b < self.rows@.len() implies (#[trigger] self.rows@[a]).id != (
                    #[trigger] self.rows@[b]).id && ((self.rows@[a]).guild_id
                        != (self.rows@[b]).guild_id || (self.rows@[a]).name@
                        != (self.rows@[b]).name@) by {
                        assert(pre[a].id != pre[b].id);
                        assert((pre[a]).guild_id != (pre[b]).guild_id || (pre[a]).name@
                            != (pre[b]).name@);
                    }
                    assert(final(self).rows()[i as int].name@ == name@);
                    assert(final(self).has_name(guild_id, name@));
                    let w = choose|w: int|
                        0 <= w < self.rows().len() && (#[trigger] self.rows()[w]).guild_id
                            == guild_id && self.rows()[w].name@ == name@;
                    assert(w == i as int);
                }
                Some(copy)
            },
        }
    }

    /// Replace the settings patch of the named override. Returns the
    /// updated row, or `None` when there is none.
    pub fn update_settings_by_name(
        &mut self,
        guild_id: i64,
        name: &String,
        settings: OverrideValues,
    ) -> (r: Option<StarboardOverride>)
        requires
            old(self).wf(),
        ensures
            final(self).wf(),
            r is Some <==> old(self).has_name(guild_id, name@),
            r is None ==> *final(self) == *old(self),
            r is Some ==> (r->0)@ == (OverrideRowModel {
                overrides: settings@,
                ..old(self).row_by_name(guild_id, name@)
            }) && final(self).has_name(guild_id, name@) && final(self).row_by_name(guild_id, name@)
                == (r->0)@,
    {
        match self.index_by_name(guild_id, name) {
            None => None,
            Some(i) => {
                let mut row = clone_override(&self.rows[i]);
                row.overrides = settings;
                let copy = clone_override(&row);
                let ghost pre = self.rows@;
                let ghost newrow = row;
                self.rows.remove(i);
                self.rows.insert(i, row);
                proof {
                    assert(self.rows@ =~= pre.update(i as int, newrow));
                    assert forall|a: int, b: int|
                        0 <= a < b < self.rows@.len() implies (#[trigger] self.rows@[a]).id != (
                    #[trigger] self.rows@[b]).id && ((self.rows@[a]).guild_id
                        != (self.rows@[b]).guild_id || (self.rows@[a]).name@
                        != (self.rows@[b]).name@) by {
                        assert(pre[a].id != pre[b].id);
                        assert((pre[a]).guild_id != (pre[b]).guild_id || (pre[a]).name@
                            != (pre[b]).name@);
                    }
                    assert(final(self).rows()[i as int].name@ == name@);
                    assert(final(self).has_name(guild_id, name@));
                    let w = choose|w: int|
                        0 <= w < self.rows().len() && (#[trigger] self.rows()[w]).guild_id
                            == guild_id && self.rows()[w].name@ == name@;
                    assert(w == i as int);
                }
                Some(copy)
            },
        }
    }

    /// Replace the settings patch of the override with this id. Returns
    /// the updated row, or `None` when there is none.
    pub fn update_settings(&mut self, id: i32, settings: OverrideValues) -> (r: Option<
        StarboardOverride,
    >)
        requires
            old(self).wf(),
        ensures
            final(self).wf(),
            r is Some <==> old(self).has_id(id),
            r is None ==> *final(self) == *old(self),
            r is Some ==> exists|i: int|
                {
                    &&& 0 <= i < old(self).rows().len()
                    &&& (#[trigger] old(self).rows()[i]).id == id
                    &&& (r->0)@ == (OverrideRowModel {
                        overrides: settings@,
                        ..old(self).rows()[i]@
                    })
                    &&& final(self).rows() =~= old(self).rows().update(
                        i,
                        final(self).rows()[i],
                    )
                    &&& final(self).rows()[i]@ == (r->0)@
                },
    {
        let mut i: usize = 0;
        while i < self.rows.len()
            invariant
                old(self).wf(),
                *self == *old(self),
                i <= self.rows@.len(),
                forall|j: int| 0 <= j < i ==> (#[trigger] self.rows@[j]).id != id,
            decreases self.rows@.len() - i,
        {
            if self.rows[i].id == id {
                let mut row = clone_override(&self.rows[i]);
                row.overrides = settings;
                let copy = clone_override(&row);
                let ghost pre = self.rows@;
                let ghost newrow = row;
                proof {
                    assert((#[trigger] self.rows()[i as int]).id == id);
                }
                self.rows.remove(i);
                self.rows.insert(i, row);
                proof {
                    assert(self.rows@ =~= pre.update(i as int, newrow));
                    assert forall|a: int, b: int|
                        0 <= a < b < self.rows@.len() implies (#[trigger] self.rows@[a]).id != (
                    #[trigger] self.rows@[b]).id && ((self.rows@[a]).guild_id
                        != (self.rows@[b]).guild_id || (self.rows@[a]).name@
                        != (self.rows@[b]).name@) by {
                        assert(pre[a].id != pre[b].id);
                        assert((pre[a]).guild_id != (pre[b]).guild_id || (pre[a]).name@
                            != (pre[b]).name@);
                    }
                }
                return Some(copy);
            }
            i += 1;
        }
        None
    }

    /// The override with this name in the guild, if any.
    pub fn get(&self, guild_id: i64, name: &String) -> (r: Option<StarboardOverride>)
        requires
            self.wf(),
        ensures
            r is Some <==> self.has_name(guild_id, name@),
            r is Some ==> (r->0)@ == self.row_by_name(guild_id, name@) && self.has_id((r->0).id),
    {
        match self.index_by_name(guild_id, name) {
            Some(i) => {
                let copy = clone_override(&self.rows[i]);
                proof {
                    assert((#[trigger] self.rows()[i as int]).id == copy.id);
                }
                Some(copy)
            },
            None => None,
        }
    }

    /// The guild's overrides, in store order.
    pub fn list_by_guild(&self, guild_id: i64) -> (r: Vec<StarboardOverride>)
        ensures
            r@.len() == self.rows().filter(|o: StarboardOverride| o.guild_id == guild_id).len(),
            forall|j: int|
                0 <= j < r@.len() ==> (#[trigger] r@[j])@ == self.rows().filter(
                    |o: StarboardOverride| o.guild_id == guild_id,
                )[j]@,
    {
        let mut r: Vec<StarboardOverride> = Vec::new();
        let mut i: usize = 0;
        proof {
            assert(self.rows@.subrange(0, 0) =~= Seq::<StarboardOverride>::empty());
        }
        while i < self.rows.len()
            invariant
                i <= self.rows@.len(),
                r@.len() == self.rows@.subrange(0, i as int).filter(
                    |o: StarboardOverride| o.guild_id == guild_id,
                ).len(),
                forall|j: int|
                    0 <= j < r@.len() ==> (#[trigger] r@[j])@ == self.rows@.subrange(
                        0,
                        i as int,
                    ).filter(|o: StarboardOverride| o.guild_id == guild_id)[j]@,
            decreases self.rows@.len() - i,
        {
            let ghost prefix = self.rows@.subrange(0, i as int);
            proof {
                reveal_with_fuel(Seq::filter, 2);
                assert(self.rows@.subrange(0, i + 1 as int) =~= prefix.push(self.rows@[i as int]));
                assert(prefix.push(self.rows@[i as int]).drop_last() =~= prefix);
            }
            let row = &self.rows[i];
            if row.guild_id == guild_id {
                r.push(clone_override(row));
            }
            i += 1;
        }
        proof {
            assert(self.rows@.subrange(0, self.rows@.len() as int) =~= self.rows@);
        }
        r
    }

    /// The starboard's overrides, in store order.
    pub fn list_by_starboard(&self, starboard_id: i32) -> (r: Vec<StarboardOverride>)
        ensures
            r@.len() == self.rows().filter(
                |o: StarboardOverride| o.starboard_id == starboard_id,
            ).len(),
            forall|j: int|
                0 <= j < r@.len() ==> (#[trigger] r@[j])@ == self.rows().filter(
                    |o: StarboardOverride| o.starboard_id == starboard_id,
                )[j]@,
    {
        let mut r: Vec<StarboardOverride> = Vec::new();
        let mut i: usize = 0;
        proof {
            assert(self.rows@.subrange(0, 0) =~= Seq::<StarboardOverride>::empty());
        }
        while i < self.rows.len()
            invariant
                i <= self.rows@.len(),
                r@.len() == self.rows@.subrange(0, i as int).filter(
                    |o: StarboardOverride| o.starboard_id == starboard_id,
                ).len(),
                forall|j: int|
                    0 <= j < r@.len() ==> (#[trigger] r@[j])@ == self.rows@.subrange(
                        0,
                        i as int,
                    ).filter(|o: StarboardOverride| o.starboard_id == starboard_id)[j]@,
            decreases self.rows@.len() - i,
        {
            let ghost prefix = self.rows@.subrange(0, i as int);
            proof {
                reveal_with_fuel(Seq::filter, 2);
                assert(self.rows@.subrange(0, i + 1 as int) =~= prefix.push(self.rows@[i as int]));
                assert(prefix.push(self.rows@[i as int]).drop_last() =~= prefix);
            }
            let row = &self.rows[i];
            if row.starboard_id == starboard_id {
                r.push(clone_override(row));
            }
            i += 1;
        }
        proof {
            assert(self.rows@.subrange(0, self.rows@.len() as int) =~= self.rows@);
        }
        r
    }

    /// The starboard's overrides that touch any of the given channels, in
    /// store order.
    pub fn list_by_starboard_and_channels(&self, starboard_id: i32, channel_ids: &Vec<i64>) -> (r:
        Vec<StarboardOverride>)
        ensures
            r@.len() == self.rows().filter(
                |o: StarboardOverride|
                    o.starboard_id == starboard_id && channels_overlap_model(
                        o.channel_ids@,
                        channel_ids@,
                    ),
            ).len(),
            forall|j: int|
                0 <= j < r@.len() ==> (#[trigger] r@[j])@ == self.rows().filter(
                    |o: StarboardOverride|
                        o.starboard_id == starboard_id && channels_overlap_model(
                            o.channel_ids@,
                            channel_ids@,
                        ),
                )[j]@,
    {
        let mut r: Vec<StarboardOverride> = Vec::new();
        let mut i: usize = 0;
        proof {
            assert(self.rows@.subrange(0, 0) =~= Seq::<StarboardOverride>::empty());
        }
        while i < self.rows.len()
            invariant
                i <= self.rows@.len(),
                r@.len() == self.rows@.subrange(0, i as int).filter(
                    |o: StarboardOverride|
                        o.starboard_id == starboard_id && channels_overlap_model(
                            o.channel_ids@,
                            channel_ids@,
                        ),
                ).len(),
                forall|j: int|
                    0 <= j < r@.len() ==> (#[trigger] r@[j])@ == self.rows@.subrange(
                        0,
                        i as int,
                    ).filter(
                        |o: StarboardOverride|
                            o.starboard_id == starboard_id && channels_overlap_model(
                                o.channel_ids@,
                                channel_ids@,
                            ),
                    )[j]@,
            decreases self.rows@.len() - i,
        {
            let ghost prefix = self.rows@.subrange(0, i as int);
            proof {
                reveal_with_fuel(Seq::filter, 2);
                assert(self.rows@.subrange(0, i + 1 as int) =~= prefix.push(self.rows@[i as int]));
                assert(prefix.push(self.rows@[i as int]).drop_last() =~= prefix);
            }
            let row = &self.rows[i];
            if row.starboard_id == starboard_id && channels_overlap(&row.channel_ids, channel_ids) {
                r.push(clone_override(row));
            }
            i += 1;
        }
        proof {
            assert(self.rows@.subrange(0, self.rows@.len() as int) =~= self.rows@);
        }
        r
    }

    /// How many overrides a starboard has.
    pub fn count_by_starboard(&self, starboard_id: i32) -> (r: usize)
        ensures
            r == self.rows().filter(|o: StarboardOverride| o.starboard_id == starboard_id).len(),
    {
        let listed = self.list_by_starboard(starboard_id);
        listed.len()
    }
}

} // verus!
