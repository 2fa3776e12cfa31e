//! The decision cores of the admin commands. The interaction layer parses
//! and range-checks raw user input, looks up whatever the decision needs,
//! calls one of these functions, and renders the outcome; no raw user text
//! reaches this module.

use vstd::prelude::*;

use crate::config::Starboard;
use crate::constants::{MAX_FILTERS_PER_GROUP, MAX_OVERRIDES_PER_STARBOARD, MAX_PREM_STARBOARDS, MAX_STARBOARDS};
use crate::filters::{shift_positions, Filter, FilterRule};
use crate::settings::{OverrideValues, OverrideValuesModel, SettingsModel, ResolvedSettings};
use crate::starboard_override::{OverrideStore, RenameOutcome, StarboardOverride};
use crate::util::clone_string_vec;
use crate::validation::{
    name_len_ok, pattern_ok, relative_duration_ok, required_ok, required_remove_ok,
    validate_name, validate_pattern, validate_relative_duration, validate_required,
    validate_required_remove, validate_vote_emojis, vote_emojis_ok,
};

verus! {

/// How many overrides a starboard holds in a store.
pub open spec fn override_count(store: OverrideStore, starboard_id: i32) -> nat {
    store.rows().filter(|o: StarboardOverride| o.starboard_id == starboard_id).len()
}

/// Input of the override-creation command.
pub struct CreateOverride {
    /// The name of the override.
    pub name: String,
    /// The name of the starboard this override belongs to.
    pub starboard: String,
}

/// What the override-creation command answers.
#[derive(Clone, Copy, Debug, PartialEq, Eq, Structural)]
pub enum CreateOverrideOutcome {
    InvalidName,
    NoSuchStarboard,
    TooManyOverrides,
    NameTaken,
    Created,
}

impl CreateOverride {
    /// Decide and apply the creation: the name must be well-formed, the
    /// starboard must exist, the starboard must be under its override
    /// limit, and the name must be free in the guild.
    pub fn callback(
        &self,
        store: &mut OverrideStore,
        starboard: Option<&Starboard>,
        guild_id: i64,
        new_id: i32,
    ) -> (r: CreateOverrideOutcome)
        requires
            old(store).wf(),
            !old(store).has_id(new_id),
        ensures
            final(store).wf(),
            r == CreateOverrideOutcome::InvalidName <==> !name_len_ok(
                self.name@,
            ),
            r == CreateOverrideOutcome::NoSuchStarboard <==> (name_len_ok(
                self.name@,
            ) && starboard is None),
            r == CreateOverrideOutcome::TooManyOverrides <==> (name_len_ok(self.name@)
                && starboard is Some && override_count(*old(store), starboard->0.id)
                >= MAX_OVERRIDES_PER_STARBOARD),
            r == CreateOverrideOutcome::NameTaken <==> (name_len_ok(self.name@)
                && starboard is Some && override_count(*old(store), starboard->0.id)
                < MAX_OVERRIDES_PER_STARBOARD && old(store).has_name(guild_id, self.name@)),
            // creation is owed exactly when every check passes
            r == CreateOverrideOutcome::Created <==> (name_len_ok(self.name@) && starboard is Some
                && override_count(*old(store), starboard->0.id) < MAX_OVERRIDES_PER_STARBOARD
                && !old(store).has_name(guild_id, self.name@)),
            r != CreateOverrideOutcome::Created ==> *final(store) == *old(store),
            r == CreateOverrideOutcome::Created ==> (starboard matches Some(sb)
                && !old(store).has_name(guild_id, self.name@) && final(store).has_name(
                guild_id,
                self.name@,
            ) && final(store).row_by_name(guild_id, self.name@) == (
            crate::starboard_override::OverrideRowModel {
                id: new_id,
                guild_id,
                name: self.name@,
                starboard_id: sb.id,
                channel_ids: Seq::empty(),
                overrides: crate::settings::empty_patch(),
            })),
    {
        if validate_name(self.name.as_str()).is_err() {
            return CreateOverrideOutcome::InvalidName;
        }
        let sb = match starboard {
            None => {
                return CreateOverrideOutcome::NoSuchStarboard;
            },
            Some(sb) => sb,
        };
        if store.count_by_starboard(sb.id) >= MAX_OVERRIDES_PER_STARBOARD {
            return CreateOverrideOutcome::TooManyOverrides;
        }
        match store.create(new_id, guild_id, &self.name, sb.id) {
            None => CreateOverrideOutcome::NameTaken,
            Some(_) => CreateOverrideOutcome::Created,
        }
    }
}

/// Input of the override-rename command.
pub struct RenameOverride {
    /// The current name of the override.
    pub old_name: String,
    /// The new name of the override.
    pub name: String,
}

/// What the override-rename command answers.
#[derive(Clone, Copy, Debug, PartialEq, Eq, Structural)]
pub enum RenameOverrideOutcome {
    InvalidName,
    NameTaken,
    NoSuchOverride,
    Renamed,
}

impl RenameOverride {
    /// Decide and apply the rename: the new name must be well-formed and
    /// free, and the old name must exist.
    pub fn callback(&self, store: &mut OverrideStore, guild_id: i64) -> (r: RenameOverrideOutcome)
        requires
            old(store).wf(),
        ensures
            final(store).wf(),
            r == RenameOverrideOutcome::InvalidName <==> !name_len_ok(
                self.name@,
            ),
            r == RenameOverrideOutcome::NoSuchOverride <==> (name_len_ok(self.name@) && !old(
                store,
            ).has_name(guild_id, self.old_name@)),
            r == RenameOverrideOutcome::NameTaken <==> (name_len_ok(self.name@) && old(
                store,
            ).has_name(guild_id, self.old_name@) && old(store).has_name(guild_id, self.name@)
                && self.old_name@ != self.name@),
            // the rename is owed exactly when the old name exists and the
            // new one is free (or unchanged)
            r == RenameOverrideOutcome::Renamed <==> (name_len_ok(self.name@) && old(
                store,
            ).has_name(guild_id, self.old_name@) && (self.old_name@ == self.name@ || !old(
                store,
            ).has_name(guild_id, self.name@))),
            r != RenameOverrideOutcome::Renamed ==> *final(store) == *old(store),
            r == RenameOverrideOutcome::Renamed ==> final(store).has_name(guild_id, self.name@)
                && final(store).row_by_name(guild_id, self.name@) == (
            crate::starboard_override::OverrideRowModel {
                name: self.name@,
                ..old(store).row_by_name(guild_id, self.old_name@)
            }),
    {
        if validate_name(self.name.as_str()).is_err() {
            return RenameOverrideOutcome::InvalidName;
        }
        match store.rename(guild_id, &self.old_name, &self.name) {
            RenameOutcome::NameTaken => RenameOverrideOutcome::NameTaken,
            RenameOutcome::NoSuchOverride => RenameOverrideOutcome::NoSuchOverride,
            RenameOutcome::Renamed => RenameOverrideOutcome::Renamed,
        }
    }
}

/// Input of the override-channels command.
pub struct SetOverrideChannels {
    /// The override to set the channels for.
    pub name: String,
    /// The channels the override should affect, already resolved to ids.
    pub channels: Vec<i64>,
}

/// What the override-channels command answers.
#[derive(Clone, Copy, Debug, PartialEq, Eq, Structural)]
pub enum SetChannelsOutcome {
    TooManyChannels,
    NoSuchOverride,
    Done,
}

impl SetOverrideChannels {
    /// Decide and apply the channel change: the list must be under the
    /// limit and the override must exist.
    pub fn callback(&self, store: &mut OverrideStore, guild_id: i64) -> (r: SetChannelsOutcome)
        requires
            old(store).wf(),
        ensures
            final(store).wf(),
            r == SetChannelsOutcome::TooManyChannels <==> self.channels@.len()
                > crate::starboard_override::MAX_CHANNELS_PER_OVERRIDE,
            r == SetChannelsOutcome::NoSuchOverride <==> (self.channels@.len()
                <= crate::starboard_override::MAX_CHANNELS_PER_OVERRIDE && !old(store).has_name(
                guild_id,
                self.name@,
            )),
            // the change is owed exactly when the list fits and the
            // override exists
            r == SetChannelsOutcome::Done <==> (self.channels@.len()
                <= crate::starboard_override::MAX_CHANNELS_PER_OVERRIDE && old(store).has_name(
                guild_id,
                self.name@,
            )),
            r != SetChannelsOutcome::Done ==> *final(store) == *old(store),
            r == SetChannelsOutcome::Done ==> old(store).has_name(guild_id, self.name@) && final(store).row_by_name(guild_id, self.name@) == (
            crate::starboard_override::OverrideRowModel {
                channel_ids: self.channels@,
                ..old(store).row_by_name(guild_id, self.name@)
            }),
    {
        if StarboardOverride::validate_channels(self.channels.as_slice()).is_err() {
            return SetChannelsOutcome::TooManyChannels;
        }
        match store.set_channels(guild_id, &self.name, &self.channels) {
            None => SetChannelsOutcome::NoSuchOverride,
            Some(_) => SetChannelsOutcome::Done,
        }
    }
}

/// Input of the filter-creation command.
pub struct CreateFilter {
    /// The filter group to create the filter in.
    pub group: String,
    /// The one-based position to insert at; the end of the list when
    /// absent.
    pub position: Option<i16>,
}

/// What the filter-creation command answers.
#[derive(Clone, Copy, Debug, PartialEq, Eq, Structural)]
pub enum CreateFilterOutcome {
    TooManyFilters,
    Created,
}

impl CreateFilter {
    /// Decide and apply the insertion into the group's filter list: under
    /// the per-group limit, an asked-for position shifts the filters at
    /// and after it one place down; without one the filter lands after the
    /// last.
    pub fn callback(&self, filters: &mut Vec<Filter>, group_id: i32, new_filter_id: i32, rule: FilterRule) -> (r:
        CreateFilterOutcome)
        requires
            old(filters)@.len() <= MAX_FILTERS_PER_GROUP,
            forall|i: int|
                0 <= i < old(filters)@.len() ==> 0 <= (#[trigger] old(filters)@[i].position)
                    < i16::MAX,
            self.position matches Some(p) ==> p >= 1,
        ensures
            r == CreateFilterOutcome::TooManyFilters <==> old(filters)@.len()
                == MAX_FILTERS_PER_GROUP,
            r == CreateFilterOutcome::TooManyFilters ==> *final(filters) == *old(filters),
            r == CreateFilterOutcome::Created ==> final(filters)@.len() == old(filters)@.len() + 1
                && final(filters)@.last() == (Filter {
                id: new_filter_id,
                filter_group_id: group_id,
                position: match self.position {
                    Some(p) => p,
                    None => final(filters)@.last().position,
                },
                rule,
            }),
            // an asked-for position shifts the filters at and after it one
            // place down and leaves the rest alone, so positions stay
            // unique
            r == CreateFilterOutcome::Created ==> (self.position matches Some(p) ==> forall|i: int|
                0 <= i < old(filters)@.len() ==> (#[trigger] final(filters)@[i]) == (if old(
                    filters,
                )@[i].position >= p {
                    Filter { position: (old(filters)@[i].position + 1) as i16, ..old(filters)@[i] }
                } else {
                    old(filters)@[i]
                })),
            // without one, the existing filters are untouched
            (r == CreateFilterOutcome::Created && self.position is None) ==> forall|i: int|
                0 <= i < old(filters)@.len() ==> (#[trigger] final(filters)@[i]) == old(
                    filters,
                )@[i],
    {
        if filters.len() >= MAX_FILTERS_PER_GROUP {
            return CreateFilterOutcome::TooManyFilters;
        }
        let position: i16 = match self.position {
            Some(p) => {
                shift_positions(filters, p);
                p
            },
            None => {
                let last = crate::filters::last_position(filters);
                if last == i16::MAX {
                    // positions are renumbered well below this bound; fall
                    // back to appending at the same position
                    last
                } else {
                    last + 1
                }
            },
        };
        let f = Filter { id: new_filter_id, filter_group_id: group_id, position, rule };
        filters.push(f);
        CreateFilterOutcome::Created
    }
}

/// Input of the starboard-creation command.
pub struct CreateStarboard {
    /// The name of the starboard.
    pub name: String,
    /// The channel to mirror into.
    pub channel_id: i64,
}

/// What the starboard-creation command decides before touching storage.
#[derive(Clone, Copy, Debug, PartialEq, Eq, Structural)]
pub enum CreateStarboardOutcome {
    TooManyStarboards,
    InvalidName,
    Allowed,
}

impl CreateStarboard {
    /// Decide whether the starboard may be created: the guild must be
    /// under its starboard limit — higher for premium guilds — and the
    /// name must be well-formed. The storage layer still reports a
    /// duplicate name.
    pub fn callback(&self, existing_count: usize, premium: bool) -> (r: CreateStarboardOutcome)
        ensures
            r == CreateStarboardOutcome::TooManyStarboards <==> existing_count >= (if premium {
                MAX_PREM_STARBOARDS as usize
            } else {
                MAX_STARBOARDS as usize
            }),
            r == CreateStarboardOutcome::InvalidName <==> (existing_count < (if premium {
                MAX_PREM_STARBOARDS as usize
            } else {
                MAX_STARBOARDS as usize
            }) && !name_len_ok(self.name@)),
            r == CreateStarboardOutcome::Allowed <==> (existing_count < (if premium {
                MAX_PREM_STARBOARDS as usize
            } else {
                MAX_STARBOARDS as usize
            }) && name_len_ok(self.name@)),
    {
        let limit: usize = if premium {
            MAX_PREM_STARBOARDS
        } else {
            MAX_STARBOARDS
        };
        if existing_count >= limit {
            CreateStarboardOutcome::TooManyStarboards
        } else if validate_name(self.name.as_str()).is_err() {
            CreateStarboardOutcome::InvalidName
        } else {
            CreateStarboardOutcome::Allowed
        }
    }
}

/// Input of the requirements-edit command: every field optional, absence
/// meaning "leave as is". The interaction layer has already parsed the raw
/// text into these values.
pub struct EditRequirements {
    /// The override to edit.
    pub name: String,
    /// The post threshold to set.
    pub required: Option<i64>,
    /// The de-list threshold to set.
    pub required_remove: Option<i64>,
    /// The upvote emoji list to set.
    pub upvote_emojis: Option<Vec<String>>,
    /// The downvote emoji list to set.
    pub downvote_emojis: Option<Vec<String>>,
    /// Whether authors may vote on their own messages.
    pub self_vote: Option<bool>,
    /// Whether bot messages qualify.
    pub allow_bots: Option<bool>,
    /// Whether an image is required.
    pub require_image: Option<bool>,
    /// Minimum age in seconds; zero disables.
    pub older_than: Option<i64>,
    /// Maximum age in seconds; zero disables.
    pub newer_than: Option<i64>,
    /// Content pattern the message must match (premium).
    pub matches: Option<String>,
    /// Content pattern the message must not match (premium).
    pub not_matches: Option<String>,
}

/// What the requirements-edit command answers.
#[derive(Clone, Copy, Debug, PartialEq, Eq, Structural)]
pub enum EditRequirementsOutcome {
    NoSuchOverride,
    BadRequired,
    BadRequiredRemove,
    BadVoteEmojis,
    BadTimeWindow,
    PatternNeedsPremium,
    Updated,
}

/// The override's patch after this edit: every provided field replaces the
/// stored one, the rest stay.
pub open spec fn edited_patch(cmd: &EditRequirements, base: OverrideValuesModel) -> OverrideValuesModel {
    OverrideValuesModel {
        enabled: base.enabled,
        required: match cmd.required {
            Some(v) => Some(v as i16),
            None => base.required,
        },
        required_remove: match cmd.required_remove {
            Some(v) => Some(v as i16),
            None => base.required_remove,
        },
        upvote_emojis: match cmd.upvote_emojis {
            Some(v) => Some(v@),
            None => base.upvote_emojis,
        },
        downvote_emojis: match cmd.downvote_emojis {
            Some(v) => Some(v@),
            None => base.downvote_emojis,
        },
        autoreact_upvote: base.autoreact_upvote,
        autoreact_downvote: base.autoreact_downvote,
        self_vote: match cmd.self_vote {
            Some(v) => Some(v),
            None => base.self_vote,
        },
        allow_bots: match cmd.allow_bots {
            Some(v) => Some(v),
            None => base.allow_bots,
        },
        require_image: match cmd.require_image {
            Some(v) => Some(v),
            None => base.require_image,
        },
        older_than: match cmd.older_than {
            Some(v) => Some(v),
            None => base.older_than,
        },
        newer_than: match cmd.newer_than {
            Some(v) => Some(v),
            None => base.newer_than,
        },
        matches: if cmd.matches is Some {
            cmd.matches
        } else {
            base.matches
        },
        not_matches: if cmd.not_matches is Some {
            cmd.not_matches
        } else {
            base.not_matches
        },
    }
}

/// The upvote emojis the vote-emoji check sees: the edit's, else the
/// stored patch's, else the resolved settings'.
pub open spec fn effective_upvote(cmd: &EditRequirements, base: OverrideValuesModel, resolved: SettingsModel) -> Seq<String> {
    match cmd.upvote_emojis {
        Some(v) => v@,
        None => match base.upvote_emojis {
            Some(e) => e,
            None => resolved.upvote_emojis,
        },
    }
}

/// The downvote emojis the vote-emoji check sees.
pub open spec fn effective_downvote(cmd: &EditRequirements, base: OverrideValuesModel, resolved: SettingsModel) -> Seq<String> {
    match cmd.downvote_emojis {
        Some(v) => v@,
        None => match base.downvote_emojis {
            Some(e) => e,
            None => resolved.downvote_emojis,
        },
    }
}

/// The age bound the window check sees.
pub open spec fn effective_newer(cmd: &EditRequirements, base: OverrideValuesModel, resolved: SettingsModel) -> i64 {
    match cmd.newer_than {
        Some(v) => v,
        None => match base.newer_than {
            Some(b) => b,
            None => resolved.newer_than,
        },
    }
}

/// The age bound the window check sees.
pub open spec fn effective_older(cmd: &EditRequirements, base: OverrideValuesModel, resolved: SettingsModel) -> i64 {
    match cmd.older_than {
        Some(v) => v,
        None => match base.older_than {
            Some(b) => b,
            None => resolved.older_than,
        },
    }
}

/// Whether the edited post threshold is acceptable.
pub open spec fn edit_required_ok(cmd: &EditRequirements, resolved: SettingsModel) -> bool {
    cmd.required matches Some(v) ==> required_ok(v, resolved.required_remove)
}

/// Whether the edited de-list threshold is acceptable.
pub open spec fn edit_required_remove_ok(cmd: &EditRequirements, resolved: SettingsModel) -> bool {
    cmd.required_remove matches Some(v) ==> required_remove_ok(v, resolved.required)
}

/// Whether the effective emoji lists are acceptable.
pub open spec fn edit_emojis_ok(cmd: &EditRequirements, base: OverrideValuesModel, resolved: SettingsModel, premium: bool) -> bool {
    vote_emojis_ok(
        effective_upvote(cmd, base, resolved),
        effective_downvote(cmd, base, resolved),
        premium,
    )
}

/// Whether the effective age window is acceptable.
pub open spec fn edit_window_ok(cmd: &EditRequirements, base: OverrideValuesModel, resolved: SettingsModel) -> bool {
    relative_duration_ok(
        effective_newer(cmd, base, resolved),
        effective_older(cmd, base, resolved),
    )
}

/// Whether the edit may set content patterns.
pub open spec fn edit_pattern_ok(cmd: &EditRequirements, premium: bool) -> bool {
    (cmd.matches is Some || cmd.not_matches is Some) ==> pattern_ok(premium)
}

/// What the edit answers once the override was found: the first failing
/// validation, in command order, or `Updated`.
pub open spec fn edit_outcome(
    cmd: &EditRequirements,
    base: OverrideValuesModel,
    resolved: SettingsModel,
    premium: bool,
) -> EditRequirementsOutcome {
    if !edit_required_ok(cmd, resolved) {
        EditRequirementsOutcome::BadRequired
    } else if !edit_required_remove_ok(cmd, resolved) {
        EditRequirementsOutcome::BadRequiredRemove
    } else if !edit_emojis_ok(cmd, base, resolved, premium) {
        EditRequirementsOutcome::BadVoteEmojis
    } else if !edit_window_ok(cmd, base, resolved) {
        EditRequirementsOutcome::BadTimeWindow
    } else if !edit_pattern_ok(cmd, premium) {
        EditRequirementsOutcome::PatternNeedsPremium
    } else {
        EditRequirementsOutcome::Updated
    }
}

impl EditRequirements {
    /// Decide and apply the edit, validating each provided field against
    /// the effective settings: the thresholds must respect each other, the
    /// effective emoji lists must be acceptable, the effective age window
    /// must be consistent, and content patterns need premium. On success
    /// the named override's patch is replaced field-wise.
    pub fn callback(
        &self,
        store: &mut OverrideStore,
        guild_id: i64,
        resolved: &ResolvedSettings,
        premium: bool,
    ) -> (r: EditRequirementsOutcome)
        requires
            old(store).wf(),
        ensures
            final(store).wf(),
            r == EditRequirementsOutcome::NoSuchOverride <==> !old(store).has_name(
                guild_id,
                self.name@,
            ),
            old(store).has_name(guild_id, self.name@) ==> r == edit_outcome(
                self,
                old(store).row_by_name(guild_id, self.name@).overrides,
                resolved@,
                premium,
            ),
            r != EditRequirementsOutcome::Updated ==> *final(store) == *old(store),
            r == EditRequirementsOutcome::Updated ==> final(store).has_name(guild_id, self.name@)
                && final(store).row_by_name(guild_id, self.name@) == (
            crate::starboard_override::OverrideRowModel {
                overrides: edited_patch(
                    self,
                    old(store).row_by_name(guild_id, self.name@).overrides,
                ),
                ..old(store).row_by_name(guild_id, self.name@)
            }),
    {
        let ov = match store.get(guild_id, &self.name) {
            None => {
                return EditRequirementsOutcome::NoSuchOverride;
            },
            Some(ov) => ov,
        };
        let base = &ov.overrides;

        let new_required: Option<i16> = match self.required {
            Some(val) => match validate_required(val, resolved.required_remove) {
                Ok(v) => Some(v),
                Err(_) => {
                    return EditRequirementsOutcome::BadRequired;
                },
            },
            None => base.required,
        };
        let new_required_remove: Option<i16> = match self.required_remove {
            Some(val) => match validate_required_remove(val, resolved.required) {
                Ok(v) => Some(v),
                Err(_) => {
                    return EditRequirementsOutcome::BadRequiredRemove;
                },
            },
            None => base.required_remove,
        };

        let new_up: Option<Vec<String>> = match &self.upvote_emojis {
            Some(v) => Some(clone_string_vec(v)),
            None => match &base.upvote_emojis {
                Some(v) => Some(clone_string_vec(v)),
                None => None,
            },
        };
        let new_down: Option<Vec<String>> = match &self.downvote_emojis {
            Some(v) => Some(clone_string_vec(v)),
            None => match &base.downvote_emojis {
                Some(v) => Some(clone_string_vec(v)),
                None => None,
            },
        };
        let emojis_ok = {
            let eff_up: &Vec<String> = match &new_up {
                Some(v) => v,
                None => &resolved.upvote_emojis,
            };
            let eff_down: &Vec<String> = match &new_down {
                Some(v) => v,
                None => &resolved.downvote_emojis,
            };
            validate_vote_emojis(eff_up, eff_down, premium).is_ok()
        };
        if !emojis_ok {
            return EditRequirementsOutcome::BadVoteEmojis;
        }

        let new_older: Option<i64> = match self.older_than {
            Some(v) => Some(v),
            None => base.older_than,
        };
        let new_newer: Option<i64> = match self.newer_than {
            Some(v) => Some(v),
            None => base.newer_than,
        };
        let eff_newer: i64 = match new_newer {
            Some(v) => v,
            None => resolved.newer_than,
        };
        let eff_older: i64 = match new_older {
            Some(v) => v,
            None => resolved.older_than,
        };
        if validate_relative_duration(eff_newer, eff_older).is_err() {
            return EditRequirementsOutcome::BadTimeWindow;
        }

        if self.matches.is_some() || self.not_matches.is_some() {
            if validate_pattern(premium).is_err() {
                return EditRequirementsOutcome::PatternNeedsPremium;
            }
        }

        let settings = OverrideValues {
            enabled: base.enabled,
            required: new_required,
            required_remove: new_required_remove,
            upvote_emojis: new_up,
            downvote_emojis: new_down,
            autoreact_upvote: base.autoreact_upvote,
            autoreact_downvote: base.autoreact_downvote,
            self_vote: match self.self_vote {
                Some(v) => Some(v),
                None => base.self_vote,
            },
            allow_bots: match self.allow_bots {
                Some(v) => Some(v),
                None => base.allow_bots,
            },
            require_image: match self.require_image {
                Some(v) => Some(v),
                None => base.require_image,
            },
            older_than: new_older,
            newer_than: new_newer,
            matches: match &self.matches {
                Some(v) => Some(v.clone()),
                None => crate::util::clone_opt_string(&base.matches),
            },
            not_matches: match &self.not_matches {
                Some(v) => Some(v.clone()),
                None => crate::util::clone_opt_string(&base.not_matches),
            },
        };
        proof {
            assert(settings@ =~= edited_patch(
                self,
                old(store).row_by_name(guild_id, self.name@).overrides,
            ));
        }
        match store.update_settings_by_name(guild_id, &self.name, settings) {
            Some(_) => EditRequirementsOutcome::Updated,
            None => {
                // unreachable: the override was found above and the store
                // was not touched since
                EditRequirementsOutcome::NoSuchOverride
            },
        }
    }
}

} // verus!
