//! Engine-wide limits and fixed values.

use vstd::prelude::*;

verus! {

/// Zero-width space, used to pad otherwise-empty text fields.
pub const ZWS: &'static str = "\u{200B}";

/// Background color matching the platform's dark theme.
pub const EMBED_DARK_BG: u32 = 0x2F3136;

/// The bot's accent color.
pub const BOT_COLOR: u32 = 0xFFE19C;

/// Ceiling of the message cache.
pub const MAX_MESSAGES: u32 = 10_000;

/// Ceiling of the per-guild name caches.
pub const MAX_NAMES: u32 = 100;

/// Longest allowed name for starboards, overrides and filter groups.
pub const MAX_NAME_LENGTH: usize = 32;

/// Shortest allowed name for starboards, overrides and filter groups.
pub const MIN_NAME_LENGTH: usize = 3;

/// Lowest allowed post threshold.
pub const MIN_REQUIRED: i64 = 1;

/// Highest allowed post threshold.
pub const MAX_REQUIRED: i64 = 500;

/// Lowest allowed de-list threshold.
pub const MIN_REQUIRED_REMOVE: i64 = -500;

/// Highest allowed de-list threshold.
pub const MAX_REQUIRED_REMOVE: i64 = 490;

/// Longest allowed age window, in seconds: one week.
pub const MAX_NEWER_THAN: i64 = 604_800;

/// Longest allowed age window, in seconds: one week.
pub const MAX_OLDER_THAN: i64 = 604_800;

/// Most vote emojis a non-premium guild may configure.
pub const MAX_VOTE_EMOJIS: usize = 3;

/// Most vote emojis a premium guild may configure.
pub const MAX_PREM_VOTE_EMOJIS: usize = 10;

/// Most starboards a non-premium guild may have.
pub const MAX_STARBOARDS: usize = 3;

/// Most starboards a premium guild may have.
pub const MAX_PREM_STARBOARDS: usize = 10;

/// Most channels one override may list.
pub const MAX_CHANNELS_PER_OVERRIDE: usize = 2;

/// Most overrides one starboard may have.
pub const MAX_OVERRIDES_PER_STARBOARD: usize = 2;

/// Most filters one filter group may hold.
pub const MAX_FILTERS_PER_GROUP: usize = 10;

/// Most permission roles one guild may have.
pub const MAX_PERMROLES: usize = 50;

} // verus!
