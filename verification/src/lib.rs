//! A starboard engine: watches votes on chat messages, decides whether a
//! message qualifies to be mirrored into one or more starboard channels,
//! and keeps the mirrored copy synchronized — created, edited, deleted —
//! as the votes change.
//!
//! The heart is the message-refresh pipeline: [`locks`] serializes
//! refreshes per message, [`config`] resolves a starboard's effective
//! settings from its base [`settings`] and the [`starboard_override`]
//! patches, [`status`] decides the lifecycle action from the [`votes`]
//! count and the message's [`filters`] and flags, [`embedder`] parses the
//! cached source message into a renderable artifact, and [`coordinator`]
//! applies the decided action against the [`posts`] records with a bounded
//! retry. [`cache`] is the bounded store of recently seen platform
//! objects, and [`premium`] clears lapsed premium grants in the
//! background.

pub mod cache;
pub mod commands;
pub mod config;
pub mod constants;
pub mod cooldown;
pub mod coordinator;
pub mod embedder;
pub mod filters;
pub mod locks;
pub mod messages;
pub mod permroles;
pub mod posts;
pub mod premium;
pub mod settings;
pub mod status;
pub mod starboard_override;
mod util;
pub mod validation;
pub mod votes;

use vstd::prelude::*;

verus! {

/// The message id that a refresh targets: the original message where a
/// post record maps the given id back to its source, the given id itself
/// otherwise.
pub fn original_message_id(mapped: Option<i64>, message_id: i64) -> (r: i64)
    ensures
        r == match mapped {
            Some(m) => m,
            None => message_id,
        },
{
    match mapped {
        Some(m) => m,
        None => message_id,
    }
}

} // verus!
