//! The status engine: a pure decision function from effective settings,
//! message facts, vote count and posted state to the target lifecycle
//! action.

use vstd::prelude::*;

use crate::filters::{all_groups_pass, eval_groups, FilterGroup};
use crate::messages::MessageFacts;
use crate::settings::{ResolvedSettings, SettingsModel};

verus! {

/// The target lifecycle action for one (message, starboard) pair. The
/// payload of `Send` and `Update` tells whether the mirrored post needs a
/// full re-render or only a point-count patch.
#[derive(Clone, Copy, Debug, PartialEq, Eq, Structural)]
pub enum MessageStatus {
    /// Post the message; it is not currently posted.
    Send(bool),
    /// Refresh the existing post.
    Update(bool),
    /// Take the post down (or keep it absent).
    Remove,
    /// Nothing to do.
    NoOp,
}

/// The requirement checks of the resolved settings, besides the vote
/// thresholds: author, image, age window, content patterns, and the
/// attached filter groups.
pub open spec fn passes_requirements(
    cfg: SettingsModel,
    f: MessageFacts,
    groups: Seq<FilterGroup>,
) -> bool {
    &&& (f.author_is_bot ==> cfg.allow_bots)
    &&& (cfg.require_image ==> f.has_image)
    &&& (cfg.older_than > 0 ==> f.age_seconds >= cfg.older_than)
    &&& (cfg.newer_than > 0 ==> f.age_seconds <= cfg.newer_than)
    &&& ((cfg.matches is Some || cfg.not_matches is Some) ==> f.content_matches)
    &&& all_groups_pass(groups, f)
}

/// For an already-posted message that stays: patch it, unless nothing
/// material changed — an unchanged point count and no force flag.
pub open spec fn update_or_noop(last: i32, votes: i32, force: bool) -> MessageStatus {
    if votes == last && !force {
        MessageStatus::NoOp
    } else {
        MessageStatus::Update(force)
    }
}

/// The decision rules, in priority order: trashed/frozen first, then a
/// missing source, then forcing, then the requirement checks, then the vote
/// thresholds with hysteresis.
pub open spec fn decide_model(
    cfg: SettingsModel,
    f: MessageFacts,
    groups: Seq<FilterGroup>,
    votes: i32,
    source_missing: bool,
    posted: Option<i32>,
    force: bool,
) -> MessageStatus {
    if f.trashed || f.frozen {
        if posted is Some {
            MessageStatus::Remove
        } else {
            MessageStatus::NoOp
        }
    } else if source_missing {
        MessageStatus::Remove
    } else if f.forced {
        if posted is Some {
            MessageStatus::Update(true)
        } else {
            MessageStatus::Send(true)
        }
    } else if !passes_requirements(cfg, f, groups) {
        if posted is Some {
            MessageStatus::Remove
        } else {
            MessageStatus::NoOp
        }
    } else if (votes as int) >= (cfg.required as int) {
        match posted {
            Some(last) => update_or_noop(last, votes, force),
            None => MessageStatus::Send(true),
        }
    } else if posted is Some && (votes as int) <= (cfg.required_remove as int) {
        MessageStatus::Remove
    } else {
        match posted {
            Some(last) => update_or_noop(last, votes, force),
            None => MessageStatus::NoOp,
        }
    }
}

/// Decide the lifecycle action for one (message, starboard) pair.
///
/// `posted` carries the last known point count of the existing post, or
/// `None` when the message is not posted. `source_missing` reports that
/// the original message no longer exists. The function is pure: the result
/// is exactly [`decide_model`] of its inputs.
pub fn decide(
    cfg: &ResolvedSettings,
    f: &MessageFacts,
    groups: &Vec<FilterGroup>,
    votes: i32,
    source_missing: bool,
    posted: Option<i32>,
    force: bool,
) -> (r: MessageStatus)
    ensures
        r == decide_model(cfg@, *f, groups@, votes, source_missing, posted, force),
{
    let is_posted = posted.is_some();
    if f.trashed || f.frozen {
        if is_posted {
            MessageStatus::Remove
        } else {
            MessageStatus::NoOp
        }
    } else if source_missing {
        MessageStatus::Remove
    } else if f.forced {
        if is_posted {
            MessageStatus::Update(true)
        } else {
            MessageStatus::Send(true)
        }
    } else {
        let ok = (!f.author_is_bot || cfg.allow_bots) && (!cfg.require_image || f.has_image) && (
        cfg.older_than <= 0 || f.age_seconds >= cfg.older_than) && (cfg.newer_than <= 0
            || f.age_seconds <= cfg.newer_than) && ((cfg.matches.is_none()
            && cfg.not_matches.is_none()) || f.content_matches) && eval_groups(groups, f);
        if !ok {
            if is_posted {
                MessageStatus::Remove
            } else {
                MessageStatus::NoOp
            }
        } else if votes >= cfg.required as i32 {
            match posted {
                Some(last) => {
                    if votes == last && !force {
                        MessageStatus::NoOp
                    } else {
                        MessageStatus::Update(force)
                    }
                },
                None => MessageStatus::Send(true),
            }
        } else if is_posted && votes <= cfg.required_remove as i32 {
            MessageStatus::Remove
        } else {
            match posted {
                Some(last) => {
                    if votes == last && !force {
                        MessageStatus::NoOp
                    } else {
                        MessageStatus::Update(force)
                    }
                },
                None => MessageStatus::NoOp,
            }
        }
    }
}

/// Law: the decision is deterministic — two calls of [`decide`] on
/// identical inputs return identical results.
pub proof fn lemma_decide_idempotent(
    cfg: SettingsModel,
    f: MessageFacts,
    groups: Seq<FilterGroup>,
    votes: i32,
    source_missing: bool,
    posted: Option<i32>,
    force: bool,
    r1: MessageStatus,
    r2: MessageStatus,
)
    requires
        r1 == decide_model(cfg, f, groups, votes, source_missing, posted, force),
        r2 == decide_model(cfg, f, groups, votes, source_missing, posted, force),
    ensures
        r1 == r2,
{
}

/// Law: hysteresis. With a de-list threshold strictly below the post
/// threshold, and every check besides the vote count passing, a posted
/// message between the two thresholds stays posted (Update or NoOp), a
/// posted message at or below the de-list threshold is removed, an
/// unposted message below the post threshold stays absent, and any message
/// at or above the post threshold is posted or kept.
pub proof fn lemma_hysteresis(
    cfg: SettingsModel,
    f: MessageFacts,
    groups: Seq<FilterGroup>,
    votes: i32,
    last: i32,
    force: bool,
)
    requires
        !f.trashed,
        !f.frozen,
        !f.forced,
        passes_requirements(cfg, f, groups),
        (cfg.required_remove as int) < (cfg.required as int),
    ensures
        (cfg.required_remove as int) < (votes as int) && (votes as int) < (cfg.required as int) ==> (decide_model(
            cfg,
            f,
            groups,
            votes,
            false,
            Some(last),
            force,
        ) == update_or_noop(last, votes, force) && (update_or_noop(last, votes, force)
            is Update || update_or_noop(last, votes, force) is NoOp)),
        (votes as int) <= (cfg.required_remove as int) ==> decide_model(
            cfg,
            f,
            groups,
            votes,
            false,
            Some(last),
            force,
        ) == MessageStatus::Remove,
        (votes as int) < (cfg.required as int) ==> decide_model(
            cfg,
            f,
            groups,
            votes,
            false,
            None,
            force,
        ) == MessageStatus::NoOp,
        (votes as int) >= (cfg.required as int) ==> decide_model(
            cfg,
            f,
            groups,
            votes,
            false,
            None,
            force,
        ) == MessageStatus::Send(true),
{
}

/// Law: forcing wins over votes and filters, but not over trash or
/// freeze. A forced, untouched message is sent or updated whatever its
/// vote count and whatever the checks say; a forced but trashed message
/// that is posted is removed.
pub proof fn lemma_forced(
    cfg: SettingsModel,
    f: MessageFacts,
    groups: Seq<FilterGroup>,
    votes: i32,
    posted: Option<i32>,
    force: bool,
)
    requires
        f.forced,
    ensures
        !f.trashed && !f.frozen ==> (decide_model(cfg, f, groups, votes, false, posted, force)
            == if posted is Some {
            MessageStatus::Update(true)
        } else {
            MessageStatus::Send(true)
        }),
        f.trashed && posted is Some ==> decide_model(cfg, f, groups, votes, false, posted, force)
            == MessageStatus::Remove,
{
}

} // verus!
