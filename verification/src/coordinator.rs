//! The refresh coordinator: per-message locking, fan-out over the resolved
//! configurations, and the retry-bounded apply step for one (message,
//! starboard) pair.
//!
//! The apply step works against a board state — the stored post record and
//! whether the mirrored message still exists — plus the per-cycle inputs
//! (fresh vote count, facts, cooldown). Everything that only the platform
//! can answer arrives as a value; the decisions here are pure and fully
//! specified.

use vstd::prelude::*;

use crate::config::ResolvedConfig;
use crate::embedder::CachedMessage;
use crate::filters::FilterGroup;
use crate::locks::MessageLocks;
use crate::messages::{DbMessage, MessageFacts};
use crate::posts::{PostStore, StarboardPost};
use crate::settings::SettingsModel;
use crate::status::{decide, decide_model, MessageStatus};

verus! {

/// How many times one refresh may run the apply step: the first pass plus
/// one retry after a mirror went missing.
pub const MAX_REFRESH_TRIES: u32 = 2;

/// The world of one (message, starboard) pair, as a refresh sees it.
#[derive(Clone, Copy, Debug, PartialEq, Eq, Structural)]
pub struct BoardState {
    /// The stored post record, if any.
    pub post: Option<StarboardPost>,
    /// Whether the mirrored message still exists on the platform. An edit
    /// against a missing mirror comes back "not found".
    pub mirror_present: bool,
}

/// What one apply pass reads from the world.
#[derive(Clone, Copy, PartialEq, Eq, Structural)]
pub struct AttemptInputs {
    /// The fresh vote count; always re-read, never trusted from the record.
    pub points: i32,
    /// The decision facts for this message and starboard.
    pub facts: MessageFacts,
    /// The source message no longer exists.
    pub source_missing: bool,
    /// The per-channel edit cooldown is active: sends and edits are
    /// deferred to the next vote event.
    pub cooldown_active: bool,
    /// The message id the platform would assign to a fresh send.
    pub new_mirror_id: i64,
}

/// What one apply pass did.
#[derive(Clone, Copy, Debug, PartialEq, Eq, Structural)]
pub enum AttemptOutcome {
    /// The vote count matched the record and nothing was forced: no work.
    Skipped,
    /// The mirror and its record were removed.
    Removed,
    /// An edit or send was due but the cooldown deferred it; the record's
    /// point count was still brought up to date.
    Deferred,
    /// The mirror was edited; `full` tells whether it was re-rendered.
    Edited { full: bool },
    /// The mirror was gone when the edit arrived: the stale record was
    /// dropped so the next pass re-evaluates from scratch.
    MissingOnEdit,
    /// A fresh mirror was sent and recorded.
    Sent { mirror_id: i64 },
    /// The decision asked for nothing.
    Nothing,
}

/// One apply pass over a board state: returns the next state, whether the
/// refresh should run once more, and what happened.
///
/// A posted message whose fresh count equals the recorded count is skipped
/// before the decision is consulted (unless the refresh is forced): the
/// recorded count exists purely to short-circuit re-applies, so a message
/// that became due for removal without a count change waits for the next
/// vote event.
pub open spec fn refresh_one_model(
    board: BoardState,
    cfg: SettingsModel,
    starboard_id: i32,
    groups: Seq<FilterGroup>,
    message_id: i64,
    inp: AttemptInputs,
    force: bool,
) -> (BoardState, bool, AttemptOutcome) {
    let posted = match board.post {
        Some(p) => Some(p.last_known_point_count),
        None => None,
    };
    let action = decide_model(cfg, inp.facts, groups, inp.points, inp.source_missing, posted, force);
    match board.post {
        Some(p) => if !force && inp.points == p.last_known_point_count {
            (board, false, AttemptOutcome::Skipped)
        } else {
            let counted = BoardState {
                post: Some(StarboardPost { last_known_point_count: inp.points, ..p }),
                ..board
            };
            match action {
                MessageStatus::Remove => (
                    BoardState { post: None, mirror_present: false },
                    false,
                    AttemptOutcome::Removed,
                ),
                MessageStatus::Send(full) | MessageStatus::Update(full) => if inp.cooldown_active {
                    (counted, false, AttemptOutcome::Deferred)
                } else if !board.mirror_present {
                    (
                        BoardState { post: None, ..counted },
                        true,
                        AttemptOutcome::MissingOnEdit,
                    )
                } else {
                    (counted, true, AttemptOutcome::Edited { full })
                },
                MessageStatus::NoOp => (counted, false, AttemptOutcome::Nothing),
            }
        },
        None => match action {
            MessageStatus::Send(_) => (
                BoardState {
                    post: Some(
                        StarboardPost {
                            message_id,
                            starboard_message_id: inp.new_mirror_id,
                            starboard_id,
                            last_known_point_count: inp.points,
                        },
                    ),
                    mirror_present: true,
                },
                false,
                AttemptOutcome::Sent { mirror_id: inp.new_mirror_id },
            ),
            _ => (board, false, AttemptOutcome::Nothing),
        },
    }
}

/// A whole refresh of one (message, starboard) pair: one apply pass, and
/// one more when the first asked for a retry. Never more than
/// [`MAX_REFRESH_TRIES`] passes.
pub open spec fn refresh_board_model(
    board: BoardState,
    cfg: SettingsModel,
    starboard_id: i32,
    groups: Seq<FilterGroup>,
    message_id: i64,
    inp: AttemptInputs,
    force: bool,
) -> (BoardState, Seq<AttemptOutcome>) {
    let first = refresh_one_model(board, cfg, starboard_id, groups, message_id, inp, force);
    if first.1 {
        let second = refresh_one_model(first.0, cfg, starboard_id, groups, message_id, inp, force);
        (second.0, seq![first.2, second.2])
    } else {
        (first.0, seq![first.2])
    }
}

/// One starboard's refresh attempt for one message.
pub struct RefreshStarboard {
    /// The source message under refresh.
    pub message_id: i64,
    /// The effective configuration for this starboard and channel.
    pub config: ResolvedConfig,
    /// The filter groups attached to this starboard.
    pub groups: Vec<FilterGroup>,
}

impl RefreshStarboard {
    pub fn new(message_id: i64, config: ResolvedConfig, groups: Vec<FilterGroup>) -> (r:
        RefreshStarboard)
        ensures
            r.message_id == message_id,
            r.config == config,
            r.groups == groups,
    {
        RefreshStarboard { message_id, config, groups }
    }

    /// The stored post for this pair, if any.
    pub fn get_starboard_message(&self, posts: &PostStore) -> (r: Option<StarboardPost>)
        ensures
            r is Some <==> posts.has_pair(self.message_id, self.config.starboard_id),
            match r {
                Some(p) => posts.rows().contains(p) && p.message_id == self.message_id
                    && p.starboard_id == self.config.starboard_id,
                None => true,
            },
    {
        posts.get_by_starboard(self.message_id, self.config.starboard_id)
    }

    /// One apply pass. The result is exactly [`refresh_one_model`] of the
    /// inputs: the record's point count is brought up to date, a removal
    /// deletes mirror-then-record, an edit against a missing mirror drops
    /// the stale record and asks for a retry, a cooldown defers the edit,
    /// and a qualifying unposted message is sent and recorded.
    fn refresh_one(&self, board: &mut BoardState, inp: &AttemptInputs, force: bool) -> (r: (
        bool,
        AttemptOutcome,
    ))
        ensures
            ({
                let m = refresh_one_model(
                    *old(board),
                    self.config.resolved@,
                    self.config.starboard_id,
                    self.groups@,
                    self.message_id,
                    *inp,
                    force,
                );
                *final(board) == m.0 && r.0 == m.1 && r.1 == m.2
            }),
    {
        let posted = match &board.post {
            Some(p) => Some(p.last_known_point_count),
            None => None,
        };
        let action = decide(
            &self.config.resolved,
            &inp.facts,
            &self.groups,
            inp.points,
            inp.source_missing,
            posted,
            force,
        );
        match board.post {
            Some(p) => {
                if !force && inp.points == p.last_known_point_count {
                    return (false, AttemptOutcome::Skipped);
                }
                board.post = Some(StarboardPost { last_known_point_count: inp.points, ..p });
                match action {
                    MessageStatus::Remove => {
                        board.mirror_present = false;
                        board.post = None;
                        (false, AttemptOutcome::Removed)
                    },
                    MessageStatus::Send(full) | MessageStatus::Update(full) => {
                        if inp.cooldown_active {
                            (false, AttemptOutcome::Deferred)
                        } else if !board.mirror_present {
                            board.post = None;
                            (true, AttemptOutcome::MissingOnEdit)
                        } else {
                            (true, AttemptOutcome::Edited { full })
                        }
                    },
                    MessageStatus::NoOp => (false, AttemptOutcome::Nothing),
                }
            },
            None => {
                match action {
                    MessageStatus::Send(_) => {
                        board.post = Some(
                            StarboardPost {
                                message_id: self.message_id,
                                starboard_message_id: inp.new_mirror_id,
                                starboard_id: self.config.starboard_id,
                                last_known_point_count: inp.points,
                            },
                        );
                        board.mirror_present = true;
                        (false, AttemptOutcome::Sent { mirror_id: inp.new_mirror_id })
                    },
                    _ => (false, AttemptOutcome::Nothing),
                }
            },
        }
    }

    /// Refresh this starboard's view of the message: run the apply pass,
    /// and run it once more when the first pass asked for a retry — a
    /// bounded loop, never more than [`MAX_REFRESH_TRIES`] passes.
    pub fn refresh(&self, board: &mut BoardState, inp: &AttemptInputs, force: bool) -> (r: Vec<
        AttemptOutcome,
    >)
        ensures
            ({
                let m = refresh_board_model(
                    *old(board),
                    self.config.resolved@,
                    self.config.starboard_id,
                    self.groups@,
                    self.message_id,
                    *inp,
                    force,
                );
                *final(board) == m.0 && r@ == m.1
            }),
            r@.len() <= MAX_REFRESH_TRIES,
    {
        let mut outcomes: Vec<AttemptOutcome> = Vec::new();
        let (retry, outcome) = self.refresh_one(board, inp, force);
        outcomes.push(outcome);
        if retry {
            let (_, outcome2) = self.refresh_one(board, inp, force);
            outcomes.push(outcome2);
            proof {
                assert(outcomes@ =~= seq![outcome, outcome2]);
            }
        } else {
            proof {
                assert(outcomes@ =~= seq![outcome]);
            }
        }
        outcomes
    }
}

/// A refresh of one message across its starboards, with cache-aside slots
/// for the data the coordinator loads on demand.
pub struct RefreshMessage {
    /// The id of the inputted message. May or may not be the original.
    pub message_id: i64,
    /// The stored message row, once loaded.
    pub sql_message: Option<DbMessage>,
    /// The cached platform message, once looked up; the inner `None`
    /// records that the platform no longer has it.
    pub orig_message: Option<Option<CachedMessage>>,
    /// The resolved configurations, once computed.
    pub configs: Option<Vec<ResolvedConfig>>,
}

impl RefreshMessage {
    pub fn new(message_id: i64) -> (r: RefreshMessage)
        ensures
            r.message_id == message_id,
            r.sql_message is None,
            r.orig_message is None,
            r.configs is None,
    {
        RefreshMessage { message_id, sql_message: None, orig_message: None, configs: None }
    }

    /// Pre-fill the resolved configurations.
    pub fn set_configs(&mut self, configs: Vec<ResolvedConfig>)
        ensures
            final(self).configs == Some(configs),
            final(self).message_id == old(self).message_id,
            final(self).sql_message == old(self).sql_message,
            final(self).orig_message == old(self).orig_message,
    {
        self.configs = Some(configs);
    }

    /// Pre-fill the stored message row.
    pub fn set_sql_message(&mut self, message: DbMessage)
        ensures
            final(self).sql_message == Some(message),
            final(self).message_id == old(self).message_id,
            final(self).orig_message == old(self).orig_message,
            final(self).configs == old(self).configs,
    {
        self.sql_message = Some(message);
    }

    /// Pre-fill the platform message (or the fact that it is gone).
    pub fn set_orig_message(&mut self, message: Option<CachedMessage>)
        ensures
            final(self).orig_message == Some(message),
            final(self).message_id == old(self).message_id,
            final(self).sql_message == old(self).sql_message,
            final(self).configs == old(self).configs,
    {
        self.orig_message = Some(message);
    }

    /// Refresh the message: acquire the per-message lock (returning
    /// `false` with nothing done when another refresh holds it — the
    /// system's core concurrency guarantee), run one refresh per enabled,
    /// non-premium-locked starboard, then release the lock.
    ///
    /// `attempts`, `boards` and `inputs` run in parallel: one slot per
    /// applicable starboard.
    pub fn refresh(
        &self,
        locks: &mut MessageLocks,
        attempts: &Vec<RefreshStarboard>,
        boards: &mut Vec<BoardState>,
        inputs: &Vec<AttemptInputs>,
        force: bool,
    ) -> (r: bool)
        requires
            old(locks).wf(),
            old(boards)@.len() == attempts@.len(),
            inputs@.len() == attempts@.len(),
        ensures
            final(locks).wf(),
            r == !old(locks).held_set().contains(self.message_id),
            // a refresh that could not take the lock changes nothing
            !r ==> *final(boards) == *old(boards) && final(locks).held_set() == old(
                locks,
            ).held_set(),
            // one that could runs every enabled, unlocked attempt and
            // releases the lock
            r ==> final(locks).held_set() == old(locks).held_set().remove(self.message_id)
                && final(boards)@.len() == old(boards)@.len() && (forall|i: int|
                0 <= i < attempts@.len() ==> (#[trigger] final(boards)@[i]) == (
                if attempts@[i].config.resolved.enabled && !attempts@[i].config.premium_locked {
                    refresh_board_model(
                        old(boards)@[i],
                        attempts@[i].config.resolved@,
                        attempts@[i].config.starboard_id,
                        attempts@[i].groups@,
                        attempts@[i].message_id,
                        inputs@[i],
                        force,
                    ).0
                } else {
                    old(boards)@[i]
                })),
    {
        let acquired = locks.lock(self.message_id);
        if !acquired {
            return false;
        }
        let mut i: usize = 0;
        while i < attempts.len()
            invariant
                boards@.len() == attempts@.len(),
                inputs@.len() == attempts@.len(),
                i <= attempts@.len(),
                forall|j: int|
                    0 <= j < i ==> (#[trigger] boards@[j]) == (
                    if attempts@[j].config.resolved.enabled && !attempts@[j].config.premium_locked {
                        refresh_board_model(
                            old(boards)@[j],
                            attempts@[j].config.resolved@,
                            attempts@[j].config.starboard_id,
                            attempts@[j].groups@,
                            attempts@[j].message_id,
                            inputs@[j],
                            force,
                        ).0
                    } else {
                        old(boards)@[j]
                    }),
                forall|j: int| i <= j < attempts@.len() ==> (#[trigger] boards@[j]) == old(
                    boards,
                )@[j],
            decreases attempts@.len() - i,
        {
            let attempt = &attempts[i];
            if attempt.config.resolved.enabled && !attempt.config.premium_locked {
                let mut b = boards[i];
                let _ = attempt.refresh(&mut b, &inputs[i], force);
                boards.set(i, b);
            }
            i += 1;
        }
        locks.unlock(self.message_id);
        true
    }
}

/// The emojis a fresh post is auto-reacted with: the upvote set when
/// upvote auto-reacting is on, then the downvote set when downvote
/// auto-reacting is on. Reacting is best-effort; failures are not
/// reported.
pub fn autoreact_emojis(resolved: &crate::settings::ResolvedSettings) -> (r: Vec<String>)
    ensures
        r@ == (if resolved.autoreact_upvote {
            resolved.upvote_emojis@
        } else {
            Seq::<String>::empty()
        }) + (if resolved.autoreact_downvote {
            resolved.downvote_emojis@
        } else {
            Seq::<String>::empty()
        }),
{
    let mut r: Vec<String> = Vec::new();
    if resolved.autoreact_upvote {
        let mut ups = crate::util::clone_string_vec(&resolved.upvote_emojis);
        r.append(&mut ups);
    }
    if resolved.autoreact_downvote {
        let mut downs = crate::util::clone_string_vec(&resolved.downvote_emojis);
        r.append(&mut downs);
    }
    proof {
        assert(r@ =~= (if resolved.autoreact_upvote {
            resolved.upvote_emojis@
        } else {
            Seq::<String>::empty()
        }) + (if resolved.autoreact_downvote {
            resolved.downvote_emojis@
        } else {
            Seq::<String>::empty()
        }));
    }
    r
}

/// Law: an edit that finds the mirror missing resends within the same
/// refresh call. When a posted message still qualifies (an `Update` or
/// `Send` decision, no cooldown, and a reason to act) but its mirror is
/// gone, the refresh drops the stale record in the first pass and sends a
/// fresh mirror in the second — two passes in all, never more.
pub proof fn lemma_resend_on_missing_post(
    board: BoardState,
    cfg: SettingsModel,
    starboard_id: i32,
    groups: Seq<FilterGroup>,
    message_id: i64,
    inp: AttemptInputs,
    force: bool,
    p: StarboardPost,
)
    requires
        board.post == Some(p),
        !board.mirror_present,
        // a reason to act: the count changed or the refresh was forced
        force || inp.points != p.last_known_point_count,
        !inp.cooldown_active,
        // the message still qualifies
        !inp.facts.trashed,
        !inp.facts.frozen,
        !inp.source_missing,
        inp.facts.forced || (crate::status::passes_requirements(cfg, inp.facts, groups) && (
        inp.points as int) >= (cfg.required as int)),
    ensures
        ({
            let (after, outcomes) = refresh_board_model(
                board,
                cfg,
                starboard_id,
                groups,
                message_id,
                inp,
                force,
            );
            &&& outcomes == seq![
                AttemptOutcome::MissingOnEdit,
                AttemptOutcome::Sent { mirror_id: inp.new_mirror_id },
            ]
            &&& after.post == Some(
                StarboardPost {
                    message_id,
                    starboard_message_id: inp.new_mirror_id,
                    starboard_id,
                    last_known_point_count: inp.points,
                },
            )
            &&& after.mirror_present
            &&& outcomes.len() <= MAX_REFRESH_TRIES
        }),
{
}

/// Law: hysteresis holds at the apply level. A posted message whose fresh
/// count sits strictly between the de-list and post thresholds, with every
/// other check passing and its mirror still present, is kept: the refresh
/// edits it or leaves it alone, never removes it, and the record survives
/// on the same mirror.
pub proof fn lemma_hysteresis_keeps_posted_applied(
    board: BoardState,
    cfg: SettingsModel,
    starboard_id: i32,
    groups: Seq<FilterGroup>,
    message_id: i64,
    inp: AttemptInputs,
    force: bool,
    p: StarboardPost,
)
    requires
        board.post == Some(p),
        board.mirror_present,
        !inp.cooldown_active,
        !inp.facts.trashed,
        !inp.facts.frozen,
        !inp.facts.forced,
        !inp.source_missing,
        crate::status::passes_requirements(cfg, inp.facts, groups),
        (cfg.required_remove as int) < (inp.points as int) && (inp.points as int) < (
        cfg.required as int),
    ensures
        ({
            let (after, outcomes) = refresh_board_model(
                board,
                cfg,
                starboard_id,
                groups,
                message_id,
                inp,
                force,
            );
            &&& after.post matches Some(q) && q.starboard_message_id == p.starboard_message_id
                && q.message_id == p.message_id && q.starboard_id == p.starboard_id
            &&& after.mirror_present
            &&& forall|k: int| 0 <= k < outcomes.len() ==> outcomes[k] != AttemptOutcome::Removed
        }),
{
}

/// Law: the de-list threshold removes at the apply level. A posted message
/// whose fresh count is at or below the de-list threshold — with a reason
/// to act (the count changed or the refresh was forced), every other check
/// passing and the thresholds in their validated order — has its mirror
/// deleted and then its record dropped, in one pass.
pub proof fn lemma_delist_removes_applied(
    board: BoardState,
    cfg: SettingsModel,
    starboard_id: i32,
    groups: Seq<FilterGroup>,
    message_id: i64,
    inp: AttemptInputs,
    force: bool,
    p: StarboardPost,
)
    requires
        board.post == Some(p),
        force || inp.points != p.last_known_point_count,
        !inp.facts.trashed,
        !inp.facts.frozen,
        !inp.facts.forced,
        !inp.source_missing,
        crate::status::passes_requirements(cfg, inp.facts, groups),
        (cfg.required_remove as int) < (cfg.required as int),
        (inp.points as int) <= (cfg.required_remove as int),
    ensures
        ({
            let (after, outcomes) = refresh_board_model(
                board,
                cfg,
                starboard_id,
                groups,
                message_id,
                inp,
                force,
            );
            &&& after.post is None
            &&& !after.mirror_present
            &&& outcomes == seq![AttemptOutcome::Removed]
        }),
{
}

/// Law: trashing outranks forcing at the apply level. A posted message
/// that is both pinned to the starboard and trashed is taken down — mirror
/// first, then its record — whatever its vote count, given a reason to act.
pub proof fn lemma_trashed_outranks_forced_applied(
    board: BoardState,
    cfg: SettingsModel,
    starboard_id: i32,
    groups: Seq<FilterGroup>,
    message_id: i64,
    inp: AttemptInputs,
    force: bool,
    p: StarboardPost,
)
    requires
        board.post == Some(p),
        force || inp.points != p.last_known_point_count,
        inp.facts.forced,
        inp.facts.trashed,
    ensures
        ({
            let (after, outcomes) = refresh_board_model(
                board,
                cfg,
                starboard_id,
                groups,
                message_id,
                inp,
                force,
            );
            &&& after.post is None
            &&& !after.mirror_present
            &&& outcomes == seq![AttemptOutcome::Removed]
        }),
{
}

} // verus!
