//! The refresh coordinator: locking, the apply passes, the bounded retry,
//! and the stores that back them.

use starboard_core::config::ResolvedConfig;
use starboard_core::coordinator::{
    autoreact_emojis, AttemptInputs, AttemptOutcome, BoardState, RefreshMessage, RefreshStarboard,
};
use starboard_core::cooldown::Cooldowns;
use starboard_core::locks::MessageLocks;
use starboard_core::messages::MessageFacts;
use starboard_core::posts::{PostStore, StarboardPost};
use starboard_core::settings::ResolvedSettings;
use starboard_core::votes::{Vote, VoteStore};

fn settings(required: i16, required_remove: i16) -> ResolvedSettings {
    ResolvedSettings {
        enabled: true,
        required,
        required_remove,
        upvote_emojis: vec!["star".to_string()],
        downvote_emojis: vec!["down".to_string()],
        autoreact_upvote: true,
        autoreact_downvote: false,
        self_vote: false,
        allow_bots: true,
        require_image: false,
        older_than: 0,
        newer_than: 0,
        matches: None,
        not_matches: None,
    }
}

fn config(starboard_id: i32) -> ResolvedConfig {
    ResolvedConfig {
        starboard_id,
        starboard_channel_id: 500,
        premium_locked: false,
        resolved: settings(5, 2),
    }
}

fn plain_facts() -> MessageFacts {
    MessageFacts {
        trashed: false,
        frozen: false,
        forced: false,
        is_nsfw: false,
        author_is_bot: false,
        has_image: false,
        age_seconds: 100,
        content_matches: false,
    }
}

fn inputs(points: i32) -> AttemptInputs {
    AttemptInputs {
        points,
        facts: plain_facts(),
        source_missing: false,
        cooldown_active: false,
        new_mirror_id: 9000,
    }
}

#[test]
fn lock_is_insert_if_absent() {
    let mut locks = MessageLocks::new();
    assert!(locks.lock(42));
    assert!(locks.is_held(42));
    // the overlapping second acquisition fails: only one refresh proceeds
    assert!(!locks.lock(42));
    locks.unlock(42);
    assert!(!locks.is_held(42));
    assert!(locks.lock(42));
}

#[test]
fn unposted_qualifying_message_is_sent() {
    let attempt = RefreshStarboard::new(100, config(1), vec![]);
    let mut board = BoardState { post: None, mirror_present: false };
    let outcomes = attempt.refresh(&mut board, &inputs(5), false);
    assert_eq!(outcomes, vec![AttemptOutcome::Sent { mirror_id: 9000 }]);
    let post = board.post.expect("a record should exist after the send");
    assert_eq!(post.message_id, 100);
    assert_eq!(post.starboard_message_id, 9000);
    assert_eq!(post.starboard_id, 1);
    assert_eq!(post.last_known_point_count, 5);
    assert!(board.mirror_present);
}

#[test]
fn unchanged_count_skips_the_refresh() {
    let attempt = RefreshStarboard::new(100, config(1), vec![]);
    let post = StarboardPost {
        message_id: 100,
        starboard_message_id: 9000,
        starboard_id: 1,
        last_known_point_count: 5,
    };
    let mut board = BoardState { post: Some(post), mirror_present: true };
    let outcomes = attempt.refresh(&mut board, &inputs(5), false);
    assert_eq!(outcomes, vec![AttemptOutcome::Skipped]);
    assert_eq!(board.post, Some(post));
}

#[test]
fn changed_count_edits_then_settles() {
    let attempt = RefreshStarboard::new(100, config(1), vec![]);
    let post = StarboardPost {
        message_id: 100,
        starboard_message_id: 9000,
        starboard_id: 1,
        last_known_point_count: 5,
    };
    let mut board = BoardState { post: Some(post), mirror_present: true };
    let outcomes = attempt.refresh(&mut board, &inputs(6), false);
    // the edit asks for one re-check, which finds nothing more to do
    assert_eq!(outcomes, vec![
        AttemptOutcome::Edited { full: false },
        AttemptOutcome::Skipped,
    ]);
    assert_eq!(board.post.unwrap().last_known_point_count, 6);
}

#[test]
fn between_thresholds_posted_message_is_kept() {
    // required 5, required_remove 2: a posted message falling to 3 stays
    let attempt = RefreshStarboard::new(100, config(1), vec![]);
    let post = StarboardPost {
        message_id: 100,
        starboard_message_id: 9000,
        starboard_id: 1,
        last_known_point_count: 5,
    };
    let mut board = BoardState { post: Some(post), mirror_present: true };
    let outcomes = attempt.refresh(&mut board, &inputs(3), false);
    assert!(!outcomes.contains(&AttemptOutcome::Removed));
    let kept = board.post.expect("the record survives between the thresholds");
    assert_eq!(kept.starboard_message_id, 9000);
    assert_eq!(kept.last_known_point_count, 3);
    assert!(board.mirror_present);
}

#[test]
fn at_delist_threshold_posted_message_is_removed() {
    // required 5, required_remove 2: a posted message falling to 2 goes
    let attempt = RefreshStarboard::new(100, config(1), vec![]);
    let post = StarboardPost {
        message_id: 100,
        starboard_message_id: 9000,
        starboard_id: 1,
        last_known_point_count: 5,
    };
    let mut board = BoardState { post: Some(post), mirror_present: true };
    let outcomes = attempt.refresh(&mut board, &inputs(2), false);
    assert_eq!(outcomes, vec![AttemptOutcome::Removed]);
    assert!(board.post.is_none());
    assert!(!board.mirror_present);
}

#[test]
fn trashed_outranks_forced_at_apply() {
    let attempt = RefreshStarboard::new(100, config(1), vec![]);
    let post = StarboardPost {
        message_id: 100,
        starboard_message_id: 9000,
        starboard_id: 1,
        last_known_point_count: 5,
    };
    let mut board = BoardState { post: Some(post), mirror_present: true };
    let mut inp = inputs(0);
    inp.facts.forced = true;
    inp.facts.trashed = true;
    let outcomes = attempt.refresh(&mut board, &inp, false);
    assert_eq!(outcomes, vec![AttemptOutcome::Removed]);
    assert!(board.post.is_none());
    assert!(!board.mirror_present);
}

#[test]
fn resend_on_missing_post() {
    let attempt = RefreshStarboard::new(100, config(1), vec![]);
    let post = StarboardPost {
        message_id: 100,
        starboard_message_id: 9000,
        starboard_id: 1,
        last_known_point_count: 5,
    };
    // the mirror is gone, but its record lingers
    let mut board = BoardState { post: Some(post), mirror_present: false };
    let outcomes = attempt.refresh(&mut board, &inputs(6), false);
    // the edit finds nothing, drops the stale record, and the second pass
    // resends — bounded to exactly one extra attempt
    assert_eq!(outcomes, vec![
        AttemptOutcome::MissingOnEdit,
        AttemptOutcome::Sent { mirror_id: 9000 },
    ]);
    assert!(outcomes.len() <= 2);
    let fresh = board.post.expect("the message should be re-recorded");
    assert_eq!(fresh.starboard_message_id, 9000);
    assert_eq!(fresh.last_known_point_count, 6);
    assert!(board.mirror_present);
}

#[test]
fn cooldown_defers_but_updates_the_count() {
    let attempt = RefreshStarboard::new(100, config(1), vec![]);
    let post = StarboardPost {
        message_id: 100,
        starboard_message_id: 9000,
        starboard_id: 1,
        last_known_point_count: 5,
    };
    let mut board = BoardState { post: Some(post), mirror_present: true };
    let mut inp = inputs(7);
    inp.cooldown_active = true;
    let outcomes = attempt.refresh(&mut board, &inp, false);
    assert_eq!(outcomes, vec![AttemptOutcome::Deferred]);
    // the point-count record is still brought up to date, so the next
    // event does not consider it changed again
    assert_eq!(board.post.unwrap().last_known_point_count, 7);
    assert!(board.mirror_present);
}

#[test]
fn trashed_posted_message_is_taken_down() {
    let attempt = RefreshStarboard::new(100, config(1), vec![]);
    let post = StarboardPost {
        message_id: 100,
        starboard_message_id: 9000,
        starboard_id: 1,
        last_known_point_count: 5,
    };
    let mut board = BoardState { post: Some(post), mirror_present: true };
    let mut inp = inputs(6);
    inp.facts.trashed = true;
    let outcomes = attempt.refresh(&mut board, &inp, false);
    assert_eq!(outcomes, vec![AttemptOutcome::Removed]);
    assert!(board.post.is_none());
    assert!(!board.mirror_present);
}

#[test]
fn refresh_message_respects_the_lock() {
    let msg = RefreshMessage::new(100);
    let mut locks = MessageLocks::new();
    assert!(locks.lock(100));  // someone else holds the lock
    let attempts = vec![RefreshStarboard::new(100, config(1), vec![])];
    let mut boards = vec![BoardState { post: None, mirror_present: false }];
    let ins = vec![inputs(5)];
    let attempted = msg.refresh(&mut locks, &attempts, &mut boards, &ins, false);
    assert!(!attempted);
    assert!(boards[0].post.is_none());
}

#[test]
fn refresh_message_fans_out_and_releases_the_lock() {
    let msg = RefreshMessage::new(100);
    let mut locks = MessageLocks::new();
    let mut disabled = config(2);
    disabled.resolved.enabled = false;
    let mut locked_cfg = config(3);
    locked_cfg.premium_locked = true;
    let attempts = vec![
        RefreshStarboard::new(100, config(1), vec![]),
        RefreshStarboard::new(100, disabled, vec![]),
        RefreshStarboard::new(100, locked_cfg, vec![]),
    ];
    let mut boards = vec![
        BoardState { post: None, mirror_present: false },
        BoardState { post: None, mirror_present: false },
        BoardState { post: None, mirror_present: false },
    ];
    let ins = vec![inputs(5), inputs(5), inputs(5)];
    let attempted = msg.refresh(&mut locks, &attempts, &mut boards, &ins, false);
    assert!(attempted);
    // the enabled starboard posted; the disabled and premium-locked ones
    // were skipped
    assert!(boards[0].post.is_some());
    assert!(boards[1].post.is_none());
    assert!(boards[2].post.is_none());
    // the lock was released
    assert!(!locks.is_held(100));
}

#[test]
fn refresh_message_caches_loaded_state() {
    let mut msg = RefreshMessage::new(100);
    assert!(msg.sql_message.is_none());
    assert!(msg.orig_message.is_none());
    assert!(msg.configs.is_none());
    msg.set_configs(vec![config(1)]);
    assert!(msg.configs.is_some());
    msg.set_orig_message(None);
    assert_eq!(msg.orig_message.is_some(), true);
}

#[test]
fn post_store_keeps_one_post_per_pair() {
    let mut posts = PostStore::new();
    let created = posts.create(100, 9000, 1, 5);
    assert_eq!(created.message_id, 100);
    let found = posts.get_by_starboard(100, 1).expect("the pair should be recorded");
    assert_eq!(found.starboard_message_id, 9000);
    // the same message on another starboard is a different post
    posts.create(100, 9001, 2, 5);
    assert_eq!(posts.get_by_starboard(100, 1).unwrap().starboard_message_id, 9000);
    assert_eq!(posts.get_by_starboard(100, 2).unwrap().starboard_message_id, 9001);
    // deleting by mirror id removes exactly that record
    let gone = posts.delete(9000);
    assert!(gone.is_some());
    assert!(posts.get_by_starboard(100, 1).is_none());
    assert!(posts.get_by_starboard(100, 2).is_some());
    assert!(posts.delete(9000).is_none());
}

#[test]
fn post_store_updates_the_point_count() {
    let mut posts = PostStore::new();
    posts.create(100, 9000, 1, 5);
    posts.set_last_point_count(9000, 8);
    assert_eq!(posts.get(9000).unwrap().last_known_point_count, 8);
}

#[test]
fn vote_counts_are_computed_fresh() {
    let mut votes = VoteStore::new();
    votes.add_vote(Vote { message_id: 100, starboard_id: 1, user_id: 7, is_downvote: false });
    votes.add_vote(Vote { message_id: 100, starboard_id: 1, user_id: 8, is_downvote: false });
    votes.add_vote(Vote { message_id: 100, starboard_id: 1, user_id: 9, is_downvote: true });
    assert_eq!(votes.count(100, 1), 1);
    // one vote per (voter, message, starboard): re-voting flips, not adds
    votes.add_vote(Vote { message_id: 100, starboard_id: 1, user_id: 9, is_downvote: false });
    assert_eq!(votes.count(100, 1), 3);
    assert!(votes.remove_vote(7, 100, 1));
    assert_eq!(votes.count(100, 1), 2);
    assert!(!votes.remove_vote(7, 100, 1));
    // other pairs are unaffected
    assert_eq!(votes.count(100, 2), 0);
}

#[test]
fn autoreact_list_follows_the_settings() {
    let mut s = settings(5, 2);
    s.autoreact_upvote = true;
    s.autoreact_downvote = true;
    assert_eq!(autoreact_emojis(&s), vec!["star".to_string(), "down".to_string()]);
    s.autoreact_downvote = false;
    assert_eq!(autoreact_emojis(&s), vec!["star".to_string()]);
    s.autoreact_upvote = false;
    assert_eq!(autoreact_emojis(&s), Vec::<String>::new());
}

#[test]
fn get_starboard_message_finds_the_pair() {
    let mut posts = PostStore::new();
    posts.create(100, 9000, 1, 5);
    let attempt = RefreshStarboard::new(100, config(1), vec![]);
    let found = attempt.get_starboard_message(&posts).expect("pair exists");
    assert_eq!(found.starboard_message_id, 9000);
    let other = RefreshStarboard::new(100, config(2), vec![]);
    assert!(other.get_starboard_message(&posts).is_none());
}

#[test]
fn edit_cooldown_is_a_fixed_window() {
    let mut cd = Cooldowns::new(2, 10);
    // two edits fit in the window
    assert!(cd.trigger(500, 100));
    assert!(cd.trigger(500, 101));
    // the third is refused until the window elapses
    assert!(!cd.trigger(500, 102));
    assert!(cd.trigger(500, 110));
    // other channels have their own windows
    let mut cd = Cooldowns::new(1, 10);
    assert!(cd.trigger(1, 100));
    assert!(cd.trigger(2, 100));
    assert!(!cd.trigger(1, 105));
}
