//! The status engine: decision rules, hysteresis, forcing, filters.

use starboard_core::filters::{Filter, FilterGroup, FilterRule};
use starboard_core::messages::MessageFacts;
use starboard_core::settings::ResolvedSettings;
use starboard_core::status::{decide, MessageStatus};

fn base_settings(required: i16, required_remove: i16) -> ResolvedSettings {
    ResolvedSettings {
        enabled: true,
        required,
        required_remove,
        upvote_emojis: vec!["star".to_string()],
        downvote_emojis: vec![],
        autoreact_upvote: false,
        autoreact_downvote: false,
        self_vote: false,
        allow_bots: true,
        require_image: false,
        older_than: 0,
        newer_than: 0,
        matches: None,
        not_matches: None,
    }
}

fn plain_facts() -> MessageFacts {
    MessageFacts {
        trashed: false,
        frozen: false,
        forced: false,
        is_nsfw: false,
        author_is_bot: false,
        has_image: false,
        age_seconds: 100,
        content_matches: false,
    }
}

#[test]
fn decide_is_idempotent() {
    let cfg = base_settings(5, 2);
    let f = plain_facts();
    let groups: Vec<FilterGroup> = vec![];
    let a = decide(&cfg, &f, &groups, 4, false, Some(2), false);
    let b = decide(&cfg, &f, &groups, 4, false, Some(2), false);
    assert_eq!(a, b);
}

#[test]
fn hysteresis_posted_between_thresholds_stays() {
    let cfg = base_settings(5, 2);
    let f = plain_facts();
    let groups: Vec<FilterGroup> = vec![];
    // posted at count 3 with a changed point count: patched, not removed
    let r = decide(&cfg, &f, &groups, 3, false, Some(7), false);
    assert_eq!(r, MessageStatus::Update(false));
    // posted at count 3 with an unchanged count and no force: nothing
    let r = decide(&cfg, &f, &groups, 3, false, Some(3), false);
    assert_eq!(r, MessageStatus::NoOp);
}

#[test]
fn hysteresis_posted_at_remove_threshold_is_removed() {
    let cfg = base_settings(5, 2);
    let f = plain_facts();
    let groups: Vec<FilterGroup> = vec![];
    let r = decide(&cfg, &f, &groups, 2, false, Some(3), false);
    assert_eq!(r, MessageStatus::Remove);
}

#[test]
fn hysteresis_unposted_below_threshold_stays_absent() {
    let cfg = base_settings(5, 2);
    let f = plain_facts();
    let groups: Vec<FilterGroup> = vec![];
    let r = decide(&cfg, &f, &groups, 4, false, None, false);
    assert_eq!(r, MessageStatus::NoOp);
}

#[test]
fn hysteresis_unposted_at_threshold_is_sent() {
    let cfg = base_settings(5, 2);
    let f = plain_facts();
    let groups: Vec<FilterGroup> = vec![];
    let r = decide(&cfg, &f, &groups, 5, false, None, false);
    assert_eq!(r, MessageStatus::Send(true));
}

#[test]
fn forced_wins_over_votes_and_filters() {
    let mut cfg = base_settings(5, 2);
    cfg.require_image = true;  // a failing check
    let mut f = plain_facts();
    f.forced = true;
    f.has_image = false;
    let groups: Vec<FilterGroup> = vec![];
    // zero votes, failing image check, but forced: still sent
    let r = decide(&cfg, &f, &groups, 0, false, None, false);
    assert_eq!(r, MessageStatus::Send(true));
    // already posted: updated in full
    let r = decide(&cfg, &f, &groups, 0, false, Some(0), false);
    assert_eq!(r, MessageStatus::Update(true));
}

#[test]
fn forced_but_trashed_is_removed() {
    let cfg = base_settings(5, 2);
    let mut f = plain_facts();
    f.forced = true;
    f.trashed = true;
    let groups: Vec<FilterGroup> = vec![];
    let r = decide(&cfg, &f, &groups, 0, false, Some(0), false);
    assert_eq!(r, MessageStatus::Remove);
    // trashed and unposted: nothing to take down
    let r = decide(&cfg, &f, &groups, 0, false, None, false);
    assert_eq!(r, MessageStatus::NoOp);
}

#[test]
fn frozen_message_is_excluded_from_transitions() {
    let cfg = base_settings(5, 2);
    let mut f = plain_facts();
    f.frozen = true;
    let groups: Vec<FilterGroup> = vec![];
    assert_eq!(decide(&cfg, &f, &groups, 50, false, Some(1), false), MessageStatus::Remove);
    assert_eq!(decide(&cfg, &f, &groups, 50, false, None, false), MessageStatus::NoOp);
}

#[test]
fn missing_source_is_removed() {
    let cfg = base_settings(5, 2);
    let f = plain_facts();
    let groups: Vec<FilterGroup> = vec![];
    assert_eq!(decide(&cfg, &f, &groups, 50, true, Some(1), false), MessageStatus::Remove);
}

#[test]
fn failing_checks_remove_a_posted_message() {
    let mut cfg = base_settings(5, 2);
    cfg.allow_bots = false;
    let mut f = plain_facts();
    f.author_is_bot = true;
    let groups: Vec<FilterGroup> = vec![];
    assert_eq!(decide(&cfg, &f, &groups, 50, false, Some(1), false), MessageStatus::Remove);
    assert_eq!(decide(&cfg, &f, &groups, 50, false, None, false), MessageStatus::NoOp);
}

#[test]
fn age_window_checks_gate_posting() {
    let mut cfg = base_settings(1, 0);
    cfg.older_than = 60;
    let f = plain_facts();  // age 100 >= 60: passes
    let groups: Vec<FilterGroup> = vec![];
    assert_eq!(decide(&cfg, &f, &groups, 1, false, None, false), MessageStatus::Send(true));
    let mut young = plain_facts();
    young.age_seconds = 30;
    assert_eq!(decide(&cfg, &young, &groups, 1, false, None, false), MessageStatus::NoOp);
}

#[test]
fn content_pattern_requires_matching_content() {
    let mut cfg = base_settings(1, 0);
    cfg.matches = Some("cat".to_string());
    let mut f = plain_facts();
    f.content_matches = false;
    let groups: Vec<FilterGroup> = vec![];
    assert_eq!(decide(&cfg, &f, &groups, 1, false, None, false), MessageStatus::NoOp);
    f.content_matches = true;
    assert_eq!(decide(&cfg, &f, &groups, 1, false, None, false), MessageStatus::Send(true));
}

#[test]
fn filter_groups_must_all_pass() {
    let cfg = base_settings(1, 0);
    let f = plain_facts();  // human author, no image
    let passing = FilterGroup {
        id: 1,
        guild_id: 9,
        name: "authors".to_string(),
        filters: vec![Filter {
            id: 1,
            filter_group_id: 1,
            position: 1,
            rule: FilterRule::AuthorIsHuman,
        }],
    };
    let failing = FilterGroup {
        id: 2,
        guild_id: 9,
        name: "images".to_string(),
        filters: vec![Filter {
            id: 2,
            filter_group_id: 2,
            position: 1,
            rule: FilterRule::HasImage,
        }],
    };
    let groups = vec![passing];
    assert_eq!(decide(&cfg, &f, &groups, 1, false, None, false), MessageStatus::Send(true));
    let groups = vec![
        FilterGroup {
            id: 1,
            guild_id: 9,
            name: "authors".to_string(),
            filters: vec![Filter {
                id: 1,
                filter_group_id: 1,
                position: 1,
                rule: FilterRule::AuthorIsHuman,
            }],
        },
        failing,
    ];
    assert_eq!(decide(&cfg, &f, &groups, 1, false, None, false), MessageStatus::NoOp);
}

#[test]
fn zero_filter_groups_pass_trivially() {
    let cfg = base_settings(1, 0);
    let f = plain_facts();
    let groups: Vec<FilterGroup> = vec![];
    assert_eq!(decide(&cfg, &f, &groups, 1, false, None, false), MessageStatus::Send(true));
}
