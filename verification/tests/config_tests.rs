//! Configuration resolution and the settings merge.

use starboard_core::config::{resolve, Starboard};
use starboard_core::settings::{apply_premium_gate, merge, OverrideValues, ResolvedSettings};
use starboard_core::starboard_override::StarboardOverride;

fn base_settings() -> ResolvedSettings {
    ResolvedSettings {
        enabled: true,
        required: 5,
        required_remove: 2,
        upvote_emojis: vec![
            "a".to_string(),
            "b".to_string(),
            "c".to_string(),
            "d".to_string(),
        ],
        downvote_emojis: vec![],
        autoreact_upvote: true,
        autoreact_downvote: false,
        self_vote: false,
        allow_bots: true,
        require_image: false,
        older_than: 0,
        newer_than: 0,
        matches: Some("cat".to_string()),
        not_matches: None,
    }
}

fn empty_patch() -> OverrideValues {
    OverrideValues::empty()
}

fn board(id: i32) -> Starboard {
    Starboard {
        id,
        name: "main".to_string(),
        guild_id: 9,
        channel_id: 500,
        premium_locked: false,
        settings: base_settings(),
    }
}

fn override_row(id: i32, channels: Vec<i64>, patch: OverrideValues) -> StarboardOverride {
    StarboardOverride {
        id,
        guild_id: 9,
        name: format!("override{id}"),
        starboard_id: 1,
        channel_ids: channels,
        overrides: patch,
    }
}

#[test]
fn merge_substitutes_present_fields_only() {
    let base = base_settings();
    let mut patch = empty_patch();
    patch.required = Some(10);
    patch.allow_bots = Some(false);
    let merged = merge(&base, &patch);
    assert_eq!(merged.required, 10);
    assert!(!merged.allow_bots);
    // absent fields inherit
    assert_eq!(merged.required_remove, 2);
    assert_eq!(merged.upvote_emojis.len(), 4);
    assert_eq!(merged.matches.as_deref(), Some("cat"));
}

#[test]
fn premium_gate_disables_premium_fields() {
    let gated = apply_premium_gate(base_settings(), false);
    assert!(gated.matches.is_none());
    assert!(gated.not_matches.is_none());
    // the emoji set is cut down to the free limit
    assert_eq!(gated.upvote_emojis, vec!["a".to_string(), "b".to_string(), "c".to_string()]);
    // a premium guild keeps everything
    let kept = apply_premium_gate(base_settings(), true);
    assert_eq!(kept.matches.as_deref(), Some("cat"));
    assert_eq!(kept.upvote_emojis.len(), 4);
}

#[test]
fn resolve_applies_matching_overrides_by_ascending_id() {
    let sb = board(1);
    let mut late = empty_patch();
    late.required = Some(9);
    let mut early = empty_patch();
    early.required = Some(7);
    early.require_image = Some(true);
    let overrides = vec![
        // listed out of order: id 4 before id 3; id 3 must win last-writer
        // order going up, so id 4's value lands on top
        override_row(4, vec![500], late),
        override_row(3, vec![500], early),
        // this one names another channel and must not apply
        override_row(5, vec![777], {
            let mut p = empty_patch();
            p.required = Some(100);
            p
        }),
    ];
    let cfg = resolve(&sb, overrides, 500, None, true);
    assert_eq!(cfg.starboard_id, 1);
    assert_eq!(cfg.starboard_channel_id, 500);
    // id 3 applied first, then id 4 overwrote required
    assert_eq!(cfg.resolved.required, 9);
    assert!(cfg.resolved.require_image);
}

#[test]
fn resolve_matches_by_parent_category_too() {
    let sb = board(1);
    let mut patch = empty_patch();
    patch.enabled = Some(false);
    let overrides = vec![override_row(3, vec![888], patch)];
    // channel 500 sits in category 888
    let cfg = resolve(&sb, overrides, 500, Some(888), true);
    assert!(!cfg.resolved.enabled);
    // without the category, the override does not apply
    let mut patch = empty_patch();
    patch.enabled = Some(false);
    let overrides = vec![override_row(3, vec![888], patch)];
    let cfg = resolve(&sb, overrides, 500, None, true);
    assert!(cfg.resolved.enabled);
}

#[test]
fn resolve_gates_premium_after_merging() {
    let sb = board(1);
    let mut patch = empty_patch();
    patch.matches = Some("dog".to_string());
    let overrides = vec![override_row(3, vec![500], patch)];
    let cfg = resolve(&sb, overrides, 500, None, false);
    // even an override-set pattern is cleared for a non-premium guild
    assert!(cfg.resolved.matches.is_none());
    assert_eq!(cfg.resolved.upvote_emojis.len(), 3);
}

#[test]
fn resolve_is_deterministic() {
    let sb = board(1);
    let mk = || {
        let mut p = empty_patch();
        p.required = Some(8);
        vec![override_row(3, vec![500], p)]
    };
    let a = resolve(&sb, mk(), 500, None, true);
    let b = resolve(&sb, mk(), 500, None, true);
    assert_eq!(a.resolved.required, b.resolved.required);
    assert_eq!(a.resolved.enabled, b.resolved.enabled);
    assert_eq!(a.resolved.upvote_emojis, b.resolved.upvote_emojis);
}
