//! The admin commands' decision cores and the validation rules.

use starboard_core::commands::{
    CreateFilter, CreateFilterOutcome, CreateOverride, CreateOverrideOutcome, CreateStarboard,
    CreateStarboardOutcome, EditRequirements, EditRequirementsOutcome, RenameOverride,
    RenameOverrideOutcome, SetChannelsOutcome, SetOverrideChannels,
};
use starboard_core::config::Starboard;
use starboard_core::filters::{Filter, FilterRule};
use starboard_core::settings::ResolvedSettings;
use starboard_core::starboard_override::OverrideStore;
use starboard_core::validation::{
    validate_name, validate_pattern, validate_relative_duration, validate_required,
    validate_required_remove, validate_vote_emojis,
};

fn resolved() -> ResolvedSettings {
    ResolvedSettings {
        enabled: true,
        required: 5,
        required_remove: 2,
        upvote_emojis: vec!["star".to_string()],
        downvote_emojis: vec![],
        autoreact_upvote: false,
        autoreact_downvote: false,
        self_vote: false,
        allow_bots: true,
        require_image: false,
        older_than: 0,
        newer_than: 0,
        matches: None,
        not_matches: None,
    }
}

fn board() -> Starboard {
    Starboard {
        id: 1,
        name: "main".to_string(),
        guild_id: 9,
        channel_id: 500,
        premium_locked: false,
        settings: resolved(),
    }
}

#[test]
fn validate_required_bounds() {
    assert_eq!(validate_required(5, 2), Ok(5));
    assert_eq!(validate_required(1, 0), Ok(1));
    assert!(validate_required(0, -5).is_err());  // below the minimum
    assert!(validate_required(501, 2).is_err());  // above the maximum
    assert!(validate_required(2, 2).is_err());  // not above required-remove
}

#[test]
fn validate_required_remove_bounds() {
    assert_eq!(validate_required_remove(2, 5), Ok(2));
    assert_eq!(validate_required_remove(-500, 5), Ok(-500));
    assert!(validate_required_remove(-501, 5).is_err());
    assert!(validate_required_remove(491, 500).is_err());
    assert!(validate_required_remove(5, 5).is_err());  // not below required
}

#[test]
fn validate_relative_duration_rules() {
    assert!(validate_relative_duration(0, 0).is_ok());
    assert!(validate_relative_duration(3600, 60).is_ok());
    assert!(validate_relative_duration(-1, 0).is_err());
    assert!(validate_relative_duration(0, 604_801).is_err());
    // contradictory window: older than an hour but newer than a minute
    assert!(validate_relative_duration(60, 3600).is_err());
}

#[test]
fn validate_vote_emojis_rules() {
    let up = vec!["a".to_string(), "b".to_string()];
    let down = vec!["c".to_string()];
    assert!(validate_vote_emojis(&up, &down, false).is_ok());
    // an emoji on both sides is rejected
    let both = vec!["a".to_string()];
    assert!(validate_vote_emojis(&up, &both, false).is_err());
    // over the free limit of three, fine for premium
    let four = vec!["a".into(), "b".into(), "c".into(), "d".into()];
    let none: Vec<String> = vec![];
    assert!(validate_vote_emojis(&four, &none, false).is_err());
    assert!(validate_vote_emojis(&four, &none, true).is_ok());
}

#[test]
fn validate_name_length() {
    assert!(validate_name("abc").is_ok());
    assert!(validate_name("ab").is_err());
    assert!(validate_name(&"x".repeat(32)).is_ok());
    assert!(validate_name(&"x".repeat(33)).is_err());
}

#[test]
fn validate_pattern_needs_premium() {
    assert!(validate_pattern(true).is_ok());
    assert!(validate_pattern(false).is_err());
}

#[test]
fn create_override_outcomes() {
    let mut store = OverrideStore::new();
    let sb = board();
    let cmd = CreateOverride { name: "xy".to_string(), starboard: "main".to_string() };
    assert_eq!(
        cmd.callback(&mut store, Some(&sb), 9, 1),
        CreateOverrideOutcome::InvalidName
    );
    let cmd = CreateOverride { name: "alpha".to_string(), starboard: "main".to_string() };
    assert_eq!(cmd.callback(&mut store, None, 9, 1), CreateOverrideOutcome::NoSuchStarboard);
    assert_eq!(cmd.callback(&mut store, Some(&sb), 9, 1), CreateOverrideOutcome::Created);
    assert_eq!(cmd.callback(&mut store, Some(&sb), 9, 2), CreateOverrideOutcome::NameTaken);
    let cmd2 = CreateOverride { name: "beta".to_string(), starboard: "main".to_string() };
    assert_eq!(cmd2.callback(&mut store, Some(&sb), 9, 2), CreateOverrideOutcome::Created);
    // the starboard is at its override cap of two
    let cmd3 = CreateOverride { name: "gamma".to_string(), starboard: "main".to_string() };
    assert_eq!(
        cmd3.callback(&mut store, Some(&sb), 9, 3),
        CreateOverrideOutcome::TooManyOverrides
    );
}

#[test]
fn rename_override_outcomes() {
    let mut store = OverrideStore::new();
    store.create(1, 9, &"alpha".to_string(), 1);
    let cmd = RenameOverride { old_name: "alpha".to_string(), name: "xy".to_string() };
    assert_eq!(cmd.callback(&mut store, 9), RenameOverrideOutcome::InvalidName);
    let cmd = RenameOverride { old_name: "missing".to_string(), name: "gamma".to_string() };
    assert_eq!(cmd.callback(&mut store, 9), RenameOverrideOutcome::NoSuchOverride);
    let cmd = RenameOverride { old_name: "alpha".to_string(), name: "gamma".to_string() };
    assert_eq!(cmd.callback(&mut store, 9), RenameOverrideOutcome::Renamed);
    assert!(store.get(9, &"gamma".to_string()).is_some());
}

#[test]
fn set_override_channels_outcomes() {
    let mut store = OverrideStore::new();
    store.create(1, 9, &"alpha".to_string(), 1);
    let cmd = SetOverrideChannels { name: "alpha".to_string(), channels: vec![1, 2, 3] };
    assert_eq!(cmd.callback(&mut store, 9), SetChannelsOutcome::TooManyChannels);
    let cmd = SetOverrideChannels { name: "missing".to_string(), channels: vec![1] };
    assert_eq!(cmd.callback(&mut store, 9), SetChannelsOutcome::NoSuchOverride);
    let cmd = SetOverrideChannels { name: "alpha".to_string(), channels: vec![500, 600] };
    assert_eq!(cmd.callback(&mut store, 9), SetChannelsOutcome::Done);
    assert_eq!(store.get(9, &"alpha".to_string()).unwrap().channel_ids, vec![500, 600]);
}

#[test]
fn edit_requirements_validation_cascade() {
    let mut store = OverrideStore::new();
    store.create(1, 9, &"alpha".to_string(), 1);
    let blank = EditRequirements {
        name: "alpha".to_string(),
        required: None,
        required_remove: None,
        upvote_emojis: None,
        downvote_emojis: None,
        self_vote: None,
        allow_bots: None,
        require_image: None,
        older_than: None,
        newer_than: None,
        matches: None,
        not_matches: None,
    };
    let missing = EditRequirements { name: "missing".to_string(), ..blank_clone(&blank) };
    assert_eq!(
        missing.callback(&mut store, 9, &resolved(), false),
        EditRequirementsOutcome::NoSuchOverride
    );
    let bad_required = EditRequirements { required: Some(0), ..blank_clone(&blank) };
    assert_eq!(
        bad_required.callback(&mut store, 9, &resolved(), false),
        EditRequirementsOutcome::BadRequired
    );
    let bad_remove = EditRequirements { required_remove: Some(7), ..blank_clone(&blank) };
    assert_eq!(
        bad_remove.callback(&mut store, 9, &resolved(), false),
        EditRequirementsOutcome::BadRequiredRemove
    );
    let bad_emojis = EditRequirements {
        upvote_emojis: Some(vec!["a".into(), "b".into(), "c".into(), "d".into()]),
        ..blank_clone(&blank)
    };
    assert_eq!(
        bad_emojis.callback(&mut store, 9, &resolved(), false),
        EditRequirementsOutcome::BadVoteEmojis
    );
    let bad_window = EditRequirements {
        older_than: Some(3600),
        newer_than: Some(60),
        ..blank_clone(&blank)
    };
    assert_eq!(
        bad_window.callback(&mut store, 9, &resolved(), false),
        EditRequirementsOutcome::BadTimeWindow
    );
    let pattern = EditRequirements { matches: Some("cat".to_string()), ..blank_clone(&blank) };
    assert_eq!(
        pattern.callback(&mut store, 9, &resolved(), false),
        EditRequirementsOutcome::PatternNeedsPremium
    );
    // none of the failures touched the stored patch
    assert_eq!(store.get(9, &"alpha".to_string()).unwrap().overrides.required, None);
}

fn blank_clone(b: &EditRequirements) -> EditRequirements {
    EditRequirements {
        name: b.name.clone(),
        required: b.required,
        required_remove: b.required_remove,
        upvote_emojis: b.upvote_emojis.clone(),
        downvote_emojis: b.downvote_emojis.clone(),
        self_vote: b.self_vote,
        allow_bots: b.allow_bots,
        require_image: b.require_image,
        older_than: b.older_than,
        newer_than: b.newer_than,
        matches: b.matches.clone(),
        not_matches: b.not_matches.clone(),
    }
}

#[test]
fn edit_requirements_updates_the_patch() {
    let mut store = OverrideStore::new();
    store.create(1, 9, &"alpha".to_string(), 1);
    let edit = EditRequirements {
        name: "alpha".to_string(),
        required: Some(10),
        required_remove: Some(-3),
        upvote_emojis: Some(vec!["up".to_string()]),
        downvote_emojis: None,
        self_vote: Some(true),
        allow_bots: None,
        require_image: Some(true),
        older_than: Some(60),
        newer_than: Some(3600),
        matches: Some("cat".to_string()),
        not_matches: None,
    };
    assert_eq!(
        edit.callback(&mut store, 9, &resolved(), true),
        EditRequirementsOutcome::Updated
    );
    let stored = store.get(9, &"alpha".to_string()).unwrap().overrides;
    assert_eq!(stored.required, Some(10));
    assert_eq!(stored.required_remove, Some(-3));
    assert_eq!(stored.upvote_emojis, Some(vec!["up".to_string()]));
    assert_eq!(stored.downvote_emojis, None);
    assert_eq!(stored.self_vote, Some(true));
    assert_eq!(stored.allow_bots, None);
    assert_eq!(stored.require_image, Some(true));
    assert_eq!(stored.older_than, Some(60));
    assert_eq!(stored.newer_than, Some(3600));
    assert_eq!(stored.matches, Some("cat".to_string()));
    assert_eq!(stored.not_matches, None);
}

#[test]
fn create_filter_inserts_at_the_asked_position() {
    let cmd = CreateFilter { group: "g".to_string(), position: Some(1) };
    let mut filters = vec![
        Filter { id: 1, filter_group_id: 5, position: 1, rule: FilterRule::AuthorIsHuman },
        Filter { id: 2, filter_group_id: 5, position: 2, rule: FilterRule::HasImage },
    ];
    let r = cmd.callback(&mut filters, 5, 3, FilterRule::NotNsfw);
    assert_eq!(r, CreateFilterOutcome::Created);
    // the existing filters were renumbered to make room at the top
    assert_eq!(filters[0].position, 2);
    assert_eq!(filters[1].position, 3);
    let added = filters[2];
    assert_eq!(added.position, 1);
    assert_eq!(added.id, 3);
    assert_eq!(added.filter_group_id, 5);
}

#[test]
fn create_filter_appends_without_a_position() {
    let cmd = CreateFilter { group: "g".to_string(), position: None };
    let mut filters = vec![
        Filter { id: 1, filter_group_id: 5, position: 1, rule: FilterRule::AuthorIsHuman },
    ];
    let r = cmd.callback(&mut filters, 5, 2, FilterRule::HasImage);
    assert_eq!(r, CreateFilterOutcome::Created);
    assert_eq!(filters[1].position, 2);
    // at the cap, nothing is added
    let mut full: Vec<Filter> = (0..10)
        .map(|i| Filter {
            id: i,
            filter_group_id: 5,
            position: (i + 1) as i16,
            rule: FilterRule::AuthorIsHuman,
        })
        .collect();
    let r = cmd.callback(&mut full, 5, 99, FilterRule::HasImage);
    assert_eq!(r, CreateFilterOutcome::TooManyFilters);
    assert_eq!(full.len(), 10);
}

#[test]
fn create_starboard_limits() {
    let cmd = CreateStarboard { name: "main".to_string(), channel_id: 500 };
    assert_eq!(cmd.callback(0, false), CreateStarboardOutcome::Allowed);
    assert_eq!(cmd.callback(3, false), CreateStarboardOutcome::TooManyStarboards);
    assert_eq!(cmd.callback(3, true), CreateStarboardOutcome::Allowed);
    assert_eq!(cmd.callback(10, true), CreateStarboardOutcome::TooManyStarboards);
    let short = CreateStarboard { name: "xy".to_string(), channel_id: 500 };
    assert_eq!(short.callback(0, false), CreateStarboardOutcome::InvalidName);
}
