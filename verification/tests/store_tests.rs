//! The message, override and permission-role stores.

use starboard_core::filters::StarboardFilterGroupStore;
use starboard_core::messages::{DbMessage, MessageStore};
use starboard_core::original_message_id;
use starboard_core::permroles::{PermRoleStarboard, PermRoleStarboardStore, PermRoleStore};
use starboard_core::posts::PostStore;
use starboard_core::settings::OverrideValues;
use starboard_core::starboard_override::{OverrideStore, RenameOutcome, StarboardOverride};

#[test]
fn message_create_is_insert_if_absent() {
    let mut store = MessageStore::new();
    let created = store.create(100, 9, 500, 2, false).expect("first create succeeds");
    assert_eq!(created.message_id, 100);
    assert!(created.forced_to.is_empty());
    assert!(!created.trashed);
    assert!(!created.frozen);
    // a second create for the same message does nothing
    assert!(store.create(100, 9, 500, 2, false).is_none());
    assert!(store.get(100).is_some());
    assert!(store.get(101).is_none());
}

#[test]
fn message_flags_are_updated_in_place() {
    let mut store = MessageStore::new();
    store.create(100, 9, 500, 2, false);
    let frozen = store.set_freeze(100, true).expect("message exists");
    assert!(frozen.frozen);
    let forced = store.set_forced(100, &vec![1, 2]).expect("message exists");
    assert_eq!(forced.forced_to, vec![1, 2]);
    let trashed = store.set_trashed(100, true, Some("spam".to_string())).expect("exists");
    assert!(trashed.trashed);
    assert_eq!(trashed.trash_reason.as_deref(), Some("spam"));
    // all three flags live on the same row
    let row = store.get(100).unwrap();
    assert!(row.frozen && row.trashed);
    assert_eq!(row.forced_to, vec![1, 2]);
    // untracked messages are reported
    assert!(store.set_freeze(999, true).is_none());
}

#[test]
fn list_trashed_filters_by_guild() {
    let mut store = MessageStore::new();
    store.create(100, 9, 500, 2, false);
    store.create(101, 9, 500, 2, false);
    store.create(102, 8, 500, 2, false);
    store.set_trashed(100, true, None);
    store.set_trashed(102, true, None);
    let listed = store.list_trashed(9);
    assert_eq!(listed.len(), 1);
    assert_eq!(listed[0].message_id, 100);
}

#[test]
fn list_trashed_is_ascending_by_message_id() {
    let mut store = MessageStore::new();
    // tracked out of id order
    store.create(102, 9, 500, 2, false);
    store.create(100, 9, 500, 2, false);
    store.create(101, 9, 500, 2, false);
    store.set_trashed(102, true, None);
    store.set_trashed(100, true, None);
    store.set_trashed(101, true, None);
    let listed = store.list_trashed(9);
    let ids: Vec<i64> = listed.iter().map(|m| m.message_id).collect();
    assert_eq!(ids, vec![100, 101, 102]);
}

#[test]
fn get_original_follows_the_mirror_back() {
    let mut store = MessageStore::new();
    store.create(100, 9, 500, 2, false);
    let mut posts = PostStore::new();
    posts.create(100, 9000, 1, 5);
    // asking for the mirror's id lands on the original message
    let row = store.get_original(&posts, 9000).expect("found through the mirror");
    assert_eq!(row.message_id, 100);
    // asking for the original id works directly
    let row = store.get_original(&posts, 100).expect("found directly");
    assert_eq!(row.message_id, 100);
    assert_eq!(original_message_id(Some(100), 9000), 100);
    assert_eq!(original_message_id(None, 100), 100);
}

#[test]
fn is_forced_checks_the_starboard_list() {
    let row = DbMessage {
        message_id: 100,
        guild_id: 9,
        channel_id: 500,
        author_id: 2,
        is_nsfw: false,
        forced_to: vec![1, 3],
        trashed: false,
        trash_reason: None,
        frozen: false,
    };
    assert!(row.is_forced(1));
    assert!(!row.is_forced(2));
}

fn patch() -> OverrideValues {
    OverrideValues::empty()
}

#[test]
fn override_create_and_duplicate_names() {
    let mut store = OverrideStore::new();
    let created = store.create(1, 9, &"alpha".to_string(), 1).expect("name free");
    assert_eq!(created.name, "alpha");
    assert!(created.channel_ids.is_empty());
    // the name is taken within the guild
    assert!(store.create(2, 9, &"alpha".to_string(), 1).is_none());
    // but free in another guild
    assert!(store.create(3, 8, &"alpha".to_string(), 1).is_some());
}

#[test]
fn override_rename_outcomes() {
    let mut store = OverrideStore::new();
    store.create(1, 9, &"alpha".to_string(), 1);
    store.create(2, 9, &"beta".to_string(), 1);
    assert_eq!(
        store.rename(9, &"missing".to_string(), &"gamma".to_string()),
        RenameOutcome::NoSuchOverride
    );
    assert_eq!(
        store.rename(9, &"alpha".to_string(), &"beta".to_string()),
        RenameOutcome::NameTaken
    );
    assert_eq!(
        store.rename(9, &"alpha".to_string(), &"gamma".to_string()),
        RenameOutcome::Renamed
    );
    assert!(store.get(9, &"gamma".to_string()).is_some());
    assert!(store.get(9, &"alpha".to_string()).is_none());
}

#[test]
fn override_channels_and_settings_updates() {
    let mut store = OverrideStore::new();
    store.create(1, 9, &"alpha".to_string(), 1);
    let updated = store.set_channels(9, &"alpha".to_string(), &vec![500, 600]).expect("exists");
    assert_eq!(updated.channel_ids, vec![500, 600]);
    let mut p = patch();
    p.required = Some(10);
    let updated = store.update_settings(1, p).expect("id exists");
    assert_eq!(updated.overrides.required, Some(10));
    assert_eq!(store.get(9, &"alpha".to_string()).unwrap().overrides.required, Some(10));
    assert!(store.update_settings(77, patch()).is_none());
    // get_overrides hands the patch back
    let row = store.get(9, &"alpha".to_string()).unwrap();
    assert_eq!(row.get_overrides().required, Some(10));
}

#[test]
fn override_lists_and_counts() {
    let mut store = OverrideStore::new();
    store.create(1, 9, &"alpha".to_string(), 1);
    store.create(2, 9, &"beta".to_string(), 2);
    store.create(3, 8, &"gamma".to_string(), 1);
    store.set_channels(9, &"alpha".to_string(), &vec![500]);
    assert_eq!(store.list_by_guild(9).len(), 2);
    assert_eq!(store.list_by_starboard(1).len(), 2);
    assert_eq!(store.count_by_starboard(1), 2);
    assert_eq!(store.count_by_starboard(3), 0);
    let touching = store.list_by_starboard_and_channels(1, &vec![500, 999]);
    assert_eq!(touching.len(), 1);
    assert_eq!(touching[0].name, "alpha");
    let touching = store.list_by_starboard_and_channels(1, &vec![999]);
    assert!(touching.is_empty());
}

#[test]
fn override_delete_returns_the_row() {
    let mut store = OverrideStore::new();
    store.create(1, 9, &"alpha".to_string(), 1);
    let gone = store.delete(9, &"alpha".to_string()).expect("existed");
    assert_eq!(gone.name, "alpha");
    assert!(store.delete(9, &"alpha".to_string()).is_none());
}

#[test]
fn validate_channels_enforces_the_limit() {
    assert!(StarboardOverride::validate_channels(&[500, 600]).is_ok());
    let err = StarboardOverride::validate_channels(&[500, 600, 700]).unwrap_err();
    assert!(err.contains("2 channels"));
}

#[test]
fn permrole_crud() {
    let mut store = PermRoleStore::new();
    let mut created = store.create(11, 9);
    assert!(created.give_votes.is_none());
    created.give_votes = Some(false);
    let updated = store.update(created).expect("role exists");
    assert_eq!(updated.give_votes, Some(false));
    assert_eq!(store.get(11).unwrap().give_votes, Some(false));
    store.create(12, 9);
    store.create(13, 8);
    assert_eq!(store.list_by_guild(9).len(), 2);
    assert!(store.delete(11).is_some());
    assert!(store.get(11).is_none());
    assert!(store.delete(11).is_none());
}

#[test]
fn permrole_starboard_update_deletes_empty_rows() {
    let mut store = PermRoleStarboardStore::new();
    assert!(store.create(11, 1).is_some());
    // a second create for the pair does nothing
    assert!(store.create(11, 1).is_none());
    let row = PermRoleStarboard {
        permrole_id: 11,
        starboard_id: 1,
        give_votes: Some(true),
        receive_votes: None,
    };
    assert!(store.update(row).is_some());
    assert_eq!(store.get(11, 1).unwrap().give_votes, Some(true));
    // an update with no opinions left deletes the row instead
    let empty = PermRoleStarboard {
        permrole_id: 11,
        starboard_id: 1,
        give_votes: None,
        receive_votes: None,
    };
    store.update(empty);
    assert!(store.get(11, 1).is_none());
    assert_eq!(store.list_by_permrole(11).len(), 0);
}

#[test]
fn filter_group_links_are_per_pair() {
    let mut store = StarboardFilterGroupStore::new();
    assert!(store.create(5, 1).is_some());
    // the pair is already linked
    assert!(store.create(5, 1).is_none());
    store.create(6, 1);
    store.create(5, 2);
    let linked = store.list_by_starboard(1);
    assert_eq!(linked.len(), 2);
    assert_eq!(linked[0].filter_group_id, 5);
    assert_eq!(linked[1].filter_group_id, 6);
    assert!(store.delete(5, 1).is_some());
    assert!(store.delete(5, 1).is_none());
    assert_eq!(store.list_by_starboard(1).len(), 1);
}
