//! The entity cache: cache-aside look-ups, invalidation, bounded size,
//! and the platform events.

use starboard_core::cache::{
    on_message_create, on_message_delete, on_message_delete_bulk, on_message_update, EntityCache,
};
use starboard_core::embedder::{CachedMessage, SourceAttachment};

fn message(id: u64, filename: &str) -> CachedMessage {
    CachedMessage {
        id,
        author_id: 2,
        referenced_message: Some(4),
        attachments: vec![SourceAttachment {
            filename: filename.to_string(),
            content_type: Some("image/png".to_string()),
            url: format!("https://cdn.example/{filename}"),
            proxy_url: format!("https://proxy.example/{filename}"),
        }],
        embeds: vec![],
        stickers: vec![],
    }
}

#[test]
fn fog_miss_then_hit() {
    let mut cache: EntityCache<CachedMessage> = EntityCache::new(10);
    // miss: the caller must fetch
    assert!(cache.get(1).is_none());
    // the fetch found the message; store and hit
    cache.insert(1, Some(message(1, "a.png")));
    match cache.get(1) {
        Some(Some(m)) => assert_eq!(m.id, 1),
        _ => panic!("expected a cached message"),
    }
}

#[test]
fn not_found_answers_are_cached_too() {
    let mut cache: EntityCache<CachedMessage> = EntityCache::new(10);
    cache.insert(1, None);
    // a cached "not found" is a hit that spares the re-fetch
    match cache.get(1) {
        Some(None) => {},
        _ => panic!("expected a cached not-found"),
    }
}

#[test]
fn invalidate_forces_a_refetch() {
    let mut cache: EntityCache<CachedMessage> = EntityCache::new(10);
    cache.insert(1, Some(message(1, "a.png")));
    assert!(cache.get(1).is_some());
    cache.invalidate(1);
    // the stale value can never be served again; the next fog misses
    assert!(cache.get(1).is_none());
}

#[test]
fn eviction_only_touches_the_oldest() {
    let mut cache: EntityCache<CachedMessage> = EntityCache::new(2);
    cache.insert(1, Some(message(1, "a.png")));
    cache.insert(2, Some(message(2, "b.png")));
    cache.insert(3, Some(message(3, "c.png")));
    // the oldest entry was evicted to stay within capacity
    assert!(cache.get(1).is_none());
    assert!(cache.get(2).is_some());
    assert!(cache.get(3).is_some());
    assert_eq!(cache.len(), 2);
}

#[test]
fn create_event_caches_only_watched_channels() {
    let mut cache: EntityCache<CachedMessage> = EntityCache::new(10);
    on_message_create(&mut cache, false, message(1, "a.png"));
    assert!(cache.get(1).is_none());
    on_message_create(&mut cache, true, message(1, "a.png"));
    assert!(cache.get(1).is_some());
}

#[test]
fn delete_events_invalidate() {
    let mut cache: EntityCache<CachedMessage> = EntityCache::new(10);
    cache.insert(1, Some(message(1, "a.png")));
    cache.insert(2, Some(message(2, "b.png")));
    cache.insert(3, Some(message(3, "c.png")));
    on_message_delete(&mut cache, 1);
    assert!(cache.get(1).is_none());
    on_message_delete_bulk(&mut cache, &vec![2, 3]);
    assert!(cache.get(2).is_none());
    assert!(cache.get(3).is_none());
}

#[test]
fn update_event_refreshes_only_the_changed_fields() {
    let mut cache: EntityCache<CachedMessage> = EntityCache::new(10);
    cache.insert(1, Some(message(1, "old.png")));
    let new_attachments = vec![SourceAttachment {
        filename: "new.png".to_string(),
        content_type: Some("image/png".to_string()),
        url: "https://cdn.example/new.png".to_string(),
        proxy_url: "https://proxy.example/new.png".to_string(),
    }];
    on_message_update(&mut cache, 1, Some(new_attachments), None);
    match cache.get(1) {
        Some(Some(m)) => {
            // the attachments changed
            assert_eq!(m.attachments.len(), 1);
            assert_eq!(m.attachments[0].filename, "new.png");
            // the rest was preserved
            assert_eq!(m.author_id, 2);
            assert_eq!(m.referenced_message, Some(4));
            assert!(m.embeds.is_empty());
        },
        _ => panic!("expected the updated message"),
    }
}

#[test]
fn update_event_ignores_unknown_messages() {
    let mut cache: EntityCache<CachedMessage> = EntityCache::new(10);
    on_message_update(&mut cache, 1, None, None);
    assert!(cache.get(1).is_none());
}
