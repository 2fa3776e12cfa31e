//! The entity cache: a bounded, cache-aside store for recently seen
//! platform objects, keyed by id. A fog look-up checks the cache first
//! and otherwise fetches from the platform and stores the answer — also
//! a "not found" answer, recorded as `None`, so repeated failing look-ups
//! stay cheap. When the cache is full, the oldest entry is evicted;
//! eviction only costs a re-fetch, never a wrong answer. Platform events
//! invalidate or refresh entries, and settings commands drop a guild's
//! cached name or emoji lists the same way, through [`EntityCache::invalidate`].

use vstd::prelude::*;

use crate::embedder::{
    attachment_models, clone_cached_message, embed_models, CachedMessage, MessageModel,
    SourceAttachment, SourceEmbed,
};

verus! {

/// A platform user as the entity cache holds it: the display fields the
/// embedder renders, and whether the author is a bot.
pub struct CachedUser {
    pub id: u64,
    pub name: String,
    pub is_bot: bool,
}

/// A bounded cache from id to entry; an entry itself is `Some(value)` or a
/// cached "not found".
pub struct EntityCache<V> {
    keys: Vec<u64>,
    vals: Vec<Option<V>>,
    cap: usize,
}

impl<V> EntityCache<V> {
    /// Well-formed: the key and value columns run in parallel, keys are
    /// unique, and the size stays within the capacity, which is at least
    /// one. Established by [`EntityCache::new`] and preserved by every
    /// operation.
    pub closed spec fn wf(self) -> bool {
        &&& self.keys@.len() == self.vals@.len()
        &&& self.keys@.len() <= self.cap
        &&& self.cap >= 1
        &&& forall|i: int, j: int|
            0 <= i < j < self.keys@.len() ==> #[trigger] self.keys@[i] != #[trigger] self.keys@[j]
    }

    /// Whether an entry for `id` is cached.
    pub closed spec fn has(self, id: u64) -> bool {
        self.keys@.contains(id)
    }

    /// The cached entry for `id`.
    pub closed spec fn entry(self, id: u64) -> Option<V>
        recommends
            self.has(id),
    {
        self.vals@[self.keys@.index_of(id)]
    }

    /// The cached ids, oldest first.
    pub closed spec fn order(self) -> Seq<u64> {
        self.keys@
    }

    /// The capacity.
    pub closed spec fn capacity(self) -> usize {
        self.cap
    }

    /// An empty cache holding at most `cap` entries.
    pub fn new(cap: usize) -> (r: EntityCache<V>)
        requires
            cap >= 1,
        ensures
            r.wf(),
            r.capacity() == cap,
            forall|id: u64| !r.has(id),
            r.order().len() == 0,
    {
        EntityCache { keys: Vec::new(), vals: Vec::new(), cap }
    }

    fn index_of(&self, id: u64) -> (r: Option<usize>)
        requires
            self.wf(),
        ensures
            match r {
                Some(i) => i < self.keys@.len() && self.keys@[i as int] == id && self.has(id)
                    && self.keys@.index_of(id) == i as int,
                None => !self.has(id),
            },
    {
        let mut i: usize = 0;
        while i < self.keys.len()
            invariant
                self.wf(),
                i <= self.keys@.len(),
                forall|j: int| 0 <= j < i ==> self.keys@[j] != id,
            decreases self.keys@.len() - i,
        {
            if self.keys[i] == id {
                proof {
                    assert(self.keys@.contains(id));
                    let w = self.keys@.index_of(id);
                    assert(self.keys@[w] == id);
                    assert(w == i as int);
                }
                return Some(i);
            }
            i += 1;
        }
        None
    }

    /// Look up an entry: `None` is a miss (the caller must fetch),
    /// `Some(&None)` is a cached "not found", `Some(&Some(v))` is a hit.
    pub fn get(&self, id: u64) -> (r: Option<&Option<V>>)
        requires
            self.wf(),
        ensures
            r is Some <==> self.has(id),
            self.has(id) ==> r == Some(&self.entry(id)),
    {
        match self.index_of(id) {
            Some(i) => Some(&self.vals[i]),
            None => None,
        }
    }

    /// Store the outcome of a fetch (the value, or a "not found"). An
    /// existing entry is overwritten in place; a new entry may evict the
    /// oldest one, and only when the cache is full.
    pub fn insert(&mut self, id: u64, val: Option<V>)
        requires
            old(self).wf(),
        ensures
            final(self).wf(),
            final(self).capacity() == old(self).capacity(),
            final(self).has(id),
            final(self).entry(id) == val,
            // every other cached entry survives with its value, except at
            // most the oldest, evicted only on overflow
            forall|k: u64|
                k != id && old(self).has(k) && (#[trigger] final(self).has(k)) ==> final(self).entry(k) == old(self).entry(k),
            forall|k: u64|
                k != id && old(self).has(k) && !(#[trigger] final(self).has(k)) ==> (old(self).order().len() == old(self).capacity() && !old(self).has(id) && k == old(self).order()[0]),
            // nothing appears out of nowhere
            forall|k: u64| k != id && (#[trigger] final(self).has(k)) ==> old(self).has(k),
    {
        let found = self.index_of(id);
        match found {
            Some(i) => {
                self.vals.set(i, val);
                proof {
                    lemma_unique_index(self.keys@, id);
                }
            },
            None => {
                let ghost pre = *self;
                if self.keys.len() == self.cap {
                    self.keys.remove(0);
                    self.vals.remove(0);
                    proof {
                        assert forall|k: u64| #[trigger]
                            self.keys@.contains(k) implies pre.keys@.contains(k) && k
                            != pre.keys@[0] by {
                            let j = choose|j: int|
                                0 <= j < self.keys@.len() && self.keys@[j] == k;
                            assert(pre.keys@[j + 1] == k);
                        }
                        assert forall|k: u64|
                            pre.keys@.contains(k) && k != pre.keys@[0] implies #[trigger]
                        self.keys@.contains(k) by {
                            let j = choose|j: int| 0 <= j < pre.keys@.len() && pre.keys@[j] == k;
                            assert(j != 0);
                            assert(self.keys@[j - 1] == k);
                        }
                        assert forall|k: u64| #[trigger]
                            self.keys@.contains(k) implies self.vals@[self.keys@.index_of(k)]
                            == pre.vals@[pre.keys@.index_of(k)] by {
                            lemma_unique_index(self.keys@, k);
                            lemma_unique_index(pre.keys@, k);
                            let j = self.keys@.index_of(k);
                            assert(pre.keys@[j + 1] == k);
                            assert(pre.keys@.index_of(k) == j + 1);
                        }
                    }
                }
                let ghost mid_keys = self.keys@;
                let ghost mid_vals = self.vals@;
                self.keys.push(id);
                self.vals.push(val);
                proof {
                    assert(self.keys@.last() == id);
                    assert(self.keys@.contains(id));
                    lemma_unique_index(self.keys@, id);
                    assert(self.keys@.index_of(id) == self.keys@.len() - 1);
                    assert forall|k: u64| #[trigger]
                        self.keys@.contains(k) && k != id implies mid_keys.contains(k)
                        && self.vals@[self.keys@.index_of(k)] == mid_vals[mid_keys.index_of(
                        k,
                    )] by {
                        let j = choose|j: int| 0 <= j < self.keys@.len() && self.keys@[j] == k;
                        assert(j < mid_keys.len());
                        assert(mid_keys[j] == k);
                        lemma_unique_index(self.keys@, k);
                        lemma_unique_index(mid_keys, k);
                        assert(self.keys@.index_of(k) == j);
                        assert(mid_keys.index_of(k) == j);
                    }
                    assert forall|k: u64|
                        mid_keys.contains(k) implies #[trigger] self.keys@.contains(k) by {
                        let j = choose|j: int| 0 <= j < mid_keys.len() && mid_keys[j] == k;
                        assert(self.keys@[j] == k);
                    }
                }
            },
        }
    }

    /// Drop the entry for `id`, if any: a delete event reached us, so the
    /// cached value must never be served again.
    pub fn invalidate(&mut self, id: u64)
        requires
            old(self).wf(),
        ensures
            final(self).wf(),
            final(self).capacity() == old(self).capacity(),
            !final(self).has(id),
            forall|k: u64| k != id ==> (#[trigger] final(self).has(k)) == old(self).has(k),
            forall|k: u64|
                k != id && (#[trigger] final(self).has(k)) ==> final(self).entry(k) == old(self).entry(k),
    {
        let found = self.index_of(id);
        match found {
            Some(i) => {
                let ghost pre = *self;
                self.keys.remove(i);
                self.vals.remove(i);
                proof {
                    assert forall|k: u64| #[trigger]
                        self.keys@.contains(k) implies pre.keys@.contains(k) && k != id by {
                        let j = choose|j: int| 0 <= j < self.keys@.len() && self.keys@[j] == k;
                        if j < i {
                            assert(pre.keys@[j] == k);
                        } else {
                            assert(pre.keys@[j + 1] == k);
                        }
                    }
                    assert forall|k: u64|
                        pre.keys@.contains(k) && k != id implies #[trigger]
                    self.keys@.contains(k) by {
                        let j = choose|j: int| 0 <= j < pre.keys@.len() && pre.keys@[j] == k;
                        assert(j != i);
                        if j < i {
                            assert(self.keys@[j] == k);
                        } else {
                            assert(self.keys@[j - 1] == k);
                        }
                    }
                    assert forall|k: u64| #[trigger]
                        self.keys@.contains(k) implies self.vals@[self.keys@.index_of(k)]
                        == pre.vals@[pre.keys@.index_of(k)] by {
                        lemma_unique_index(self.keys@, k);
                        lemma_unique_index(pre.keys@, k);
                        let j = self.keys@.index_of(k);
                        if j < i {
                            assert(pre.keys@[j] == k);
                            assert(pre.keys@.index_of(k) == j);
                        } else {
                            assert(pre.keys@[j + 1] == k);
                            assert(pre.keys@.index_of(k) == j + 1);
                        }
                    }
                }
            },
            None => {},
        }
    }

    /// How many entries are cached.
    pub fn len(&self) -> (r: usize)
        requires
            self.wf(),
        ensures
            r == self.order().len(),
    {
        self.keys.len()
    }
}

/// In a duplicate-free key column, `index_of` finds the one index of a
/// contained key.
proof fn lemma_unique_index(keys: Seq<u64>, id: u64)
    requires
        forall|i: int, j: int|
            0 <= i < j < keys.len() ==> #[trigger] keys[i] != #[trigger] keys[j],
        keys.contains(id),
    ensures
        0 <= keys.index_of(id) < keys.len(),
        keys[keys.index_of(id)] == id,
        forall|i: int| 0 <= i < keys.len() && keys[i] == id ==> i == keys.index_of(id),
{
    let w = keys.index_of(id);
    assert(keys[w] == id);
}

/// Law: after an invalidate for `id`, a fog look-up of `id` misses — the
/// stale value can never be served; the caller must fetch anew (and may
/// legitimately find nothing).
pub proof fn lemma_invalidate_forces_refetch<V>(
    before: EntityCache<V>,
    after: EntityCache<V>,
    id: u64,
    lookup: Option<Option<V>>,
)
    requires
        // what `invalidate(id)` ensures
        !after.has(id),
        // what `get(id)` ensures of its result, seen as a value
        lookup is Some <==> after.has(id),
    ensures
        lookup is None,
{
}

/// A message-created event: cache the message, but only for channels whose
/// messages are watched eagerly (autostar channels).
pub fn on_message_create(
    cache: &mut EntityCache<CachedMessage>,
    is_autostar_channel: bool,
    msg: CachedMessage,
)
    requires
        old(cache).wf(),
    ensures
        final(cache).wf(),
        is_autostar_channel ==> final(cache).has(msg.id) && final(cache).entry(msg.id) == Some(
            msg,
        ),
        !is_autostar_channel ==> *final(cache) == *old(cache),
{
    if !is_autostar_channel {
        return ;
    }
    let id = msg.id;
    cache.insert(id, Some(msg));
}

/// A message-deleted event: drop the entry.
pub fn on_message_delete(cache: &mut EntityCache<CachedMessage>, id: u64)
    requires
        old(cache).wf(),
    ensures
        final(cache).wf(),
        !final(cache).has(id),
        forall|k: u64| k != id ==> (#[trigger] final(cache).has(k)) == old(cache).has(k),
        forall|k: u64|
            k != id && (#[trigger] final(cache).has(k)) ==> final(cache).entry(k) == old(cache).entry(k),
{
    cache.invalidate(id);
}

/// A bulk-delete event: drop every listed entry.
pub fn on_message_delete_bulk(cache: &mut EntityCache<CachedMessage>, ids: &Vec<u64>)
    requires
        old(cache).wf(),
    ensures
        final(cache).wf(),
        forall|k: u64| ids@.contains(k) ==> !(#[trigger] final(cache).has(k)),
        forall|k: u64| !ids@.contains(k) ==> (#[trigger] final(cache).has(k)) == old(cache).has(k),
        forall|k: u64|
            !ids@.contains(k) && (#[trigger] final(cache).has(k)) ==> final(cache).entry(k) == old(cache).entry(k),
{
    let mut i: usize = 0;
    while i < ids.len()
        invariant
            cache.wf(),
            i <= ids@.len(),
            forall|k: u64|
                (exists|j: int| 0 <= j < i && ids@[j] == k) ==> !(#[trigger] cache.has(k)),
            forall|k: u64| !ids@.contains(k) ==> (#[trigger] cache.has(k)) == old(cache).has(k),
            forall|k: u64|
                !ids@.contains(k) && (#[trigger] cache.has(k)) ==> cache.entry(k) == old(cache).entry(k),
        decreases ids@.len() - i,
    {
        let id = ids[i];
        proof {
            assert(ids@.contains(id));
        }
        cache.invalidate(id);
        i += 1;
    }
}

/// A message-updated event: refresh only the changed fields — the
/// attachments and embeds the event carries — and preserve the rest of the
/// cached message. A message we never cached (or cached as "not found")
/// stays untouched.
pub fn on_message_update(
    cache: &mut EntityCache<CachedMessage>,
    id: u64,
    attachments: Option<Vec<SourceAttachment>>,
    embeds: Option<Vec<SourceEmbed>>,
)
    requires
        old(cache).wf(),
    ensures
        final(cache).wf(),
        (!old(cache).has(id) || old(cache).entry(id) is None) ==> *final(cache) == *old(cache),
        (old(cache).has(id) && old(cache).entry(id) is Some) ==> {
            let m = old(cache).entry(id)->0;
            &&& final(cache).has(id)
            &&& final(cache).entry(id) is Some
            &&& (final(cache).entry(id)->0)@ == (MessageModel {
                attachments: match attachments {
                    Some(a) => attachment_models(a@),
                    None => m@.attachments,
                },
                embeds: match embeds {
                    Some(e) => embed_models(e@),
                    None => m@.embeds,
                },
                ..m@
            })
        },
        forall|k: u64| k != id ==> (#[trigger] final(cache).has(k)) == old(cache).has(k),
        forall|k: u64|
            k != id && (#[trigger] final(cache).has(k)) ==> final(cache).entry(k) == old(
                cache,
            ).entry(k),
{
    let cached = match cache.get(id) {
        None => return ,
        Some(entry) => match entry {
            None => return ,
            Some(m) => clone_cached_message(m),
        },
    };
    let new_attachments = match attachments {
        Some(a) => a,
        None => cached.attachments,
    };
    let new_embeds = match embeds {
        Some(e) => e,
        None => cached.embeds,
    };
    let updated = CachedMessage {
        id: cached.id,
        author_id: cached.author_id,
        referenced_message: cached.referenced_message,
        attachments: new_attachments,
        embeds: new_embeds,
        stickers: cached.stickers,
    };
    proof {
        assert(updated@ =~= (MessageModel {
            attachments: match attachments {
                Some(a) => attachment_models(a@),
                None => (old(cache).entry(id)->0)@.attachments,
            },
            embeds: match embeds {
                Some(e) => embed_models(e@),
                None => (old(cache).entry(id)->0)@.embeds,
            },
            ..(old(cache).entry(id)->0)@
        }));
    }
    cache.insert(id, Some(updated));
}

} // verus!
