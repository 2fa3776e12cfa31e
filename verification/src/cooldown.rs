//! The per-channel edit cooldown: a fixed-window rate limiter. Each
//! channel may take a bounded number of edits per window; an edit past the
//! bound is deferred (dropped for this cycle, picked up by the next vote
//! event), never queued.

use vstd::prelude::*;

verus! {

/// One channel's current window.
#[derive(Clone, Copy, Debug, PartialEq, Eq, Structural)]
pub struct ChannelWindow {
    pub channel_id: i64,
    /// When the window opened, in seconds.
    pub window_start: i64,
    /// Edits taken inside this window.
    pub used: u32,
}

/// A fixed-window rate limiter keyed by channel.
pub struct Cooldowns {
    entries: Vec<ChannelWindow>,
    capacity: u32,
    period: i64,
}

impl Cooldowns {
    /// The tracked windows.
    pub closed spec fn entries(self) -> Seq<ChannelWindow> {
        self.entries@
    }

    /// Edits allowed per window.
    pub closed spec fn capacity(self) -> u32 {
        self.capacity
    }

    /// The window length, in seconds.
    pub closed spec fn period(self) -> i64 {
        self.period
    }

    /// Well-formed: one window per channel, every window within the
    /// capacity and opened at a non-negative time, and sane limits.
    /// Established by [`Cooldowns::new`] and preserved by every operation.
    pub closed spec fn wf(self) -> bool {
        &&& self.capacity >= 1
        &&& self.period >= 1
        &&& forall|i: int, j: int|
            0 <= i < j < self.entries@.len() ==> (#[trigger] self.entries@[i]).channel_id != (
            #[trigger] self.entries@[j]).channel_id
        &&& forall|i: int|
            0 <= i < self.entries@.len() ==> (#[trigger] self.entries@[i]).used <= self.capacity
                && self.entries@[i].window_start >= 0
    }

    /// Whether a window is tracked for the channel.
    pub closed spec fn has(self, channel_id: i64) -> bool {
        exists|i: int|
            0 <= i < self.entries().len() && (#[trigger] self.entries()[i]).channel_id
                == channel_id
    }

    /// The channel's window.
    pub closed spec fn window(self, channel_id: i64) -> ChannelWindow
        recommends
            self.has(channel_id),
    {
        let i = choose|i: int|
            0 <= i < self.entries().len() && (#[trigger] self.entries()[i]).channel_id
                == channel_id;
        self.entries()[i]
    }

    /// A limiter allowing `capacity` edits per `period` seconds.
    pub fn new(capacity: u32, period: i64) -> (r: Cooldowns)
        requires
            capacity >= 1,
            period >= 1,
        ensures
            r.wf(),
            r.capacity() == capacity,
            r.period() == period,
            forall|c: i64| !r.has(c),
    {
        Cooldowns { entries: Vec::new(), capacity, period }
    }

    fn index_of(&self, channel_id: i64) -> (r: Option<usize>)
        ensures
            match r {
                Some(i) => i < self.entries().len() && self.entries()[i as int].channel_id
                    == channel_id && self.has(channel_id),
                None => !self.has(channel_id),
            },
    {
        let mut i: usize = 0;
        while i < self.entries.len()
            invariant
                i <= self.entries@.len(),
                forall|j: int| 0 <= j < i ==> (#[trigger] self.entries@[j]).channel_id
                    != channel_id,
            decreases self.entries@.len() - i,
        {
            if self.entries[i].channel_id == channel_id {
                proof {
                    assert((#[trigger] self.entries()[i as int]).channel_id == channel_id);
                }
                return Some(i);
            }
            i += 1;
        }
        None
    }

    /// Take one edit slot for the channel at time `now`. Allowed when the
    /// channel's window has elapsed (a fresh window opens) or still has
    /// room; refused — and nothing changes — when the window is full.
    pub fn trigger(&mut self, channel_id: i64, now: i64) -> (allowed: bool)
        requires
            old(self).wf(),
            now >= 0,
        ensures
            final(self).wf(),
            final(self).capacity() == old(self).capacity(),
            final(self).period() == old(self).period(),
            // a fresh window: never seen, or the old window has elapsed
            (!old(self).has(channel_id) || now - old(self).window(channel_id).window_start >= old(
                self,
            ).period()) ==> (allowed && final(self).has(channel_id) && final(self).window(
                channel_id,
            ) == (ChannelWindow { channel_id, window_start: now, used: 1 })),
            // inside a live window with room: one more slot is taken
            (old(self).has(channel_id) && now - old(self).window(channel_id).window_start < old(
                self,
            ).period() && old(self).window(channel_id).used < old(self).capacity()) ==> (allowed
                && final(self).has(channel_id) && final(self).window(channel_id) == (ChannelWindow {
                used: (old(self).window(channel_id).used + 1) as u32,
                ..old(self).window(channel_id)
            })),
            // inside a full window: refused, nothing changes
            (old(self).has(channel_id) && now - old(self).window(channel_id).window_start < old(
                self,
            ).period() && old(self).window(channel_id).used >= old(self).capacity()) ==> (!allowed
                && *final(self) == *old(self)),
            // other channels are never touched
            forall|c: i64| c != channel_id ==> ((#[trigger] final(self).has(c)) == old(self).has(
                c,
            ) && (old(self).has(c) ==> final(self).window(c) == old(self).window(c))),
    {
        let ghost pre = *old(self);
        match self.index_of(channel_id) {
            Some(i) => {
                let e = self.entries[i];
                proof {
                    let w = choose|w: int|
                        0 <= w < pre.entries().len() && (#[trigger] pre.entries()[w]).channel_id
                            == channel_id;
                    assert(w == i as int);
                    assert(pre.window(channel_id) == e);
                }
                let fresh = now - e.window_start >= self.period;
                let updated = if fresh {
                    ChannelWindow { channel_id, window_start: now, used: 1 }
                } else if e.used < self.capacity {
                    ChannelWindow { used: e.used + 1, ..e }
                } else {
                    return false;
                };
                self.entries.set(i, updated);
                proof {
                    assert((#[trigger] self.entries()[i as int]).channel_id == channel_id);
                    let w = choose|w: int|
                        0 <= w < self.entries().len() && (
                        #[trigger] self.entries()[w]).channel_id == channel_id;
                    assert(w == i as int);
                    assert(final(self).window(channel_id) == updated);
                    assert forall|a: int, b: int|
                        0 <= a < b < self.entries@.len() implies (
                    #[trigger] self.entries@[a]).channel_id != (
                    #[trigger] self.entries@[b]).channel_id by {
                        assert(pre.entries()[a].channel_id != pre.entries()[b].channel_id);
                    }
                    assert forall|c: i64|
                        c != channel_id implies ((#[trigger] final(self).has(c)) == pre.has(c) && (
                        pre.has(c) ==> final(self).window(c) == pre.window(c))) by {
                        lemma_other_windows_unchanged(pre, *self, channel_id, c, i as int);
                    }
                }
                true
            },
            None => {
                let entry = ChannelWindow { channel_id, window_start: now, used: 1 };
                self.entries.push(entry);
                proof {
                    assert((#[trigger] self.entries()[pre.entries().len() as int]).channel_id
                        == channel_id);
                    let w = choose|w: int|
                        0 <= w < self.entries().len() && (
                        #[trigger] self.entries()[w]).channel_id == channel_id;
                    assert forall|a: int, b: int|
                        0 <= a < b < self.entries@.len() implies (
                    #[trigger] self.entries@[a]).channel_id != (
                    #[trigger] self.entries@[b]).channel_id by {
                        if b == self.entries@.len() - 1 {
                            assert(pre.entries()[a].channel_id != channel_id);
                        }
                    }
                    assert(w == pre.entries().len() as int);
                    assert(final(self).window(channel_id) == entry);
                    assert forall|c: i64|
                        c != channel_id implies ((#[trigger] final(self).has(c)) == pre.has(c) && (
                        pre.has(c) ==> final(self).window(c) == pre.window(c))) by {
                        lemma_other_windows_unchanged(
                            pre,
                            *self,
                            channel_id,
                            c,
                            pre.entries().len() as int,
                        );
                    }
                }
                true
            },
        }
    }
}

/// When only the entry at `at` (the one for `changed`) differs or was
/// appended, every other channel keeps its window.
proof fn lemma_other_windows_unchanged(
    pre: Cooldowns,
    post: Cooldowns,
    changed: i64,
    c: i64,
    at: int,
)
    requires
        pre.wf(),
        c != changed,
        0 <= at < post.entries().len(),
        post.entries().len() == pre.entries().len() || post.entries().len() == pre.entries().len()
            + 1,
        post.entries().len() == pre.entries().len() ==> pre.entries()[at].channel_id == changed,
        post.entries().len() == pre.entries().len() + 1 ==> at == pre.entries().len(),
        post.entries()[at].channel_id == changed,
        forall|j: int|
            0 <= j < post.entries().len() && j != at ==> #[trigger] post.entries()[j]
                == pre.entries()[j],
        forall|i: int, j: int|
            0 <= i < j < post.entries().len() ==> (#[trigger] post.entries()[i]).channel_id != (
            #[trigger] post.entries()[j]).channel_id,
    ensures
        post.has(c) == pre.has(c),
        pre.has(c) ==> post.window(c) == pre.window(c),
{
    if pre.has(c) {
        let i = choose|i: int|
            0 <= i < pre.entries().len() && (#[trigger] pre.entries()[i]).channel_id == c;
        assert(i != at);
        assert(post.entries()[i] == pre.entries()[i]);
        assert((#[trigger] post.entries()[i]).channel_id == c);
        assert(post.has(c));
        let w = choose|w: int|
            0 <= w < post.entries().len() && (#[trigger] post.entries()[w]).channel_id == c;
        assert(w == i);
        let w2 = choose|w2: int|
            0 <= w2 < pre.entries().len() && (#[trigger] pre.entries()[w2]).channel_id == c;
        assert(w2 == i);
        assert(post.window(c) == post.entries()[i]);
        assert(pre.window(c) == pre.entries()[i]);
    } else {
        if post.has(c) {
            let i = choose|i: int|
                0 <= i < post.entries().len() && (#[trigger] post.entries()[i]).channel_id == c;
            assert(i != at);
            assert(i < pre.entries().len());
            assert(post.entries()[i] == pre.entries()[i]);
            assert((#[trigger] pre.entries()[i]).channel_id == c);
            assert(false);
        }
    }
}

} // verus!
