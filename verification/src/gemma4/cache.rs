//! Key/value caches of the cached decoder: how many positions a layer has seen, how many it
//! still holds, and which keys the queries of a chunk attend to.
use super::mask::{attention_mask_for_keys, AttentionMask};
use vstd::prelude::*;

verus! {

/// The bookkeeping of a layer's cache. The cache holds the last positions that it has seen: all
/// of them, or as many as the window of a sliding layer.
#[derive(Debug, Clone, Copy, PartialEq, Eq, Structural)]
pub struct Gemma4KvCache {
    retained: usize,
    max_retained: Option<usize>,
    seen_len: usize,
}

/// How a chunk of keys enters a cache.
#[derive(Debug, Clone, Copy, PartialEq, Eq, Structural)]
pub struct CacheAppend {
    /// The position of the first key that the chunk's queries attend to.
    pub key_start: usize,
    /// The number of keys that they attend to: those retained, then those of the chunk.
    pub key_len: usize,
    /// The first of these keys that stays in the cache.
    pub keep_from: usize,
    /// The number of keys that stay.
    pub keep_len: usize,
}

impl Gemma4KvCache {
    /// The number of positions seen.
    pub closed spec fn seen(self) -> nat {
        self.seen_len as nat
    }

    /// The most positions that the cache holds.
    pub closed spec fn limit(self) -> Option<usize> {
        self.max_retained
    }

    /// The number of positions held.
    pub closed spec fn held(self) -> nat {
        self.retained as nat
    }

    /// How many of the last positions a cache with the given limit holds.
    pub open spec fn held_of(seen: nat, limit: Option<usize>) -> nat {
        match limit {
            Some(most) => if seen < most {
                seen
            } else {
                most as nat
            },
            None => seen,
        }
    }

    /// The cache holds all of the last positions that its limit admits.
    pub open spec fn wf(self) -> bool {
        self.held() == Self::held_of(self.seen(), self.limit())
    }

    /// A cache is given by what it has seen, what it holds and its limit.
    pub proof fn lemma_identified(self, other: Self)
        requires
            self.seen() == other.seen(),
            self.held() == other.held(),
            self.limit() == other.limit(),
        ensures
            self == other,
    {
    }

    /// An empty cache.
    pub fn new(max_retained: Option<usize>) -> (cache: Self)
        ensures
            cache.wf(),
            cache.seen() == 0,
            cache.limit() == max_retained,
    {
        Gemma4KvCache { retained: 0, max_retained, seen_len: 0 }
    }

    /// The number of positions seen.
    pub fn current_seq_len(&self) -> (seen: usize)
        ensures
            seen == self.seen(),
    {
        self.seen_len
    }

    /// The number of positions held.
    pub fn retained_seq_len(&self) -> (held: usize)
        ensures
            held == self.held(),
    {
        self.retained
    }

    /// The most positions that the cache holds.
    pub fn max_retained_seq_len(&self) -> (limit: Option<usize>)
        ensures
            limit == self.limit(),
    {
        self.max_retained
    }

    /// How a chunk enters the cache: its queries attend to everything held and to the chunk, and
    /// of these keys the last ones stay that the limit admits.
    pub open spec fn append_of(self, chunk_len: nat) -> CacheAppend {
        let key_len = self.held() + chunk_len;
        let keep_len = Self::held_of(key_len, self.limit());
        CacheAppend {
            key_start: (self.seen() - self.held()) as usize,
            key_len: key_len as usize,
            keep_from: (key_len - keep_len) as usize,
            keep_len: keep_len as usize,
        }
    }

    /// Enters a chunk into the cache.
    pub fn append(&mut self, chunk_len: usize) -> (append: CacheAppend)
        requires
            old(self).wf(),
            old(self).seen() + chunk_len <= usize::MAX,
        ensures
            final(self).wf(),
            final(self).seen() == old(self).seen() + chunk_len,
            final(self).limit() == old(self).limit(),
            append == old(self).append_of(chunk_len as nat),
            appended(*old(self), chunk_len as nat, *final(self)),
            append.key_len == old(self).held() + chunk_len,
            append.key_start + append.key_len == final(self).seen(),
            append.keep_len == final(self).held(),
            append.keep_from + append.keep_len == append.key_len,
    {
        let key_start: usize = self.seen_len - self.retained;
        let key_len: usize = self.retained + chunk_len;
        self.seen_len = self.seen_len + chunk_len;
        let (keep_from, keep_len): (usize, usize) = match self.max_retained {
            Some(most) => if key_len > most {
                (key_len - most, most)
            } else {
                (0, key_len)
            },
            None => (0, key_len),
        };
        self.retained = keep_len;
        CacheAppend { key_start, key_len, keep_from, keep_len }
    }

    /// Empties the cache.
    pub fn reset(&mut self)
        ensures
            final(self).wf(),
            final(self).seen() == 0,
            final(self).limit() == old(self).limit(),
    {
        self.retained = 0;
        self.seen_len = 0;
    }
}

/// Whether the queries of a chunk attend to the key at a position.
pub open spec fn attends(append: CacheAppend, key: nat) -> bool {
    append.key_start <= key < append.key_start + append.key_len
}

/// Whether the key at a position stays in the cache after a chunk.
pub open spec fn keeps(append: CacheAppend, key: nat) -> bool {
    append.key_start + append.keep_from <= key < append.key_start + append.keep_from
        + append.keep_len
}

/// After a chunk the cache holds exactly the last positions: the keys that stay end where the
/// chunk ends, and the next chunk's queries start attending where they start.
pub proof fn law_cache_holds_the_last_positions(cache: Gemma4KvCache, chunk_len: nat, after: Gemma4KvCache)
    requires
        cache.wf(),
        cache.seen() + chunk_len <= usize::MAX,
        after.wf(),
        after.seen() == cache.seen() + chunk_len,
        after.limit() == cache.limit(),
    ensures
        forall|key: nat| #[trigger]
            keeps(cache.append_of(chunk_len), key) <==> after.seen() - after.held() <= key
                < after.seen(),
        after.append_of(0).key_start == cache.append_of(chunk_len).key_start + cache.append_of(
            chunk_len,
        ).keep_from,
{
}

/// A cache without a limit holds every position that it has seen; one with a limit holds exactly
/// that many once it has seen them, and all positions before that.
pub proof fn law_cache_holds_what_it_may(cache: Gemma4KvCache)
    requires
        cache.wf(),
    ensures
        cache.limit() is None ==> cache.held() == cache.seen(),
        cache.limit() matches Some(most) ==> (cache.seen() <= most ==> cache.held()
            == cache.seen()) && (cache.seen() >= most ==> cache.held() == most),
{
}

/// What a chunk attends to and what stays of it, by position: the queries attend to the positions
/// held and to the chunk, and nothing else; what stays ends with the chunk and is as much as the
/// limit admits.
pub proof fn law_chunk_positions(cache: Gemma4KvCache, chunk_len: nat, key: nat)
    requires
        cache.wf(),
        cache.seen() + chunk_len <= usize::MAX,
    ensures
        attends(cache.append_of(chunk_len), key) <==> cache.seen() - cache.held() <= key
            < cache.seen() + chunk_len,
        keeps(cache.append_of(chunk_len), key) <==> key < cache.seen() + chunk_len && (
        cache.limit() matches Some(most) ==> cache.seen() + chunk_len <= key + most),
{
}

/// The entries that a cache holds, of all those that have ever entered it.
pub open spec fn held_entries<T>(cache: Gemma4KvCache, entries: Seq<T>) -> Seq<T> {
    entries.skip(cache.seen() - cache.held())
}

/// A chunk's queries attend to the entries held, followed by those of the chunk; of these the last
/// ones stay that the limit admits, and they are what the cache holds afterwards.
pub proof fn law_cache_keeps_the_last_entries<T>(
    cache: Gemma4KvCache,
    entries: Seq<T>,
    chunk: Seq<T>,
    after: Gemma4KvCache,
)
    requires
        cache.wf(),
        cache.seen() == entries.len(),
        cache.seen() + chunk.len() <= usize::MAX,
        after.wf(),
        after.seen() == cache.seen() + chunk.len(),
        after.limit() == cache.limit(),
    ensures
        ({
            let append = cache.append_of(chunk.len());
            let attended = held_entries(cache, entries) + chunk;
            &&& attended.len() == append.key_len
            &&& attended == (entries + chunk).skip(append.key_start as int)
            &&& append.key_start + append.key_len == after.seen()
            &&& held_entries(after, entries + chunk) == attended.skip(append.keep_from as int)
            &&& held_entries(after, entries + chunk).len() == after.held()
        }),
{
    let append = cache.append_of(chunk.len());
    let attended = held_entries(cache, entries) + chunk;
    assert(attended =~= (entries + chunk).skip(append.key_start as int));
    assert(held_entries(after, entries + chunk) =~= attended.skip(append.keep_from as int));
}

/// Whether a cache is what a chunk leaves of another.
pub open spec fn appended(before: Gemma4KvCache, chunk_len: nat, after: Gemma4KvCache) -> bool {
    &&& after.limit() == before.limit()
    &&& after.seen() == before.seen() + chunk_len
    &&& after.held() == Gemma4KvCache::held_of(before.held() + chunk_len, before.limit())
}

/// Whatever chunks have entered it, a cache holds all positions that it has seen, or as many of
/// the last ones as its limit admits.
pub proof fn law_every_history_is_well_formed(history: Seq<Gemma4KvCache>, chunks: Seq<nat>, at: int)
    requires
        0 <= at < history.len(),
        chunks.len() + 1 == history.len(),
        history[0].seen() == 0,
        history[0].held() == 0,
        forall|i: int|
            0 <= i < chunks.len() ==> appended(history[i], #[trigger] chunks[i], history[i + 1]),
    ensures
        history[at].wf(),
        history[at].limit() == history[0].limit(),
    decreases at,
{
    if at > 0 {
        law_every_history_is_well_formed(history, chunks, at - 1);
        assert(appended(history[at - 1], chunks[at - 1], history[at]));
    }
}

/// A cache that is limited to a window loses nothing that a query can see: of all positions up
/// to the end of a chunk, a query of the chunk sees the same keys with the cache as without.
pub proof fn law_windowed_cache_sees_the_same_keys(
    cache: Gemma4KvCache,
    chunk_len: nat,
    query: nat,
    key: nat,
)
    requires
        cache.wf(),
        cache.seen() + chunk_len <= usize::MAX,
        cache.seen() <= query < cache.seen() + chunk_len,
    ensures
        attends(cache.append_of(chunk_len), key) && super::mask::sees(query, key, cache.limit())
            <==> key < cache.seen() + chunk_len && super::mask::sees(query, key, cache.limit()),
{
}

/// Two chunks leave the same cache as one chunk of their joint length.
pub proof fn law_chunking_does_not_matter(
    start: Gemma4KvCache,
    first: nat,
    between: Gemma4KvCache,
    second: nat,
    end: Gemma4KvCache,
    whole: Gemma4KvCache,
)
    requires
        between.wf() && end.wf() && whole.wf(),
        between.limit() == start.limit() && end.limit() == start.limit() && whole.limit()
            == start.limit(),
        between.seen() == start.seen() + first,
        end.seen() == between.seen() + second,
        whole.seen() == start.seen() + first + second,
    ensures
        end == whole,
{
    end.lemma_identified(whole);
}

/// Builds the mask of a sliding layer's chunk over the keys that its cache attends to.
pub fn sliding_mask(cache: &Gemma4KvCache, append: &CacheAppend, offset: usize, chunk_len: usize) -> (mask:
    AttentionMask)
    requires
        offset + chunk_len <= usize::MAX,
        append.key_start + append.key_len <= usize::MAX,
        chunk_len * append.key_len <= usize::MAX,
    ensures
        mask.covers(
            offset as nat,
            chunk_len as nat,
            append.key_start as nat,
            append.key_len as nat,
            cache.limit(),
        ),
{
    attention_mask_for_keys(
        offset,
        chunk_len,
        append.key_start,
        append.key_len,
        cache.max_retained_seq_len(),
    )
}

} // verus!
