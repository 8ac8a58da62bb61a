//! Row cache of the read path, bounded by the number of its entries.
//!
//! A lookup that a Parquet file answered stays here until it is the entry
//! that was used longest ago and another one needs its place, or until its
//! key is written again.

use std::num::NonZeroUsize;

use lru::LruCache;
use vstd::prelude::*;

use crate::types::sequence::OpType;
use crate::types::value::Row;

verus! {

/// What a file lookup found: the operation and its row.
#[derive(Debug)]
pub struct CacheEntry {
    pub op_type: OpType,
    pub row: Row,
}

/// [`CacheEntry`] with its row as a sequence of values.
pub struct EntryView {
    pub op_type: OpType,
    pub row: Seq<Option<crate::types::value::FieldView>>,
}

impl View for CacheEntry {
    type V = EntryView;

    open spec fn view(&self) -> EntryView {
        EntryView { op_type: self.op_type, row: self.row@ }
    }
}

impl Clone for CacheEntry {
    fn clone(&self) -> (r: Self)
        ensures
            r@ == self@,
    {
        CacheEntry { op_type: self.op_type, row: self.row.clone() }
    }
}

/// The hash builder of the cache's table, carried and never looked into.
#[verifier::external_type_specification]
#[verifier::external_body]
pub struct ExDefaultHasher(lru::DefaultHasher);

/// The cache of the `lru` crate.
#[verifier::external_type_specification]
#[verifier::external_body]
#[verifier::reject_recursive_types(K)]
#[verifier::reject_recursive_types(V)]
#[verifier::reject_recursive_types(S)]
pub struct ExLruCache<K, V, S>(LruCache<K, V, S>);

/// The entries of a cache, the most recently used first.
pub uninterp spec fn lru_entries(cache: LruCache<Vec<u8>, CacheEntry>) -> Seq<
    (Seq<u8>, EntryView),
>;

/// The number of entries that a cache was made for.
pub uninterp spec fn lru_limit(cache: LruCache<Vec<u8>, CacheEntry>) -> nat;

/// Whether a key is among the entries.
pub open spec fn holds(entries: Seq<(Seq<u8>, EntryView)>, key: Seq<u8>) -> bool {
    exists|i: int| 0 <= i < entries.len() && #[trigger] entries[i].0 == key
}

/// Where a key stands among the entries that hold it.
pub open spec fn slot(entries: Seq<(Seq<u8>, EntryView)>, key: Seq<u8>) -> int {
    choose|i: int| 0 <= i < entries.len() && #[trigger] entries[i].0 == key
}

/// What a lookup of a key finds.
pub open spec fn found(entries: Seq<(Seq<u8>, EntryView)>, key: Seq<u8>) -> Option<EntryView> {
    if holds(entries, key) {
        Some(entries[slot(entries, key)].1)
    } else {
        None
    }
}

/// The entries after a lookup: the one that was found comes first.
pub open spec fn after_get(entries: Seq<(Seq<u8>, EntryView)>, key: Seq<u8>) -> Seq<
    (Seq<u8>, EntryView),
> {
    if holds(entries, key) {
        seq![entries[slot(entries, key)]] + entries.remove(slot(entries, key))
    } else {
        entries
    }
}

/// The entries after an insert: the new one comes first, in place of the one
/// with the same key, or else of the last one where the cache was full.
pub open spec fn after_put(
    entries: Seq<(Seq<u8>, EntryView)>,
    limit: nat,
    key: Seq<u8>,
    entry: EntryView,
) -> Seq<(Seq<u8>, EntryView)> {
    if holds(entries, key) {
        seq![(key, entry)] + entries.remove(slot(entries, key))
    } else if entries.len() == limit {
        seq![(key, entry)] + entries.drop_last()
    } else {
        seq![(key, entry)] + entries
    }
}

/// The entries after a key was taken out.
pub open spec fn after_pop(entries: Seq<(Seq<u8>, EntryView)>, key: Seq<u8>) -> Seq<
    (Seq<u8>, EntryView),
> {
    if holds(entries, key) {
        entries.remove(slot(entries, key))
    } else {
        entries
    }
}

/// No key has two entries.
pub open spec fn keys_distinct(entries: Seq<(Seq<u8>, EntryView)>) -> bool {
    forall|i: int, j: int|
        0 <= i < j < entries.len() ==> #[trigger] entries[i].0 != #[trigger] entries[j].0
}

/// `LruCache::new`: the cache is empty and holds at most the given number of
/// entries. It allocates its table at once; beyond the bound asked for here
/// the table's size in bytes may not fit the address space, and the call
/// panics.
#[verifier::external_body]
fn lru_new(capacity: usize) -> (r: LruCache<Vec<u8>, CacheEntry>)
    requires
        0 < capacity <= usize::MAX / 128,
    ensures
        lru_entries(r) == Seq::<(Seq<u8>, EntryView)>::empty(),
        lru_limit(r) == capacity,
{
    LruCache::new(NonZeroUsize::new(capacity).expect("capacity is positive"))
}

/// `LruCache::get`: the value of the key, which then counts as the one used
/// last, or `None` and no change.
#[verifier::external_body]
fn lru_get<'a>(cache: &'a mut LruCache<Vec<u8>, CacheEntry>, key: &[u8]) -> (r: Option<
    &'a CacheEntry,
>)
    ensures
        r is Some <==> found(lru_entries(*old(cache)), key@) is Some,
        r is Some ==> found(lru_entries(*old(cache)), key@) == Some(r->Some_0@),
        lru_entries(*final(cache)) == after_get(lru_entries(*old(cache)), key@),
        lru_limit(*final(cache)) == lru_limit(*old(cache)),
{
    cache.get(key)
}

/// `LruCache::put`: the entry becomes the one used last; the entry of the same
/// key goes, or, where the key is new and the cache is full, the entry that
/// was used longest ago. Not stated: the replaced value, which the call
/// returns and this function drops.
#[verifier::external_body]
fn lru_put(cache: &mut LruCache<Vec<u8>, CacheEntry>, key: Vec<u8>, entry: CacheEntry)
    ensures
        lru_entries(*final(cache)) == after_put(
            lru_entries(*old(cache)),
            lru_limit(*old(cache)),
            key@,
            entry@,
        ),
        lru_limit(*final(cache)) == lru_limit(*old(cache)),
{
    cache.put(key, entry);
}

/// `LruCache::pop`: the key's entry goes, and the order of the others stays.
/// Not stated: the value, which the call returns and this function drops.
#[verifier::external_body]
fn lru_pop(cache: &mut LruCache<Vec<u8>, CacheEntry>, key: &[u8])
    ensures
        lru_entries(*final(cache)) == after_pop(lru_entries(*old(cache)), key@),
        lru_limit(*final(cache)) == lru_limit(*old(cache)),
{
    cache.pop(key);
}

/// `LruCache::clear`: every entry goes.
#[verifier::external_body]
fn lru_clear(cache: &mut LruCache<Vec<u8>, CacheEntry>)
    ensures
        lru_entries(*final(cache)) == Seq::<(Seq<u8>, EntryView)>::empty(),
        lru_limit(*final(cache)) == lru_limit(*old(cache)),
{
    cache.clear();
}

/// `LruCache::len`: the number of entries.
#[verifier::external_body]
fn lru_len(cache: &LruCache<Vec<u8>, CacheEntry>) -> (r: usize)
    ensures
        r == lru_entries(*cache).len(),
{
    cache.len()
}

/// `LruCache::cap`: the number of entries that the cache was made for.
#[verifier::external_body]
fn lru_cap(cache: &LruCache<Vec<u8>, CacheEntry>) -> (r: usize)
    ensures
        r == lru_limit(*cache),
{
    cache.cap().get()
}

/// Row cache with counters of its hits and misses.
pub struct RowCache {
    inner: LruCache<Vec<u8>, CacheEntry>,
    hits: u64,
    misses: u64,
}

impl RowCache {
    /// The entries, the most recently used first.
    pub closed spec fn entries(&self) -> Seq<(Seq<u8>, EntryView)> {
        lru_entries(self.inner)
    }

    /// The number of entries that the cache was made for.
    pub closed spec fn limit(&self) -> nat {
        lru_limit(self.inner)
    }

    /// The lookups that found an entry, modulo 2^64.
    pub closed spec fn hits(&self) -> u64 {
        self.hits
    }

    /// The lookups that found none, modulo 2^64.
    pub closed spec fn misses(&self) -> u64 {
        self.misses
    }

    /// Keys are distinct and the entries do not exceed the limit.
    pub open spec fn wf(&self) -> bool {
        &&& keys_distinct(self.entries())
        &&& self.entries().len() <= self.limit()
        &&& self.limit() > 0
    }

    /// An empty cache for the given number of entries.
    pub fn new(capacity: usize) -> (r: Self)
        requires
            0 < capacity <= usize::MAX / 128,
        ensures
            r.wf(),
            r.entries() == Seq::<(Seq<u8>, EntryView)>::empty(),
            r.limit() == capacity,
            r.hits() == 0,
            r.misses() == 0,
    {
        RowCache { inner: lru_new(capacity), hits: 0, misses: 0 }
    }

    /// Looks a key up. A hit makes its entry the most recently used one.
    pub fn get(&mut self, user_key: &[u8]) -> (r: Option<CacheEntry>)
        requires
            old(self).wf(),
        ensures
            final(self).wf(),
            match r {
                Some(entry) => found(old(self).entries(), user_key@) == Some(entry@),
                None => found(old(self).entries(), user_key@) is None,
            },
            final(self).entries() == after_get(old(self).entries(), user_key@),
            final(self).limit() == old(self).limit(),
            final(self).hits() == (if r is Some {
                old(self).hits().wrapping_add(1)
            } else {
                old(self).hits()
            }),
            final(self).misses() == (if r is None {
                old(self).misses().wrapping_add(1)
            } else {
                old(self).misses()
            }),
    {
        proof {
            lemma_get_keeps_keys_distinct(self.entries(), user_key@);
        }
        let copy = match lru_get(&mut self.inner, user_key) {
            Some(entry) => Some(entry.clone()),
            None => None,
        };
        if copy.is_some() {
            self.hits = self.hits.wrapping_add(1);
        } else {
            self.misses = self.misses.wrapping_add(1);
        }
        copy
    }

    /// Adds an entry, or replaces the one of the same key.
    pub fn insert(&mut self, user_key: Vec<u8>, entry: CacheEntry)
        requires
            old(self).wf(),
        ensures
            final(self).wf(),
            final(self).entries() == after_put(
                old(self).entries(),
                old(self).limit(),
                user_key@,
                entry@,
            ),
            final(self).limit() == old(self).limit(),
            final(self).hits() == old(self).hits(),
            final(self).misses() == old(self).misses(),
    {
        proof {
            lemma_put_keeps_keys_distinct(self.entries(), self.limit(), user_key@, entry@);
        }
        lru_put(&mut self.inner, user_key, entry);
    }

    /// Takes a key out: it is about to be written.
    pub fn invalidate(&mut self, user_key: &[u8])
        requires
            old(self).wf(),
        ensures
            final(self).wf(),
            final(self).entries() == after_pop(old(self).entries(), user_key@),
            final(self).limit() == old(self).limit(),
            final(self).hits() == old(self).hits(),
            final(self).misses() == old(self).misses(),
    {
        proof {
            lemma_pop_keeps_keys_distinct(self.entries(), user_key@);
        }
        lru_pop(&mut self.inner, user_key);
    }

    /// Takes every entry out: a compaction replaced the files they came from.
    pub fn clear(&mut self)
        requires
            old(self).wf(),
        ensures
            final(self).wf(),
            final(self).entries() == Seq::<(Seq<u8>, EntryView)>::empty(),
            final(self).limit() == old(self).limit(),
            final(self).hits() == old(self).hits(),
            final(self).misses() == old(self).misses(),
    {
        lru_clear(&mut self.inner);
    }

    /// The number of entries.
    pub fn len(&self) -> (r: usize)
        ensures
            r == self.entries().len(),
    {
        lru_len(&self.inner)
    }

    /// Whether there is no entry.
    pub fn is_empty(&self) -> (r: bool)
        ensures
            r == (self.entries().len() == 0),
    {
        self.len() == 0
    }

    /// The number of entries that the cache was made for.
    pub fn cap(&self) -> (r: usize)
        ensures
            r == self.limit(),
    {
        lru_cap(&self.inner)
    }

    /// The lookups that found an entry.
    pub fn hit_count(&self) -> (r: u64)
        ensures
            r == self.hits(),
    {
        self.hits
    }

    /// The lookups that found none.
    pub fn miss_count(&self) -> (r: u64)
        ensures
            r == self.misses(),
    {
        self.misses
    }
}

/// A lookup changes the order of the entries and nothing else.
proof fn lemma_get_keeps_keys_distinct(entries: Seq<(Seq<u8>, EntryView)>, key: Seq<u8>)
    requires
        keys_distinct(entries),
    ensures
        keys_distinct(after_get(entries, key)),
        after_get(entries, key).len() == entries.len(),
{
}

/// An insert keeps keys apart and the limit.
proof fn lemma_put_keeps_keys_distinct(
    entries: Seq<(Seq<u8>, EntryView)>,
    limit: nat,
    key: Seq<u8>,
    entry: EntryView,
)
    requires
        keys_distinct(entries),
        entries.len() <= limit,
        limit > 0,
    ensures
        keys_distinct(after_put(entries, limit, key, entry)),
        after_put(entries, limit, key, entry).len() <= limit,
{
}

/// Taking a key out keeps the others apart.
proof fn lemma_pop_keeps_keys_distinct(entries: Seq<(Seq<u8>, EntryView)>, key: Seq<u8>)
    requires
        keys_distinct(entries),
    ensures
        keys_distinct(after_pop(entries, key)),
        after_pop(entries, key).len() <= entries.len(),
{
}

/// What was inserted last under a key is what a lookup of that key finds.
pub proof fn law_inserted_row_is_found(
    entries: Seq<(Seq<u8>, EntryView)>,
    limit: nat,
    key: Seq<u8>,
    entry: EntryView,
)
    requires
        keys_distinct(entries),
        entries.len() <= limit,
        limit > 0,
    ensures
        found(after_put(entries, limit, key, entry), key) == Some(entry),
{
    let after = after_put(entries, limit, key, entry);
    lemma_put_keeps_keys_distinct(entries, limit, key, entry);
    assert(after[0].0 == key);
    assert(slot(after, key) == 0);
}

/// A key that was invalidated is not found until it is inserted again: the
/// cache serves no row that a write has replaced.
pub proof fn law_invalidated_row_is_not_found(
    entries: Seq<(Seq<u8>, EntryView)>,
    key: Seq<u8>,
)
    requires
        keys_distinct(entries),
    ensures
        found(after_pop(entries, key), key) is None,
{
}

/// Taking a key out leaves what is found of every other key.
pub proof fn law_invalidation_spares_other_keys(
    entries: Seq<(Seq<u8>, EntryView)>,
    key: Seq<u8>,
    other: Seq<u8>,
)
    requires
        keys_distinct(entries),
        other != key,
    ensures
        found(after_pop(entries, key), other) == found(entries, other),
{
    lemma_pop_keeps_keys_distinct(entries, key);
    let after = after_pop(entries, key);
    if holds(entries, key) {
        let at = slot(entries, key);
        if holds(entries, other) {
            let i = slot(entries, other);
            let k = if i < at { i } else { i - 1 };
            assert(after[k] == entries[i]);
            assert(slot(after, other) == k);
        }
        if holds(after, other) {
            let k = slot(after, other);
            let i = if k < at { k } else { k + 1 };
            assert(entries[i] == after[k]);
        }
    }
}

/// An insert drops at most one other entry, and only the one that was used
/// longest ago: every key but the last one is found as before.
pub proof fn law_insert_evicts_the_oldest_only(
    entries: Seq<(Seq<u8>, EntryView)>,
    limit: nat,
    key: Seq<u8>,
    entry: EntryView,
    i: int,
)
    requires
        keys_distinct(entries),
        entries.len() <= limit,
        0 <= i < entries.len(),
        entries[i].0 != key,
        i < entries.len() - 1 || entries.len() < limit || holds(entries, key),
    ensures
        found(after_put(entries, limit, key, entry), entries[i].0) == Some(entries[i].1),
{
    lemma_put_keeps_keys_distinct(entries, limit, key, entry);
    let after = after_put(entries, limit, key, entry);
    let k = if holds(entries, key) && i > slot(entries, key) { i } else { i + 1 };
    assert(after[k] == entries[i]);
    assert(slot(after, entries[i].0) == k);
}

/// A lookup makes its entry the last one to be dropped.
pub proof fn law_hit_becomes_the_newest(entries: Seq<(Seq<u8>, EntryView)>, key: Seq<u8>)
    requires
        keys_distinct(entries),
        holds(entries, key),
    ensures
        after_get(entries, key)[0].0 == key,
        found(after_get(entries, key), key) == found(entries, key),
{
    lemma_get_keeps_keys_distinct(entries, key);
    let after = after_get(entries, key);
    assert(after[0].0 == key);
    assert(slot(after, key) == 0);
}

/// The view of an entry shows its operation and its row.
pub proof fn law_entry_view_shows_every_field(e: CacheEntry)
    ensures
        e@.op_type == e.op_type,
        e@.row == e.row@,
{
}

/// What each operation leaves of the entries, where the key stands at place
/// `i`: a lookup finds its value and moves it to the front, an insert puts the
/// new value there, and taking it out closes the gap; all other entries keep
/// their order.
pub proof fn law_operations_on_a_known_key(
    entries: Seq<(Seq<u8>, EntryView)>,
    limit: nat,
    i: int,
    entry: EntryView,
)
    requires
        forall|a: int, b: int|
            0 <= a < b < entries.len() ==> #[trigger] entries[a].0 != #[trigger] entries[b].0,
        0 <= i < entries.len(),
    ensures
        found(entries, entries[i].0) == Some(entries[i].1),
        after_get(entries, entries[i].0) == seq![entries[i]] + entries.take(i) + entries.skip(
            i + 1,
        ),
        after_put(entries, limit, entries[i].0, entry) == seq![(entries[i].0, entry)]
            + entries.take(i) + entries.skip(i + 1),
        after_pop(entries, entries[i].0) == entries.take(i) + entries.skip(i + 1),
{
    let key = entries[i].0;
    assert(holds(entries, key));
    assert(slot(entries, key) == i);
    assert(entries.remove(i) =~= entries.take(i) + entries.skip(i + 1));
    assert(seq![entries[i]] + entries.remove(i) =~= seq![entries[i]] + entries.take(i)
        + entries.skip(i + 1));
    assert(seq![(key, entry)] + entries.remove(i) =~= seq![(key, entry)] + entries.take(i)
        + entries.skip(i + 1));
}

/// What each operation leaves of the entries, where the key is not among them:
/// a lookup finds nothing and taking it out changes nothing; an insert puts it
/// to the front, and the last entry goes where the cache was full.
pub proof fn law_operations_on_an_unknown_key(
    entries: Seq<(Seq<u8>, EntryView)>,
    limit: nat,
    key: Seq<u8>,
    entry: EntryView,
)
    requires
        forall|i: int| 0 <= i < entries.len() ==> #[trigger] entries[i].0 != key,
    ensures
        found(entries, key) is None,
        after_get(entries, key) == entries,
        after_pop(entries, key) == entries,
        entries.len() < limit ==> after_put(entries, limit, key, entry) == seq![(key, entry)]
            + entries,
        entries.len() == limit && limit > 0 ==> after_put(entries, limit, key, entry) == seq![
            (key, entry),
        ] + entries.take(limit - 1),
{
    if entries.len() == limit && limit > 0 {
        assert(entries.drop_last() =~= entries.take(limit - 1));
    }
}

} // verus!
