//! Bounded selection memory: a least-recently-used cache from node identity
//! to the selection that the node's list was left in.

use vstd::prelude::*;
use lru::LruCache;
use crate::selection::SelectionState;
use crate::selection::is_default;

verus! {

/// `lru::LruCache`, taken as an opaque value: what it holds is told by
/// `cache_entries` and `cache_capacity`.
#[verifier::external_type_specification]
#[verifier::external_body]
#[verifier::reject_recursive_types(K)]
#[verifier::reject_recursive_types(V)]
#[verifier::reject_recursive_types(S)]
pub struct ExLruCache<K, V, S>(LruCache<K, V, S>);

/// `lru::DefaultHasher`, the hasher that a cache made by `LruCache::new`
/// uses; an opaque value that nothing here looks into.
#[verifier::external_type_specification]
#[verifier::external_body]
pub struct ExDefaultHasher(lru::DefaultHasher);

/// One remembered selection: the identity of a node and the state of its list.
pub type Entry = (usize, SelectionState);

/// What a cache holds, from the most recently used entry to the least
/// recently used one.
pub uninterp spec fn cache_entries(cache: LruCache<usize, SelectionState>) -> Seq<Entry>;

/// The number of entries that a cache was made to hold at most.
pub uninterp spec fn cache_capacity(cache: LruCache<usize, SelectionState>) -> nat;

/// The largest capacity that a cache can be made with.
pub const MAX_CAPACITY: usize = 65536;

/// A memory keeps its bound and its distinct keys.
pub open spec fn memory_wf(memory: Seq<Entry>, capacity: nat) -> bool {
    &&& keys_distinct(memory)
    &&& 0 < capacity
    &&& memory.len() <= capacity
}

/// No key occurs twice.
pub open spec fn keys_distinct(entries: Seq<Entry>) -> bool {
    forall|i: int, j: int|
        0 <= i < j < entries.len() ==> (#[trigger] entries[i]).0 != (#[trigger] entries[j]).0
}

/// Whether some entry has the key.
pub open spec fn has_key(entries: Seq<Entry>, key: usize) -> bool {
    exists|i: int| 0 <= i < entries.len() && (#[trigger] entries[i]).0 == key
}

/// Position of the first entry with the key, or -1 where there is none.
pub open spec fn index_of_key(entries: Seq<Entry>, key: usize) -> int
    decreases entries.len(),
{
    if entries.len() == 0 {
        -1
    } else if entries[0].0 == key {
        0
    } else {
        let rest = index_of_key(entries.drop_first(), key);
        if rest < 0 {
            -1
        } else {
            rest + 1
        }
    }
}

/// The state remembered for the key, if any.
pub open spec fn lookup(entries: Seq<Entry>, key: usize) -> Option<SelectionState> {
    let i = index_of_key(entries, key);
    if i < 0 {
        None
    } else {
        Some(entries[i].1)
    }
}

/// The entries after the key was used: its entry moves to the front, the
/// others keep their order. Nothing changes where the key is absent.
pub open spec fn touched(entries: Seq<Entry>, key: usize) -> Seq<Entry> {
    let i = index_of_key(entries, key);
    if i < 0 {
        entries
    } else {
        seq![entries[i]] + entries.remove(i)
    }
}

/// The entries after a state was stored under the key in a cache of the
/// given capacity. A key that is present has its state replaced and moves
/// to the front. A new key goes to the front, and where the cache is full
/// the least recently used entry leaves first.
pub open spec fn stored(entries: Seq<Entry>, capacity: nat, key: usize, state: SelectionState) -> Seq<Entry> {
    let i = index_of_key(entries, key);
    if i >= 0 {
        seq![(key, state)] + entries.remove(i)
    } else if entries.len() < capacity {
        seq![(key, state)] + entries
    } else {
        seq![(key, state)] + entries.drop_last()
    }
}

/// The entries without the entry of the key; the others keep their order.
pub open spec fn without(entries: Seq<Entry>, key: usize) -> Seq<Entry> {
    let i = index_of_key(entries, key);
    if i < 0 {
        entries
    } else {
        entries.remove(i)
    }
}

/// Calls `lru::LruCache::new`. The new cache is empty and holds at most
/// `capacity` entries.
#[verifier::external_body]
fn cache_new(capacity: usize) -> (cache: LruCache<usize, SelectionState>)
    requires
        0 < capacity <= MAX_CAPACITY,
    ensures
        cache_entries(cache) == Seq::<Entry>::empty(),
        cache_capacity(cache) == capacity,
{
    LruCache::new(std::num::NonZeroUsize::new(capacity).unwrap())
}

/// Calls `lru::LruCache::get`. Returns the state stored under the key, if
/// any, and makes that entry the most recently used one. An absent key
/// changes nothing.
#[verifier::external_body]
fn cache_get(cache: &mut LruCache<usize, SelectionState>, key: usize) -> (found: Option<SelectionState>)
    ensures
        found == lookup(cache_entries(*old(cache)), key),
        cache_entries(*final(cache)) == touched(cache_entries(*old(cache)), key),
        cache_capacity(*final(cache)) == cache_capacity(*old(cache)),
{
    cache.get(&key).copied()
}

/// Calls `lru::LruCache::put`. Stores the state under the key as the most
/// recently used entry; a full cache first drops its least recently used
/// entry to make room for a new key.
#[verifier::external_body]
fn cache_put(cache: &mut LruCache<usize, SelectionState>, key: usize, state: SelectionState)
    ensures
        cache_entries(*final(cache)) == stored(
            cache_entries(*old(cache)),
            cache_capacity(*old(cache)),
            key,
            state,
        ),
        cache_capacity(*final(cache)) == cache_capacity(*old(cache)),
{
    cache.put(key, state);
}

/// Calls `lru::LruCache::pop`. Takes the entry of the key out of the cache
/// and returns its state; an absent key changes nothing.
#[verifier::external_body]
fn cache_pop(cache: &mut LruCache<usize, SelectionState>, key: usize) -> (found: Option<SelectionState>)
    ensures
        found == lookup(cache_entries(*old(cache)), key),
        cache_entries(*final(cache)) == without(cache_entries(*old(cache)), key),
        cache_capacity(*final(cache)) == cache_capacity(*old(cache)),
{
    cache.pop(&key)
}

/// Calls `lru::LruCache::push`, which changes the cache as `put` does, and
/// drops the entry that it hands back.
#[verifier::external_body]
fn cache_push(cache: &mut LruCache<usize, SelectionState>, key: usize, state: SelectionState)
    ensures
        cache_entries(*final(cache)) == stored(
            cache_entries(*old(cache)),
            cache_capacity(*old(cache)),
            key,
            state,
        ),
        cache_capacity(*final(cache)) == cache_capacity(*old(cache)),
{
    cache.push(key, state);
}

/// A bounded memory of selections, keyed by node identity. When it is full,
/// the entry that was used least recently makes room for a new one.
#[derive(Debug)]
pub struct SelectionCache {
    inner: LruCache<usize, SelectionState>,
}

impl View for SelectionCache {
    type V = Seq<Entry>;

    /// The entries, most recently used first.
    closed spec fn view(&self) -> Seq<Entry> {
        cache_entries(self.inner)
    }
}

impl SelectionCache {
    /// The number of entries held at most.
    pub closed spec fn capacity(&self) -> nat {
        cache_capacity(self.inner)
    }

    /// The bound is respected and every key occurs once.
    pub open spec fn wf(&self) -> bool {
        memory_wf(self@, self.capacity())
    }

    /// An empty cache for at most `capacity` entries.
    pub fn new(capacity: usize) -> (cache: SelectionCache)
        requires
            0 < capacity <= MAX_CAPACITY,
        ensures
            cache.wf(),
            cache@ == Seq::<Entry>::empty(),
            cache.capacity() == capacity,
    {
        SelectionCache { inner: cache_new(capacity) }
    }

    /// Looks the key up and, where it is present, marks its entry as the
    /// most recently used one.
    pub fn get(&mut self, key: usize) -> (found: Option<SelectionState>)
        requires
            old(self).wf(),
        ensures
            final(self).wf(),
            found == lookup(old(self)@, key),
            final(self)@ == touched(old(self)@, key),
            final(self).capacity() == old(self).capacity(),
    {
        proof {
            lemma_touched_wf(self@, key);
        }
        cache_get(&mut self.inner, key)
    }

    /// Stores the state under the key as the most recently used entry.
    pub fn put(&mut self, key: usize, state: SelectionState)
        requires
            old(self).wf(),
        ensures
            final(self).wf(),
            final(self)@ == stored(old(self)@, old(self).capacity(), key, state),
            final(self).capacity() == old(self).capacity(),
    {
        proof {
            lemma_stored_wf(self@, self.capacity(), key, state);
        }
        cache_put(&mut self.inner, key, state)
    }

    /// Stores the state under the key as the most recently used entry,
    /// whatever the state is.
    pub fn push(&mut self, key: usize, state: SelectionState)
        requires
            old(self).wf(),
        ensures
            final(self).wf(),
            final(self)@ == stored(old(self)@, old(self).capacity(), key, state),
            final(self).capacity() == old(self).capacity(),
    {
        proof {
            lemma_stored_wf(self@, self.capacity(), key, state);
        }
        cache_push(&mut self.inner, key, state)
    }

    /// Takes the entry of the key out and returns its state.
    pub fn pop(&mut self, key: usize) -> (found: Option<SelectionState>)
        requires
            old(self).wf(),
        ensures
            final(self).wf(),
            found == lookup(old(self)@, key),
            final(self)@ == without(old(self)@, key),
            final(self).capacity() == old(self).capacity(),
            lookup(final(self)@, key) is None,
    {
        proof {
            lemma_without_wf(self@, key);
        }
        cache_pop(&mut self.inner, key)
    }

    /// Stores the state under the key unless it is the default position,
    /// which is not worth an entry.
    pub fn remember(&mut self, key: usize, state: SelectionState)
        requires
            old(self).wf(),
        ensures
            final(self).wf(),
            final(self)@ == remembered(old(self)@, old(self).capacity(), key, state),
            final(self).capacity() == old(self).capacity(),
    {
        if state.is_non_default() {
            self.put(key, state);
        }
    }
}

/// The entries after `remember`: a default state leaves them as they are.
pub open spec fn remembered(entries: Seq<Entry>, capacity: nat, key: usize, state: SelectionState) -> Seq<Entry> {
    if is_default(state) {
        entries
    } else {
        stored(entries, capacity, key, state)
    }
}

/// What `index_of_key` finds: the first position with the key, and -1
/// exactly where no entry has it.
pub proof fn lemma_index_of_key(entries: Seq<Entry>, key: usize)
    ensures
        -1 <= index_of_key(entries, key) < entries.len(),
        index_of_key(entries, key) >= 0 ==> entries[index_of_key(entries, key)].0 == key,
        forall|j: int| 0 <= j < entries.len() && j < index_of_key(entries, key) ==> (#[trigger] entries[j]).0 != key,
        index_of_key(entries, key) < 0 ==> forall|j: int| 0 <= j < entries.len() ==> (#[trigger] entries[j]).0 != key,
    decreases entries.len(),
{
    if entries.len() > 0 && entries[0].0 != key {
        let rest = entries.drop_first();
        lemma_index_of_key(rest, key);
        let r = index_of_key(rest, key);
        assert forall|j: int| 0 <= j < entries.len() && (r < 0 || j < r + 1) implies (#[trigger] entries[j]).0 != key by {
            if j > 0 {
                assert(rest[j - 1] == entries[j]);
            }
        }
    }
}

/// Where keys are distinct, the entry with a key is found at its position.
pub proof fn lemma_index_of_key_at(entries: Seq<Entry>, i: int)
    requires
        keys_distinct(entries),
        0 <= i < entries.len(),
    ensures
        index_of_key(entries, entries[i].0) == i,
        lookup(entries, entries[i].0) == Some(entries[i].1),
{
    lemma_index_of_key(entries, entries[i].0);
}

/// Using a key keeps a cache within its bound and its keys distinct.
pub proof fn lemma_touched_wf(entries: Seq<Entry>, key: usize)
    requires
        keys_distinct(entries),
    ensures
        keys_distinct(touched(entries, key)),
        touched(entries, key).len() == entries.len(),
{
    lemma_index_of_key(entries, key);
    let i = index_of_key(entries, key);
    if i >= 0 {
        let t = touched(entries, key);
        assert forall|a: int, b: int| 0 <= a < b < t.len() implies (#[trigger] t[a]).0 != (#[trigger] t[b]).0 by {
            let rest = entries.remove(i);
            let bb = if b - 1 < i { b - 1 } else { b };
            assert(t[b] == rest[b - 1]);
            assert(rest[b - 1] == entries[bb]);
            if a == 0 {
                assert(t[0] == entries[i]);
            } else {
                let aa = if a - 1 < i { a - 1 } else { a };
                assert(t[a] == rest[a - 1]);
                assert(rest[a - 1] == entries[aa]);
            }
        }
    }
}

/// Taking a key out keeps the keys distinct and leaves no entry for it.
pub proof fn lemma_without_wf(entries: Seq<Entry>, key: usize)
    requires
        keys_distinct(entries),
    ensures
        keys_distinct(without(entries, key)),
        without(entries, key).len() <= entries.len(),
        lookup(without(entries, key), key) is None,
{
    lemma_index_of_key(entries, key);
    let i = index_of_key(entries, key);
    let rest = without(entries, key);
    if i >= 0 {
        assert forall|a: int, b: int| 0 <= a < b < rest.len() implies (#[trigger] rest[a]).0 != (
        #[trigger] rest[b]).0 by {
            let aa = if a < i { a } else { a + 1 };
            let bb = if b < i { b } else { b + 1 };
            assert(rest[a] == entries[aa]);
            assert(rest[b] == entries[bb]);
        }
        assert forall|j: int| 0 <= j < rest.len() implies (#[trigger] rest[j]).0 != key by {
            let jj = if j < i { j } else { j + 1 };
            assert(rest[j] == entries[jj]);
            if jj < i {
            } else {
                assert(entries[i].0 != entries[jj].0);
            }
        }
    }
    lemma_index_of_key(rest, key);
}

/// Storing a state keeps a cache within its bound and its keys distinct.
pub proof fn lemma_stored_wf(entries: Seq<Entry>, capacity: nat, key: usize, state: SelectionState)
    requires
        keys_distinct(entries),
        entries.len() <= capacity,
        0 < capacity,
    ensures
        keys_distinct(stored(entries, capacity, key, state)),
        stored(entries, capacity, key, state).len() <= capacity,
        stored(entries, capacity, key, state).len() > 0,
        stored(entries, capacity, key, state)[0] == (key, state),
{
    lemma_index_of_key(entries, key);
    let i = index_of_key(entries, key);
    let t = stored(entries, capacity, key, state);
    let rest = if i >= 0 {
        entries.remove(i)
    } else if entries.len() < capacity {
        entries
    } else {
        entries.drop_last()
    };
    assert(t == seq![(key, state)] + rest);
    assert forall|a: int, b: int| 0 <= a < b < t.len() implies (#[trigger] t[a]).0 != (#[trigger] t[b]).0 by {
        assert(t[b] == rest[b - 1]);
        let bb = if i >= 0 && b - 1 >= i { b } else { b - 1 };
        assert(rest[b - 1] == entries[bb]);
        if a > 0 {
            assert(t[a] == rest[a - 1]);
            let aa = if i >= 0 && a - 1 >= i { a } else { a - 1 };
            assert(rest[a - 1] == entries[aa]);
        }
    }
}

} // verus!
