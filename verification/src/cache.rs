//! The content cache: a least-recently-used cache of fixed capacity, keyed by
//! item index. An entry is either pending (its content is being fetched) or
//! resolved.

use vstd::prelude::*;
use lru::LruCache;
use crate::content::{Content, PostId};
use crate::Error;
use crate::recency::{
    distinct, holds, inserted, lemma_inserted, lemma_renewed, lemma_touched, lookup, renewed,
    touched,
};

verus! {

/// `lru::LruCache`, taken as it is: nothing inside it is seen here.
#[verifier::external_type_specification]
#[verifier::external_body]
#[verifier::reject_recursive_types(K)]
#[verifier::reject_recursive_types(V)]
#[verifier::reject_recursive_types(S)]
pub struct ExLruCache<K, V, S>(LruCache<K, V, S>);

/// `lru::DefaultHasher`, the hasher that `LruCache` uses unless it is given
/// another; nothing inside it is seen here.
#[verifier::external_type_specification]
#[verifier::external_body]
pub struct ExDefaultHasher(lru::DefaultHasher);

/// What a cache holds, from the least to the most recently used entry. The
/// value `None` stands for a pending entry.
pub uninterp spec fn lru_entries(cache: LruCache<PostId, Option<Content>>) -> Seq<
    (PostId, Option<Content>),
>;

/// The number of entries that a cache was made to hold.
pub uninterp spec fn lru_limit(cache: LruCache<PostId, Option<Content>>) -> nat;

/// The largest capacity a cache is made with.
pub const MAX_CAPACITY: usize = 0x10_0000;

/// `LruCache::new`: an empty cache that holds at most `cap` entries. The table
/// for `cap` entries is allocated at once, which is why `cap` is bounded.
#[verifier::external_body]
fn lru_new(cap: usize) -> (cache: LruCache<PostId, Option<Content>>)
    requires
        cap <= MAX_CAPACITY,
    ensures
        lru_entries(cache) == Seq::<(PostId, Option<Content>)>::empty(),
        lru_limit(cache) == cap,
{
    LruCache::new(cap)
}

/// `LruCache::len`: the number of entries held.
#[verifier::external_body]
fn lru_len(cache: &LruCache<PostId, Option<Content>>) -> (len: usize)
    ensures
        len == lru_entries(*cache).len(),
{
    cache.len()
}

/// `LruCache::cap`: the number of entries the cache was made to hold.
#[verifier::external_body]
fn lru_cap(cache: &LruCache<PostId, Option<Content>>) -> (cap: usize)
    ensures
        cap == lru_limit(*cache),
{
    cache.cap()
}

/// `LruCache::contains`: whether there is an entry under `key`; the order of
/// use stays as it is.
#[verifier::external_body]
fn lru_contains(cache: &LruCache<PostId, Option<Content>>, key: PostId) -> (found: bool)
    ensures
        found == holds(lru_entries(*cache), key),
{
    cache.contains(&key)
}

/// `LruCache::peek`: the value under `key`, if there is one; the order of use
/// stays as it is.
#[verifier::external_body]
fn lru_peek(cache: &LruCache<PostId, Option<Content>>, key: PostId) -> (value: Option<
    &Option<Content>,
>)
    ensures
        value == match lookup(lru_entries(*cache), key) {
            Some(held) => Some(&held),
            None => None,
        },
{
    cache.peek(&key)
}

/// `LruCache::put`: an entry under `key` gets the new value and becomes the most
/// recently used one, and its old value is returned. Otherwise the new entry is
/// added as the most recently used one, after the least recently used entry has
/// left a full cache, and `None` is returned. A cache made for no entries stays
/// empty.
#[verifier::external_body]
fn lru_put(
    cache: &mut LruCache<PostId, Option<Content>>,
    key: PostId,
    value: Option<Content>,
) -> (previous: Option<Option<Content>>)
    ensures
        lru_limit(*final(cache)) == lru_limit(*old(cache)),
        lru_entries(*final(cache)) == inserted(
            lru_entries(*old(cache)),
            lru_limit(*old(cache)),
            key,
            value,
        ),
        previous == lookup(lru_entries(*old(cache)), key),
{
    cache.put(key, value)
}

/// `LruCache::get`: the value under `key`, if there is one; that entry becomes
/// the most recently used one.
#[verifier::external_body]
fn lru_get(cache: &mut LruCache<PostId, Option<Content>>, key: PostId) -> (value: Option<
    &Option<Content>,
>)
    ensures
        lru_limit(*final(cache)) == lru_limit(*old(cache)),
        lru_entries(*final(cache)) == touched(lru_entries(*old(cache)), key),
        value == match lookup(lru_entries(*old(cache)), key) {
            Some(held) => Some(&held),
            None => None,
        },
{
    cache.get(&key)
}

/// `LruCache::get_mut`: a mutable reference to the value under `key`, if there
/// is one; that entry becomes the most recently used one and ends up with
/// whatever is written through the reference.
#[verifier::external_body]
fn lru_get_mut(cache: &mut LruCache<PostId, Option<Content>>, key: PostId) -> (slot: Option<
    &mut Option<Content>,
>)
    ensures
        lru_limit(*final(cache)) == lru_limit(*old(cache)),
        match slot {
            Some(value) => lookup(lru_entries(*old(cache)), key) == Some(*value) && lru_entries(
                *final(cache),
            ) == renewed(lru_entries(*old(cache)), key, *final(value)),
            None => !holds(lru_entries(*old(cache)), key) && lru_entries(*final(cache))
                == lru_entries(*old(cache)),
        },
{
    cache.get_mut(&key)
}

/// `LruCache::clear`: every entry leaves; the limit stays.
#[verifier::external_body]
fn lru_clear(cache: &mut LruCache<PostId, Option<Content>>)
    ensures
        lru_limit(*final(cache)) == lru_limit(*old(cache)),
        lru_entries(*final(cache)) == Seq::<(PostId, Option<Content>)>::empty(),
{
    cache.clear()
}

/// A cache of item content that holds at most a fixed number of entries and
/// lets the least recently used one go when a new one needs its place.
pub struct ContentCache {
    entries: LruCache<PostId, Option<Content>>,
}

impl View for ContentCache {
    type V = Seq<(PostId, Option<Content>)>;

    /// The entries from the least to the most recently used one; the value
    /// `None` stands for a pending entry.
    closed spec fn view(&self) -> Seq<(PostId, Option<Content>)> {
        lru_entries(self.entries)
    }
}

impl ContentCache {
    /// The number of entries the cache was made to hold.
    pub closed spec fn spec_capacity(&self) -> nat {
        lru_limit(self.entries)
    }

    /// No index has two entries, and there are no more entries than the
    /// capacity allows.
    pub open spec fn wf(&self) -> bool {
        &&& distinct(self@)
        &&& self@.len() <= self.spec_capacity()
    }

    /// Whether there is an entry, pending or resolved, for `index`.
    pub open spec fn spec_contains(&self, index: PostId) -> bool {
        holds(self@, index)
    }

    /// Whether the entry for `index` is pending.
    pub open spec fn is_pending(&self, index: PostId) -> bool {
        lookup(self@, index) == Some(None::<Content>)
    }

    /// The content that `index` has resolved to, if it has.
    pub open spec fn resolved(&self, index: PostId) -> Option<Content> {
        match lookup(self@, index) {
            Some(Some(content)) => Some(content),
            _ => None,
        }
    }

    /// An empty cache for at most `capacity` entries.
    pub fn new(capacity: usize) -> (cache: ContentCache)
        requires
            capacity <= MAX_CAPACITY,
        ensures
            cache@ == Seq::<(PostId, Option<Content>)>::empty(),
            cache.spec_capacity() == capacity,
            cache.wf(),
    {
        ContentCache { entries: lru_new(capacity) }
    }

    /// The number of entries held, which in a cache that is in order never
    /// exceeds the capacity.
    pub fn len(&self) -> (len: usize)
        ensures
            len == self@.len(),
            self.wf() ==> len <= self.spec_capacity(),
    {
        lru_len(&self.entries)
    }

    /// The number of entries the cache was made to hold.
    pub fn capacity(&self) -> (capacity: usize)
        ensures
            capacity == self.spec_capacity(),
    {
        lru_cap(&self.entries)
    }

    /// Whether there is an entry, pending or resolved, for `index`. Asking does
    /// not count as a use of the entry.
    pub fn contains(&self, index: PostId) -> (found: bool)
        ensures
            found == self.spec_contains(index),
    {
        lru_contains(&self.entries, index)
    }

    /// Whether the entry for `index` is pending. Asking does not count as a use
    /// of the entry.
    pub fn pending(&self, index: PostId) -> (waiting: bool)
        ensures
            waiting == self.is_pending(index),
    {
        match lru_peek(&self.entries, index) {
            Some(None) => true,
            _ => false,
        }
    }

    /// Adds a pending entry for `index` as the most recently used one, unless
    /// `index` has an entry already; says whether `index` was without one. In a
    /// full cache the least recently used entry leaves to make room, whatever
    /// its state; a cache made for no entries stays empty.
    pub fn mark_pending(&mut self, index: PostId) -> (added: bool)
        requires
            old(self).wf(),
        ensures
            final(self).wf(),
            final(self).spec_capacity() == old(self).spec_capacity(),
            final(self)@.len() <= final(self).spec_capacity(),
            added == !old(self).spec_contains(index),
            added ==> final(self)@ == inserted(old(self)@, old(self).spec_capacity(), index, None),
            !added ==> final(self)@ == old(self)@,
            added && old(self).spec_capacity() >= 1 ==> final(self).is_pending(index),
    {
        proof {
            lemma_inserted(self@, self.spec_capacity(), index, None);
        }
        if lru_contains(&self.entries, index) {
            false
        } else {
            let _ = lru_put(&mut self.entries, index, None);
            true
        }
    }

    /// Resolves the pending entry for `index` to `content` and makes it the most
    /// recently used one. Fails, and changes nothing, where `index` has no
    /// entry or one that is resolved already.
    pub fn resolve(&mut self, index: PostId, content: Content) -> (done: Result<(), Error>)
        requires
            old(self).wf(),
        ensures
            final(self).wf(),
            final(self).spec_capacity() == old(self).spec_capacity(),
            final(self)@.len() <= final(self).spec_capacity(),
            done is Ok <==> old(self).is_pending(index),
            done is Ok ==> final(self)@ == renewed(old(self)@, index, Some(content)),
            done is Ok ==> final(self).resolved(index) == Some(content),
            done is Err ==> final(self)@ == old(self)@ && done == Err::<(), Error>(
                Error::ProtocolViolation(index),
            ),
    {
        if !self.pending(index) {
            return Err(Error::ProtocolViolation(index));
        }
        proof {
            lemma_renewed(self@, index, Some(content));
        }
        match lru_get_mut(&mut self.entries, index) {
            Some(slot) => {
                *slot = Some(content);
                Ok(())
            },
            None => Err(Error::ProtocolViolation(index)),
        }
    }

    /// The content that `index` has resolved to, if it has. Looking an entry up
    /// makes it the most recently used one, pending or not.
    pub fn get(&mut self, index: PostId) -> (content: Option<&Content>)
        requires
            old(self).wf(),
        ensures
            final(self).wf(),
            final(self).spec_capacity() == old(self).spec_capacity(),
            final(self)@ == touched(old(self)@, index),
            content == match old(self).resolved(index) {
                Some(held) => Some(&held),
                None => None,
            },
    {
        proof {
            lemma_touched(self@, index);
        }
        match lru_get(&mut self.entries, index) {
            Some(Some(content)) => Some(content),
            _ => None,
        }
    }

    /// Empties the cache; its capacity stays.
    pub fn clear(&mut self)
        ensures
            final(self).wf(),
            final(self).spec_capacity() == old(self).spec_capacity(),
            final(self)@ == Seq::<(PostId, Option<Content>)>::empty(),
    {
        lru_clear(&mut self.entries);
    }
}

} // verus!
