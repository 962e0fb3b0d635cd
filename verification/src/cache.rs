//! A bounded cache of previews, keyed by path, that drops the preview which
//! was used longest ago. The store is `lru::LruCache`.

use crate::file_data::FileData;
use crate::recency::{
    accessed, admitted, distinct_keys, key_index, lemma_admitted, lemma_key_index,
    lemma_touched, touched,
};
use lru::LruCache;
use vstd::prelude::*;

verus! {

/// `lru::LruCache`, taken as it is: nothing inside it is visible here.
#[verifier::external_type_specification]
#[verifier::external_body]
#[verifier::reject_recursive_types(K)]
#[verifier::reject_recursive_types(V)]
#[verifier::reject_recursive_types(S)]
pub struct ExLruCache<K, V, S>(LruCache<K, V, S>);

/// `lru::DefaultHasher`, the hasher that an `LruCache` is made with unless
/// another is given.
#[verifier::external_type_specification]
#[verifier::external_body]
pub struct ExDefaultHasher(lru::DefaultHasher);

/// What an `LruCache` holds: each key, as its characters, with its value, the
/// most recently used first.
pub uninterp spec fn cache_items(cache: LruCache<String, FileData>) -> Seq<(Seq<char>, FileData)>;

/// The capacity that an `LruCache` was made with.
pub uninterp spec fn cache_limit(cache: LruCache<String, FileData>) -> nat;

/// The largest capacity that a cache is made with. `LruCache::new` reserves
/// room for as many items as the capacity says, and panics where the size of
/// that room overflows; up to this capacity it does not.
pub const MAX_CAPACITY: usize = 65536;

/// `LruCache::new`: an empty cache of the given capacity. A capacity of zero
/// is left out, since `NonZeroUsize` has no zero, and so is one above
/// `MAX_CAPACITY`.
#[verifier::external_body]
fn lru_new(limit: usize) -> (cache: LruCache<String, FileData>)
    requires
        0 < limit <= MAX_CAPACITY,
    ensures
        cache_items(cache) == Seq::<(Seq<char>, FileData)>::empty(),
        cache_limit(cache) == limit,
{
    LruCache::new(std::num::NonZeroUsize::new(limit).unwrap())
}

/// `LruCache::len`: the number of items held.
#[verifier::external_body]
fn lru_len(cache: &LruCache<String, FileData>) -> (n: usize)
    ensures
        n == cache_items(*cache).len(),
{
    cache.len()
}

/// `LruCache::contains`: whether an item with this key is held. The order of
/// use is not touched.
#[verifier::external_body]
fn lru_contains(cache: &LruCache<String, FileData>, key: &String) -> (held: bool)
    ensures
        held == key_index(cache_items(*cache), key@) is Some,
{
    cache.contains(key)
}

/// `LruCache::get_or_insert_mut`. Where the key is held, its item moves to the
/// front and its value is returned; `build` is not called. Where it is not,
/// `build` is called once, its value goes in at the front under the key, the
/// last item leaves if the cache held as many items as its capacity, and the
/// new value is returned. The capacity stays.
#[verifier::external_body]
fn lru_get_or_insert_mut<F: FnOnce() -> FileData>(
    cache: &mut LruCache<String, FileData>,
    key: String,
    build: F,
) -> (value: &FileData)
    requires
        build.requires(()),
    ensures
        cache_limit(*final(cache)) == cache_limit(*old(cache)),
        match key_index(cache_items(*old(cache)), key@) {
            Some(i) => *value == cache_items(*old(cache))[i].1 && cache_items(*final(cache))
                == touched(cache_items(*old(cache)), i),
            None => build.ensures((), *value) && cache_items(*final(cache)) == admitted(
                cache_items(*old(cache)),
                cache_limit(*old(cache)),
                key@,
                *value,
            ),
        },
{
    cache.get_or_insert_mut(key, build)
}

/// The cache of previews.
pub struct PreviewCache {
    store: LruCache<String, FileData>,
}

impl PreviewCache {
    /// The cached previews with their paths, the most recently used first.
    pub closed spec fn entries(&self) -> Seq<(Seq<char>, FileData)> {
        cache_items(self.store)
    }

    /// The capacity: how many previews the cache holds at most.
    pub closed spec fn limit(&self) -> nat {
        cache_limit(self.store)
    }

    /// The cache holds no more previews than its capacity, which is not zero,
    /// and no path twice.
    pub open spec fn wf(&self) -> bool {
        &&& self.limit() > 0
        &&& self.entries().len() <= self.limit()
        &&& distinct_keys(self.entries())
    }

    /// An empty cache that holds at most `capacity` previews.
    pub fn new(capacity: usize) -> (cache: PreviewCache)
        requires
            0 < capacity <= MAX_CAPACITY,
        ensures
            cache.wf(),
            cache.limit() == capacity,
            cache.entries() == Seq::<(Seq<char>, FileData)>::empty(),
    {
        PreviewCache { store: lru_new(capacity) }
    }

    /// How many previews are cached.
    pub fn len(&self) -> (n: usize)
        ensures
            n == self.entries().len(),
    {
        lru_len(&self.store)
    }

    /// Whether a preview of `path` is cached. Asking does not count as a use.
    pub fn contains(&self, path: &String) -> (held: bool)
        ensures
            held == key_index(self.entries(), path@) is Some,
    {
        lru_contains(&self.store, path)
    }

    /// The preview of `path`. A cached preview is returned and becomes the most
    /// recently used; `builder` is not called. Else `builder` makes the preview,
    /// which is cached as the most recently used, and where the cache was full
    /// the least recently used preview is dropped.
    pub fn get_or_build<F: FnOnce() -> FileData>(&mut self, path: String, builder: F) -> (preview:
        &FileData)
        requires
            old(self).wf(),
            builder.requires(()),
        ensures
            final(self).wf(),
            final(self).limit() == old(self).limit(),
            final(self).entries() == accessed(
                old(self).entries(),
                old(self).limit(),
                path@,
                *preview,
            ),
            final(self).entries().len() > 0,
            final(self).entries()[0] == (path@, *preview),
            match key_index(old(self).entries(), path@) {
                Some(i) => *preview == old(self).entries()[i].1,
                None => builder.ensures((), *preview),
            },
    {
        proof {
            lemma_key_index(self.entries(), path@);
            match key_index(self.entries(), path@) {
                Some(i) => lemma_touched(self.entries(), i),
                None => {
                    assert forall|value: FileData|
                        admitted(self.entries(), self.limit(), path@, value).len()
                            <= self.limit() && distinct_keys(
                            #[trigger] admitted(self.entries(), self.limit(), path@, value),
                        ) by {
                        lemma_admitted(self.entries(), self.limit(), path@, value);
                    }
                },
            }
        }
        lru_get_or_insert_mut(&mut self.store, path, builder)
    }
}

} // verus!
