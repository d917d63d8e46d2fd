//! The key-value store: text keys, values with an optional absolute expiry,
//! expired entries removed lazily when they are read.
use vstd::prelude::*;
use vstd::hash_map::StringHashMap;

verus! {

/// A stored value and the moment, in milliseconds, from which it is expired.
pub struct Item<V> {
    pub value: V,
    pub expires_at: Option<u64>,
}

impl<V> Item<V> {
    /// Whether the item is expired at `now`: its expiry is at or before it.
    pub open spec fn expired_at(&self, now: u64) -> bool {
        self.expires_at matches Some(t) && t <= now
    }

    pub fn is_expired(&self, now: u64) -> (r: bool)
        ensures
            r == self.expired_at(now),
    {
        match self.expires_at {
            Some(t) => t <= now,
            None => false,
        }
    }
}

/// Why a read found no value.
#[derive(PartialEq, Eq, Structural, Debug, Clone, Copy)]
pub enum CacheError {
    /// No entry for the key.
    Missing,
    /// The entry had expired; the read removed it.
    Expired,
}

/// A map from text keys to values with optional expiry.
#[verifier::reject_recursive_types(V)]
pub struct Cache<V> {
    items: StringHashMap<Item<V>>,
}

impl<V> View for Cache<V> {
    type V = Map<Seq<char>, Item<V>>;

    closed spec fn view(&self) -> Map<Seq<char>, Item<V>> {
        self.items@
    }
}

impl<V> Cache<V> {
    pub fn new() -> (r: Self)
        ensures
            r@ == Map::<Seq<char>, Item<V>>::empty(),
    {
        Cache { items: StringHashMap::new() }
    }

    /// The entry for `k`, expired or not.
    pub fn fetch(&self, k: &str) -> (r: Option<&Item<V>>)
        ensures
            match r {
                Some(i) => self@.contains_key(k@) && *i == self@[k@],
                None => !self@.contains_key(k@),
            },
    {
        self.items.get(k)
    }

    /// Reads the value for `k` at time `now`. An entry that has expired is
    /// removed by the same call and reported as `Expired`.
    pub fn value(&mut self, k: &str, now: u64) -> (r: Result<&V, CacheError>)
        ensures
            !old(self)@.contains_key(k@) ==> r == Err::<&V, CacheError>(CacheError::Missing)
                && final(self)@ == old(self)@,
            old(self)@.contains_key(k@) && old(self)@[k@].expired_at(now) ==> r == Err::<&V, CacheError>(
                CacheError::Expired,
            ) && final(self)@ == old(self)@.remove(k@),
            old(self)@.contains_key(k@) && !old(self)@[k@].expired_at(now) ==> (r matches Ok(v)
                && *v == old(self)@[k@].value) && final(self)@ == old(self)@,
    {
        if self.del_if_expired(k, now) {
            return Err(CacheError::Expired);
        }
        match self.fetch(k) {
            Some(i) => Ok(&i.value),
            None => Err(CacheError::Missing),
        }
    }

    /// Stores `v` under `k` with expiry `t`, replacing any entry.
    pub fn put(&mut self, k: String, v: V, t: Option<u64>)
        ensures
            final(self)@ == old(self)@.insert(k@, Item { value: v, expires_at: t }),
    {
        let item = Item { value: v, expires_at: t };
        self.items.insert(k, item);
    }

    /// Removes the entry for `k`, if any.
    pub fn del(&mut self, k: &str)
        ensures
            final(self)@ == old(self)@.remove(k@),
    {
        self.items.remove(k);
    }

    /// Removes the entry for `k` when it has expired at `now`, and says whether it did.
    pub fn del_if_expired(&mut self, k: &str, now: u64) -> (r: bool)
        ensures
            r == (old(self)@.contains_key(k@) && old(self)@[k@].expired_at(now)),
            r ==> final(self)@ == old(self)@.remove(k@),
            !r ==> final(self)@ == old(self)@,
    {
        let expired = match self.items.get(k) {
            Some(i) => i.is_expired(now),
            None => false,
        };
        if expired {
            self.del(k);
        }
        expired
    }
}

impl Cache<String> {
    /// Stores `v` under `k` with expiry `t` and hands back the value it
    /// replaced, whether or not that value had expired. Reading the previous
    /// value and replacing it are one operation on the store.
    pub fn write(&mut self, k: String, v: String, t: Option<u64>) -> (r: Option<String>)
        ensures
            final(self)@ == old(self)@.insert(k@, Item { value: v, expires_at: t }),
            match r {
                Some(p) => old(self)@.contains_key(k@) && p@ == old(self)@[k@].value@,
                None => !old(self)@.contains_key(k@),
            },
    {
        let previous = match self.fetch(k.as_str()) {
            Some(i) => Some(i.value.clone()),
            None => None,
        };
        self.put(k, v, t);
        previous
    }
}

} // verus!
