//! Key/value storage for the server: an abstract store of byte values under
//! string keys, an in-memory implementation, and a cache that keeps entries with
//! an expiry stamp on top of any such store.

use vstd::prelude::*;
use crate::rendezvous::{
    map_of,
    entry_view,
    distinct_keys,
    has_key,
    lemma_map_of_push,
    lemma_map_of_remove,
};
use crate::text::str_eq;

verus! {

/// A store operation failed.
#[derive(Clone, Copy, Debug, PartialEq, Eq)]
pub enum StoreError {
    /// No value is stored under the key.
    NotFound,
    /// The underlying store could not carry out the operation.
    Unavailable,
}

/// A store of byte values under string keys, so that the places that keep data
/// (such as a metadata cache) do not depend on where it is kept.
pub trait KeyByteValueStore {
    /// What the store holds.
    spec fn contents(&self) -> Map<Seq<char>, Seq<u8>>;

    /// The store's internal consistency, kept by every operation.
    spec fn well_formed(&self) -> bool;

    /// The value under `key`.
    fn get(&self, key: &str) -> (r: Result<Vec<u8>, StoreError>)
        requires
            self.well_formed(),
        ensures
            r is Ok ==> self.contents().contains_key(key@) && r->Ok_0@ == self.contents()[key@],
    ;

    /// Stores `value` under `key`, replacing what was there.
    fn set(&mut self, key: &str, value: Vec<u8>) -> (r: Result<(), StoreError>)
        requires
            old(self).well_formed(),
        ensures
            final(self).well_formed(),
            r is Ok ==> final(self).contents() == old(self).contents().insert(key@, value@),
    ;

    /// Removes the value under `key`, if any.
    fn delete(&mut self, key: &str) -> (r: Result<(), StoreError>)
        requires
            old(self).well_formed(),
        ensures
            final(self).well_formed(),
            r is Ok ==> final(self).contents() == old(self).contents().remove(key@),
    ;
}

/// A `KeyByteValueStore` held in memory.
pub struct MemoryStore {
    entries: Vec<(String, Vec<u8>)>,
}

pub open spec fn bytes_of(e: Seq<(Seq<char>, Vec<u8>)>) -> Map<Seq<char>, Seq<u8>> {
    map_of(e).map_values(|v: Vec<u8>| v@)
}

fn copy_bytes(v: &Vec<u8>) -> (r: Vec<u8>)
    ensures
        r@ == v@,
{
    let mut r: Vec<u8> = Vec::new();
    let mut i: usize = 0;
    while i < v.len()
        invariant
            i <= v@.len(),
            r@ =~= v@.take(i as int),
        decreases v@.len() - i,
    {
        r.push(v[i]);
        i = i + 1;
    }
    assert(r@ =~= v@);
    r
}

impl MemoryStore {
    pub closed spec fn entries_view(&self) -> Seq<(Seq<char>, Vec<u8>)> {
        self.entries@.map_values(|p: (String, Vec<u8>)| entry_view(p))
    }

    /// An empty store.
    pub fn new() -> (r: MemoryStore)
        ensures
            r.well_formed(),
            r.contents() == Map::<Seq<char>, Seq<u8>>::empty(),
    {
        let r = MemoryStore { entries: Vec::new() };
        assert(r.entries_view() =~= Seq::<(Seq<char>, Vec<u8>)>::empty());
        assert(r.contents() =~= Map::<Seq<char>, Seq<u8>>::empty());
        r
    }

    fn position(&self, key: &str) -> (r: Option<usize>)
        ensures
            match r {
                Some(i) => i < self.entries_view().len() && self.entries_view()[i as int].0
                    == key@,
                None => !has_key(self.entries_view(), key@),
            },
    {
        let mut i: usize = 0;
        while i < self.entries.len()
            invariant
                i <= self.entries@.len(),
                forall|j: int| 0 <= j < i ==> self.entries@[j].0@ != key@,
            decreases self.entries@.len() - i,
        {
            if str_eq(self.entries[i].0.as_str(), key) {
                return Some(i);
            }
            i = i + 1;
        }
        None
    }

    /// The value under `key`, if any.
    pub fn lookup(&self, key: &str) -> (r: Option<Vec<u8>>)
        requires
            self.well_formed(),
        ensures
            r is Some <==> self.contents().contains_key(key@),
            r is Some ==> r->0@ == self.contents()[key@],
    {
        match self.position(key) {
            Some(i) => {
                proof {
                    lemma_map_of_remove(self.entries_view(), i as int);
                }
                Some(copy_bytes(&self.entries[i].1))
            },
            None => None,
        }
    }

    /// Removes the value under `key`; reports whether there was one.
    pub fn remove_key(&mut self, key: &str) -> (r: bool)
        requires
            old(self).well_formed(),
        ensures
            final(self).well_formed(),
            r == old(self).contents().contains_key(key@),
            final(self).contents() == old(self).contents().remove(key@),
    {
        let ghost e0 = self.entries_view();
        match self.position(key) {
            Some(i) => {
                self.entries.remove(i);
                proof {
                    assert(self.entries_view() =~= e0.remove(i as int));
                    lemma_map_of_remove(e0, i as int);
                    assert(self.contents() =~= bytes_of(e0).remove(key@));
                }
                true
            },
            None => {
                assert(bytes_of(e0).remove(key@) =~= bytes_of(e0));
                false
            },
        }
    }

    /// Stores `value` under `key`, replacing what was there.
    pub fn insert(&mut self, key: &str, value: Vec<u8>)
        requires
            old(self).well_formed(),
        ensures
            final(self).well_formed(),
            final(self).contents() == old(self).contents().insert(key@, value@),
    {
        let ghost c0 = self.contents();
        self.remove_key(key);
        let ghost e1 = self.entries_view();
        let ghost v = value;
        self.entries.push((key.to_owned(), value));
        proof {
            assert(!bytes_of(e1).contains_key(key@));
            assert(!map_of(e1).contains_key(key@));
            assert(self.entries_view() =~= e1.push((key@, v)));
            lemma_map_of_push(e1, key@, v);
            assert(bytes_of(e1.push((key@, v))) =~= bytes_of(e1).insert(key@, v@));
            assert(bytes_of(e1).insert(key@, v@) =~= c0.insert(key@, v@));
        }
    }
}

impl KeyByteValueStore for MemoryStore {
    closed spec fn contents(&self) -> Map<Seq<char>, Seq<u8>> {
        bytes_of(self.entries_view())
    }

    /// Keys are unique.
    closed spec fn well_formed(&self) -> bool {
        distinct_keys(self.entries_view())
    }

    fn get(&self, key: &str) -> (r: Result<Vec<u8>, StoreError>) {
        match self.lookup(key) {
            Some(v) => Ok(v),
            None => Err(StoreError::NotFound),
        }
    }

    fn set(&mut self, key: &str, value: Vec<u8>) -> (r: Result<(), StoreError>) {
        self.insert(key, value);
        Ok(())
    }

    fn delete(&mut self, key: &str) -> (r: Result<(), StoreError>) {
        self.remove_key(key);
        Ok(())
    }
}

/// How long a cached entry stays fresh, in seconds.
pub const CACHE_EXPIRY_SECS: u64 = 300;

/// A cache of values under string keys that go stale at a given instant.
pub trait Cache<V> {
    /// The cache's internal consistency, kept by every operation.
    spec fn well_formed(&self) -> bool;

    /// The value under `key` if it is still fresh at `now_secs`.
    fn get(&self, key: &str, now_secs: u64) -> Option<V>
        requires
            self.well_formed(),
    ;

    /// Keeps `v` under `key`, fresh for a while from `now_secs` on.
    fn set(&mut self, key: &str, v: V, now_secs: u64) -> (r: Result<(), StoreError>)
        requires
            old(self).well_formed(),
        ensures
            final(self).well_formed(),
    ;
}

/// The eight bytes, most significant first, that stamp an entry with its expiry.
pub open spec fn spec_stamp(expires_at: u64) -> Seq<u8> {
    seq![
        (expires_at >> 56u64) as u8,
        (expires_at >> 48u64) as u8,
        (expires_at >> 40u64) as u8,
        (expires_at >> 32u64) as u8,
        (expires_at >> 24u64) as u8,
        (expires_at >> 16u64) as u8,
        (expires_at >> 8u64) as u8,
        expires_at as u8,
    ]
}

/// The expiry that the first eight bytes of `b` stamp.
pub open spec fn spec_stamp_value(b: Seq<u8>) -> u64
    recommends
        b.len() >= 8,
{
    ((b[0] as u64) << 56u64) | ((b[1] as u64) << 48u64) | ((b[2] as u64) << 40u64) | ((
    b[3] as u64) << 32u64) | ((b[4] as u64) << 24u64) | ((b[5] as u64) << 16u64) | ((
    b[6] as u64) << 8u64) | (b[7] as u64)
}

/// The payload of a stored entry if it is still fresh at `now`.
pub open spec fn spec_fresh(raw: Seq<u8>, now: u64) -> Option<Seq<u8>> {
    if raw.len() >= 8 && now < spec_stamp_value(raw) {
        Some(raw.skip(8))
    } else {
        None
    }
}

/// The expiry of an entry kept at `now`, saturated at `u64::MAX`.
pub open spec fn spec_cache_expiry(now: u64) -> u64 {
    if now <= u64::MAX - CACHE_EXPIRY_SECS {
        (now + CACHE_EXPIRY_SECS) as u64
    } else {
        u64::MAX
    }
}

/// Reading a stamp gives back the expiry it was made from.
pub proof fn lemma_stamp_round_trip(e: u64)
    ensures
        spec_stamp_value(spec_stamp(e)) == e,
{
    let b = spec_stamp(e);
    assert(((((e >> 56u64) as u8) as u64) << 56u64) | (((((e >> 48u64) as u8) as u64) << 48u64))
        | (((((e >> 40u64) as u8) as u64) << 40u64)) | (((((e >> 32u64) as u8) as u64) << 32u64))
        | (((((e >> 24u64) as u8) as u64) << 24u64)) | (((((e >> 16u64) as u8) as u64) << 16u64))
        | (((((e >> 8u64) as u8) as u64) << 8u64)) | ((e as u8) as u64) == e) by (bit_vector);
}

pub open spec fn opt_bytes(o: Option<Vec<u8>>) -> Option<Seq<u8>> {
    match o {
        Some(v) => Some(v@),
        None => None,
    }
}

/// The payload of a stored entry `raw` if its stamp says it is still fresh at
/// `now_secs`; none for an entry too short to hold a stamp.
pub fn fresh_payload(raw: &Vec<u8>, now_secs: u64) -> (r: Option<Vec<u8>>)
    ensures
        opt_bytes(r) == spec_fresh(raw@, now_secs),
{
    if raw.len() >= 8 {
        let expires_at: u64 = ((raw[0] as u64) << 56u64) | ((raw[1] as u64) << 48u64) | ((
        raw[2] as u64) << 40u64) | ((raw[3] as u64) << 32u64) | ((raw[4] as u64) << 24u64) | ((
        raw[5] as u64) << 16u64) | ((raw[6] as u64) << 8u64) | (raw[7] as u64);
        if now_secs < expires_at {
            let mut payload: Vec<u8> = Vec::new();
            let mut i: usize = 8;
            while i < raw.len()
                invariant
                    8 <= i <= raw@.len(),
                    payload@ =~= raw@.subrange(8, i as int),
                decreases raw@.len() - i,
            {
                payload.push(raw[i]);
                i = i + 1;
            }
            assert(payload@ =~= raw@.skip(8));
            return Some(payload);
        }
    }
    None
}

/// Provider metadata kept in a `KeyByteValueStore`, each entry stamped with the
/// instant (in seconds) at which it goes stale.
pub struct MetadataCache<S: KeyByteValueStore> {
    store: S,
}

impl<S: KeyByteValueStore> MetadataCache<S> {
    /// A cache over `store`.
    pub fn new(store: S) -> (r: MetadataCache<S>)
        ensures
            r.store() == store,
    {
        MetadataCache { store }
    }

    pub closed spec fn store(&self) -> S {
        self.store
    }

    /// The payload under `key` if it is stored and still fresh at `now_secs`.
    pub fn fresh_entry(&self, key: &str, now_secs: u64) -> (r: Option<Vec<u8>>)
        requires
            self.store().well_formed(),
        ensures
            r is Some ==> self.store().contents().contains_key(key@) && spec_fresh(
                self.store().contents()[key@],
                now_secs,
            ) == Some(r->0@),
    {
        match self.store.get(key) {
            Ok(raw) => fresh_payload(&raw, now_secs),
            Err(_) => None,
        }
    }

    /// Keeps `payload` under `key`, stamped to go stale `CACHE_EXPIRY_SECS` after
    /// `now_secs`.
    pub fn store_entry(&mut self, key: &str, payload: &Vec<u8>, now_secs: u64) -> (r: Result<
        (),
        StoreError,
    >)
        requires
            old(self).store().well_formed(),
        ensures
            final(self).store().well_formed(),
            r is Ok ==> final(self).store().contents() == old(self).store().contents().insert(
                key@,
                spec_stamp(spec_cache_expiry(now_secs)) + payload@,
            ),
    {
        let expires_at: u64 = if now_secs <= u64::MAX - CACHE_EXPIRY_SECS {
            now_secs + CACHE_EXPIRY_SECS
        } else {
            u64::MAX
        };
        let mut raw: Vec<u8> = Vec::new();
        raw.push((expires_at >> 56u64) as u8);
        raw.push((expires_at >> 48u64) as u8);
        raw.push((expires_at >> 40u64) as u8);
        raw.push((expires_at >> 32u64) as u8);
        raw.push((expires_at >> 24u64) as u8);
        raw.push((expires_at >> 16u64) as u8);
        raw.push((expires_at >> 8u64) as u8);
        raw.push(expires_at as u8);
        assert(raw@ =~= spec_stamp(expires_at));
        let mut i: usize = 0;
        while i < payload.len()
            invariant
                i <= payload@.len(),
                raw@ =~= spec_stamp(expires_at) + payload@.take(i as int),
            decreases payload@.len() - i,
        {
            raw.push(payload[i]);
            i = i + 1;
        }
        assert(payload@.take(payload@.len() as int) =~= payload@);
        self.store.set(key, raw)
    }
}

/// Why `try_get_or_else` produced no value.
#[derive(Clone, Copy, Debug, PartialEq, Eq)]
pub enum FetchError<E> {
    /// The fetch of a missing or stale entry failed.
    Fetch(E),
    /// The fetched value could not be kept.
    Store(StoreError),
}

impl<S: KeyByteValueStore> MetadataCache<S> {
    /// The fresh entry under `key`, or else the value that `fetch` produces, which
    /// is then kept under `key`.
    pub fn try_get_or_else<E, F: FnOnce() -> Result<Vec<u8>, E>>(
        &mut self,
        key: &str,
        now_secs: u64,
        fetch: F,
    ) -> (r: Result<Vec<u8>, FetchError<E>>)
        requires
            old(self).store().well_formed(),
            fetch.requires(()),
        ensures
            final(self).store().well_formed(),
            ({
                let before = old(self).store().contents();
                let after = final(self).store().contents();
                match r {
                    Ok(v) => {
                        ||| (final(self).store() == old(self).store() && before.contains_key(key@)
                            && spec_fresh(before[key@], now_secs) == Some(v@))
                        ||| (fetch.ensures((), Ok::<Vec<u8>, E>(v)) && after == before.insert(
                            key@,
                            spec_stamp(spec_cache_expiry(now_secs)) + v@,
                        ))
                    },
                    Err(FetchError::Fetch(e)) => fetch.ensures((), Err::<Vec<u8>, E>(e))
                        && final(self).store() == old(self).store(),
                    Err(FetchError::Store(_)) => true,
                }
            }),
    {
        match self.fresh_entry(key, now_secs) {
            Some(v) => Ok(v),
            None => match fetch() {
                Ok(v) => match self.store_entry(key, &v, now_secs) {
                    Ok(()) => Ok(v),
                    Err(e) => Err(FetchError::Store(e)),
                },
                Err(e) => Err(FetchError::Fetch(e)),
            },
        }
    }
}

/// A fresh entry that was just kept is read back unchanged.
pub proof fn lemma_stored_entry_is_fresh(payload: Seq<u8>, now: u64)
    requires
        now <= u64::MAX - CACHE_EXPIRY_SECS,
    ensures
        spec_fresh(spec_stamp(spec_cache_expiry(now)) + payload, now) == Some(payload),
{
    let e = spec_cache_expiry(now);
    let raw = spec_stamp(e) + payload;
    lemma_stamp_round_trip(e);
    assert(raw.subrange(0, 8) =~= spec_stamp(e));
    assert(spec_stamp_value(raw) == spec_stamp_value(spec_stamp(e)));
    assert(raw.skip(8) =~= payload);
}

impl<S: KeyByteValueStore> Cache<Vec<u8>> for MetadataCache<S> {
    closed spec fn well_formed(&self) -> bool {
        self.store.well_formed()
    }

    fn get(&self, key: &str, now_secs: u64) -> Option<Vec<u8>> {
        self.fresh_entry(key, now_secs)
    }

    fn set(&mut self, key: &str, v: Vec<u8>, now_secs: u64) -> (r: Result<(), StoreError>) {
        self.store_entry(key, &v, now_secs)
    }
}

} // verus!
