//! The per-execution working set: the façade application code writes through.
//!
//! A working set wraps a cache log over a storage backend. Reads hit the
//! cache first (read-your-writes, then first-read stability) and fall through
//! to the backend exactly once per key per execution; writes and deletions
//! only touch the cache. Freezing ends the execution and hands the finished
//! cache log, the accumulated witness, and the backend back to the caller for
//! commitment.

use vstd::prelude::*;
use crate::cache::{
    has_key, log_wf, visible, CacheEntryModel, CacheLog, CacheLogModel, CacheValue, ValueExists,
};
use crate::codec::{Decode, Encode};
use crate::storage::{opt_sv_model, pad4, Prefix, Storage, StorageKey, StorageValue};
use crate::witness::ArrayWitness;

verus! {

/// The bytes a read of `key` returns: the cache's visible value if the key is
/// cached, else whatever the backing storage returns.
pub open spec fn ws_read_result<S: Storage>(
    storage: S,
    cache: CacheLogModel,
    hints: Seq<Seq<u8>>,
    consumed: int,
    key: Seq<u8>,
) -> Option<Seq<u8>> {
    match visible(cache, key) {
        Some(v) => v,
        None => storage.get_model(key, hints, consumed),
    }
}

/// The cache after a read: unchanged on a hit, extended with the backing
/// result as the key's first read on a miss.
pub open spec fn ws_cache_after_get<S: Storage>(
    storage: S,
    cache: CacheLogModel,
    hints: Seq<Seq<u8>>,
    consumed: int,
    key: Seq<u8>,
) -> CacheLogModel {
    match visible(cache, key) {
        Some(v) => cache,
        None => cache.push(
            (
                key,
                CacheEntryModel {
                    first_read: Some(storage.get_model(key, hints, consumed)),
                    last_write: None,
                },
            ),
        ),
    }
}

/// The witness hints after a read: unchanged on a cache hit, else whatever
/// the backing storage's read leaves.
pub open spec fn ws_hints_after_get<S: Storage>(
    storage: S,
    cache: CacheLogModel,
    hints: Seq<Seq<u8>>,
    consumed: int,
    key: Seq<u8>,
) -> Seq<Seq<u8>> {
    match visible(cache, key) {
        Some(v) => hints,
        None => storage.get_hints_post(key, hints, consumed),
    }
}

/// The witness cursor after a read.
pub open spec fn ws_consumed_after_get<S: Storage>(
    storage: S,
    cache: CacheLogModel,
    hints: Seq<Seq<u8>>,
    consumed: int,
    key: Seq<u8>,
) -> int {
    match visible(cache, key) {
        Some(v) => consumed,
        None => storage.get_consumed_post(key, hints, consumed),
    }
}

/// A per-execution read/write buffer over a storage backend.
pub struct WorkingSet<S: Storage> {
    storage: S,
    cache: CacheLog,
    witness: ArrayWitness,
}

impl<S: Storage> WorkingSet<S> {
    pub closed spec fn spec_storage(&self) -> S {
        self.storage
    }

    pub closed spec fn cache_model(&self) -> CacheLogModel {
        self.cache@
    }

    pub closed spec fn hints(&self) -> Seq<Seq<u8>> {
        self.witness.hints()
    }

    pub closed spec fn consumed(&self) -> int {
        self.witness.consumed()
    }

    pub open spec fn wf(&self) -> bool {
        log_wf(self.cache_model())
    }

    /// A fresh execution over `storage`, recording into an empty witness.
    pub fn new(storage: S) -> (r: WorkingSet<S>)
        ensures
            r.wf(),
            r.spec_storage() == storage,
            r.cache_model() =~= Seq::<(Seq<u8>, CacheEntryModel)>::empty(),
            r.hints() =~= Seq::<Seq<u8>>::empty(),
            r.consumed() == 0,
    {
        WorkingSet { storage, cache: CacheLog::new(), witness: ArrayWitness::new() }
    }

    /// A replaying execution over `storage`, consuming a recorded witness.
    pub fn with_witness(storage: S, witness: ArrayWitness) -> (r: WorkingSet<S>)
        ensures
            r.wf(),
            r.spec_storage() == storage,
            r.cache_model() =~= Seq::<(Seq<u8>, CacheEntryModel)>::empty(),
            r.hints() == witness.hints(),
            r.consumed() == witness.consumed(),
    {
        WorkingSet { storage, cache: CacheLog::new(), witness }
    }

    /// Reads a key: the most recent write if any, else the recorded first
    /// read, else the backing storage's value — which is then cached, so the
    /// backing store is touched at most once per key per execution.
    pub fn get(&mut self, key: StorageKey) -> (r: Option<StorageValue>)
        requires
            old(self).wf(),
            visible(old(self).cache_model(), key@) is None ==> old(self).spec_storage().get_pre(
                key@,
                old(self).hints(),
                old(self).consumed(),
            ),
        ensures
            final(self).wf(),
            final(self).spec_storage() == old(self).spec_storage(),
            opt_sv_model(r) == ws_read_result(
                old(self).spec_storage(),
                old(self).cache_model(),
                old(self).hints(),
                old(self).consumed(),
                key@,
            ),
            final(self).cache_model() =~= ws_cache_after_get(
                old(self).spec_storage(),
                old(self).cache_model(),
                old(self).hints(),
                old(self).consumed(),
                key@,
            ),
            final(self).hints() == ws_hints_after_get(
                old(self).spec_storage(),
                old(self).cache_model(),
                old(self).hints(),
                old(self).consumed(),
                key@,
            ),
            final(self).consumed() == ws_consumed_after_get(
                old(self).spec_storage(),
                old(self).cache_model(),
                old(self).hints(),
                old(self).consumed(),
                key@,
            ),
    {
        let cache_key = key.duplicate().as_cache_key();
        match self.cache.get_value(&cache_key) {
            ValueExists::Yes(v) => {
                match v {
                    Some(cv) => Some(StorageValue::new_from_cache_value(cv)),
                    None => None,
                }
            },
            ValueExists::No => {
                proof {
                    if has_key(self.cache@, key@) {
                        let e = self.cache@[crate::cache::index_of(self.cache@, key@)].1;
                        assert(e.first_read is Some || e.last_write is Some);
                        assert(false);
                    }
                }
                let value = self.storage.get(&key, &mut self.witness);
                let recorded: Option<CacheValue> = match &value {
                    Some(sv) => Some(sv.duplicate().as_cache_value()),
                    None => None,
                };
                self.cache.add_read(cache_key, recorded);
                value
            },
        }
    }

    /// Records `value` as the key's latest write; later reads in this
    /// execution see it, and the commit will apply it.
    pub fn set(&mut self, key: StorageKey, value: StorageValue)
        requires
            old(self).wf(),
        ensures
            final(self).wf(),
            final(self).spec_storage() == old(self).spec_storage(),
            final(self).hints() == old(self).hints(),
            final(self).consumed() == old(self).consumed(),
            final(self).cache_model() =~= cache_after_write(
                old(self).cache_model(),
                key@,
                Some(value@),
            ),
    {
        let cache_key = key.as_cache_key();
        self.cache.add_write(cache_key, Some(value.as_cache_value()));
    }

    /// Records a deletion as the key's latest write.
    pub fn delete(&mut self, key: StorageKey)
        requires
            old(self).wf(),
        ensures
            final(self).wf(),
            final(self).spec_storage() == old(self).spec_storage(),
            final(self).hints() == old(self).hints(),
            final(self).consumed() == old(self).consumed(),
            final(self).cache_model() =~= cache_after_write(old(self).cache_model(), key@, None),
    {
        let cache_key = key.as_cache_key();
        self.cache.add_write(cache_key, None);
    }

    /// Removes a key: returns the value that was visible before the removal
    /// (reading through to the backing storage if needed), then records the
    /// deletion.
    pub fn remove(&mut self, key: StorageKey) -> (r: Option<StorageValue>)
        requires
            old(self).wf(),
            visible(old(self).cache_model(), key@) is None ==> old(self).spec_storage().get_pre(
                key@,
                old(self).hints(),
                old(self).consumed(),
            ),
        ensures
            final(self).wf(),
            final(self).spec_storage() == old(self).spec_storage(),
            opt_sv_model(r) == ws_read_result(
                old(self).spec_storage(),
                old(self).cache_model(),
                old(self).hints(),
                old(self).consumed(),
                key@,
            ),
            final(self).cache_model() =~= cache_after_write(
                ws_cache_after_get(
                    old(self).spec_storage(),
                    old(self).cache_model(),
                    old(self).hints(),
                    old(self).consumed(),
                    key@,
                ),
                key@,
                None,
            ),
            final(self).hints() == ws_hints_after_get(
                old(self).spec_storage(),
                old(self).cache_model(),
                old(self).hints(),
                old(self).consumed(),
                key@,
            ),
            final(self).consumed() == ws_consumed_after_get(
                old(self).spec_storage(),
                old(self).cache_model(),
                old(self).hints(),
                old(self).consumed(),
                key@,
            ),
    {
        let prior = self.get(key.duplicate());
        self.delete(key);
        prior
    }

    /// Ends the execution: yields the finished cache log, the witness, and
    /// the storage backend.
    pub fn freeze(self) -> (r: (CacheLog, ArrayWitness, S))
        ensures
            r.0@ == self.cache_model(),
            r.0.wf() == self.wf(),
            r.1.hints() == self.hints(),
            r.1.consumed() == self.consumed(),
            r.2 == self.spec_storage(),
    {
        (self.cache, self.witness, self.storage)
    }

    /// Reads a typed value from a container's slot.
    pub fn get_value<K: Encode, V: Decode>(&mut self, prefix: &Prefix, key: &K) -> (r: Option<V>)
        requires
            old(self).wf(),
            visible(old(self).cache_model(), prefix@ + pad4(key.spec_encoding())) is None ==> old(
                self,
            ).spec_storage().get_pre(
                prefix@ + pad4(key.spec_encoding()),
                old(self).hints(),
                old(self).consumed(),
            ),
        ensures
            final(self).wf(),
            final(self).spec_storage() == old(self).spec_storage(),
            ({
                let bytes = ws_read_result(
                    old(self).spec_storage(),
                    old(self).cache_model(),
                    old(self).hints(),
                    old(self).consumed(),
                    prefix@ + pad4(key.spec_encoding()),
                );
                match bytes {
                    Some(b) => {
                        &&& (r matches Some(v) ==> v.spec_encoding() == b)
                        &&& ((exists|v: V| v.spec_encoding() == b) ==> r is Some)
                    },
                    None => r is None,
                }
            }),
            final(self).cache_model() =~= ws_cache_after_get(
                old(self).spec_storage(),
                old(self).cache_model(),
                old(self).hints(),
                old(self).consumed(),
                prefix@ + pad4(key.spec_encoding()),
            ),
            final(self).hints() == ws_hints_after_get(
                old(self).spec_storage(),
                old(self).cache_model(),
                old(self).hints(),
                old(self).consumed(),
                prefix@ + pad4(key.spec_encoding()),
            ),
            final(self).consumed() == ws_consumed_after_get(
                old(self).spec_storage(),
                old(self).cache_model(),
                old(self).hints(),
                old(self).consumed(),
                prefix@ + pad4(key.spec_encoding()),
            ),
    {
        let storage_key = StorageKey::new(prefix, key);
        match self.get(storage_key) {
            Some(sv) => V::decode(sv.value()),
            None => None,
        }
    }

    /// Writes a typed value into a container's slot.
    pub fn set_value<K: Encode, V: Encode>(&mut self, prefix: &Prefix, key: &K, value: &V)
        requires
            old(self).wf(),
        ensures
            final(self).wf(),
            final(self).spec_storage() == old(self).spec_storage(),
            final(self).hints() == old(self).hints(),
            final(self).consumed() == old(self).consumed(),
            final(self).cache_model() =~= cache_after_write(
                old(self).cache_model(),
                prefix@ + pad4(key.spec_encoding()),
                Some(value.spec_encoding()),
            ),
    {
        let storage_key = StorageKey::new(prefix, key);
        self.set(storage_key, StorageValue::new(value));
    }

    /// Removes a typed value from a container's slot, returning what was
    /// visible before.
    pub fn remove_value<K: Encode, V: Decode>(&mut self, prefix: &Prefix, key: &K) -> (r: Option<
        V,
    >)
        requires
            old(self).wf(),
            visible(old(self).cache_model(), prefix@ + pad4(key.spec_encoding())) is None ==> old(
                self,
            ).spec_storage().get_pre(
                prefix@ + pad4(key.spec_encoding()),
                old(self).hints(),
                old(self).consumed(),
            ),
        ensures
            final(self).wf(),
            final(self).spec_storage() == old(self).spec_storage(),
            ({
                let bytes = ws_read_result(
                    old(self).spec_storage(),
                    old(self).cache_model(),
                    old(self).hints(),
                    old(self).consumed(),
                    prefix@ + pad4(key.spec_encoding()),
                );
                match bytes {
                    Some(b) => {
                        &&& (r matches Some(v) ==> v.spec_encoding() == b)
                        &&& ((exists|v: V| v.spec_encoding() == b) ==> r is Some)
                    },
                    None => r is None,
                }
            }),
            final(self).cache_model() =~= cache_after_write(
                ws_cache_after_get(
                    old(self).spec_storage(),
                    old(self).cache_model(),
                    old(self).hints(),
                    old(self).consumed(),
                    prefix@ + pad4(key.spec_encoding()),
                ),
                prefix@ + pad4(key.spec_encoding()),
                None,
            ),
            final(self).hints() == ws_hints_after_get(
                old(self).spec_storage(),
                old(self).cache_model(),
                old(self).hints(),
                old(self).consumed(),
                prefix@ + pad4(key.spec_encoding()),
            ),
            final(self).consumed() == ws_consumed_after_get(
                old(self).spec_storage(),
                old(self).cache_model(),
                old(self).hints(),
                old(self).consumed(),
                prefix@ + pad4(key.spec_encoding()),
            ),
    {
        let storage_key = StorageKey::new(prefix, key);
        match self.remove(storage_key) {
            Some(sv) => V::decode(sv.value()),
            None => None,
        }
    }

    /// Deletes a typed value from a container's slot without reading it.
    pub fn delete_value<K: Encode>(&mut self, prefix: &Prefix, key: &K)
        requires
            old(self).wf(),
        ensures
            final(self).wf(),
            final(self).spec_storage() == old(self).spec_storage(),
            final(self).hints() == old(self).hints(),
            final(self).consumed() == old(self).consumed(),
            final(self).cache_model() =~= cache_after_write(
                old(self).cache_model(),
                prefix@ + pad4(key.spec_encoding()),
                None,
            ),
    {
        let storage_key = StorageKey::new(prefix, key);
        self.delete(storage_key);
    }
}

/// The cache after recording a write of `value` (or a deletion, for `None`)
/// under `key`: the entry is updated in place, or appended for a fresh key.
pub open spec fn cache_after_write(
    cache: CacheLogModel,
    key: Seq<u8>,
    value: Option<Seq<u8>>,
) -> CacheLogModel {
    if has_key(cache, key) {
        let i = crate::cache::index_of(cache, key);
        cache.update(
            i,
            (
                key,
                CacheEntryModel { first_read: cache[i].1.first_read, last_write: Some(value) },
            ),
        )
    } else {
        cache.push((key, CacheEntryModel { first_read: None, last_write: Some(value) }))
    }
}

} // verus!
