//! Map-like state containers.
//!
//! A `StateMap` applies the working set's operations to `prefix + encoded
//! key`, giving per-entry access without ever loading a whole map.

use vstd::prelude::*;
use core::marker::PhantomData;
use crate::codec::{Decode, Encode};
use crate::storage::{pad4, Prefix, Storage};
use crate::value::Error;
use crate::working_set::{
    cache_after_write, ws_cache_after_get, ws_consumed_after_get, ws_hints_after_get,
    ws_read_result, WorkingSet,
};
use crate::cache::visible;

verus! {

/// Container mapping typed keys to typed values, entry by entry.
#[derive(Debug, PartialEq, Eq)]
pub struct StateMap<K, V> {
    _phantom: PhantomData<(K, V)>,
    prefix: Prefix,
}

impl<K: Encode, V: Encode + Decode> StateMap<K, V> {
    pub closed spec fn spec_prefix(&self) -> Seq<u8> {
        self.prefix@
    }

    /// The storage slot one map key lives under.
    pub open spec fn slot(&self, key: K) -> Seq<u8> {
        self.spec_prefix() + pad4(key.spec_encoding())
    }

    pub fn new(prefix: Prefix) -> (r: StateMap<K, V>)
        ensures
            r.spec_prefix() == prefix@,
    {
        StateMap { _phantom: PhantomData, prefix }
    }

    pub fn prefix(&self) -> (r: &Prefix)
        ensures
            r@ == self.spec_prefix(),
    {
        &self.prefix
    }

    /// Sets a value under a map key.
    pub fn set<S: Storage>(&self, key: &K, value: V, working_set: &mut WorkingSet<S>)
        requires
            old(working_set).wf(),
        ensures
            final(working_set).wf(),
            final(working_set).spec_storage() == old(working_set).spec_storage(),
            final(working_set).hints() == old(working_set).hints(),
            final(working_set).consumed() == old(working_set).consumed(),
            final(working_set).cache_model() =~= cache_after_write(
                old(working_set).cache_model(),
                self.slot(*key),
                Some(value.spec_encoding()),
            ),
    {
        working_set.set_value(&self.prefix, key, &value)
    }

    /// Gets the value under a map key, or `None` if the entry is absent.
    pub fn get<S: Storage>(&self, key: &K, working_set: &mut WorkingSet<S>) -> (r: Option<V>)
        requires
            old(working_set).wf(),
            visible(old(working_set).cache_model(), self.slot(*key)) is None ==> old(
                working_set,
            ).spec_storage().get_pre(
                self.slot(*key),
                old(working_set).hints(),
                old(working_set).consumed(),
            ),
        ensures
            final(working_set).wf(),
            final(working_set).spec_storage() == old(working_set).spec_storage(),
            ({
                let bytes = ws_read_result(
                    old(working_set).spec_storage(),
                    old(working_set).cache_model(),
                    old(working_set).hints(),
                    old(working_set).consumed(),
                    self.slot(*key),
                );
                match bytes {
                    Some(b) => {
                        &&& (r matches Some(v) ==> v.spec_encoding() == b)
                        &&& ((exists|v: V| v.spec_encoding() == b) ==> r is Some)
                    },
                    None => r is None,
                }
            }),
            final(working_set).cache_model() =~= ws_cache_after_get(
                old(working_set).spec_storage(),
                old(working_set).cache_model(),
                old(working_set).hints(),
                old(working_set).consumed(),
                self.slot(*key),
            ),
            final(working_set).hints() == ws_hints_after_get(
                old(working_set).spec_storage(),
                old(working_set).cache_model(),
                old(working_set).hints(),
                old(working_set).consumed(),
                self.slot(*key),
            ),
            final(working_set).consumed() == ws_consumed_after_get(
                old(working_set).spec_storage(),
                old(working_set).cache_model(),
                old(working_set).hints(),
                old(working_set).consumed(),
                self.slot(*key),
            ),
    {
        working_set.get_value(&self.prefix, key)
    }

    /// Gets the value under a map key, or an error if the entry is absent.
    pub fn get_or_err<S: Storage>(&self, key: &K, working_set: &mut WorkingSet<S>) -> (r: Result<
        V,
        Error,
    >)
        requires
            old(working_set).wf(),
            visible(old(working_set).cache_model(), self.slot(*key)) is None ==> old(
                working_set,
            ).spec_storage().get_pre(
                self.slot(*key),
                old(working_set).hints(),
                old(working_set).consumed(),
            ),
        ensures
            final(working_set).wf(),
            final(working_set).spec_storage() == old(working_set).spec_storage(),
            ({
                let bytes = ws_read_result(
                    old(working_set).spec_storage(),
                    old(working_set).cache_model(),
                    old(working_set).hints(),
                    old(working_set).consumed(),
                    self.slot(*key),
                );
                match bytes {
                    Some(b) => {
                        &&& (r matches Ok(v) ==> v.spec_encoding() == b)
                        &&& ((exists|v: V| v.spec_encoding() == b) ==> r is Ok)
                    },
                    None => (r matches Err(e) && e matches Error::MissingValue(p) && p@
                        == self.spec_prefix()),
                }
            }),
            final(working_set).cache_model() =~= ws_cache_after_get(
                old(working_set).spec_storage(),
                old(working_set).cache_model(),
                old(working_set).hints(),
                old(working_set).consumed(),
                self.slot(*key),
            ),
            final(working_set).hints() == ws_hints_after_get(
                old(working_set).spec_storage(),
                old(working_set).cache_model(),
                old(working_set).hints(),
                old(working_set).consumed(),
                self.slot(*key),
            ),
            final(working_set).consumed() == ws_consumed_after_get(
                old(working_set).spec_storage(),
                old(working_set).cache_model(),
                old(working_set).hints(),
                old(working_set).consumed(),
                self.slot(*key),
            ),
    {
        match self.get(key, working_set) {
            Some(v) => Ok(v),
            None => Err(Error::MissingValue(self.prefix.duplicate())),
        }
    }

    /// Removes the entry under a map key, returning the value that was
    /// visible (or `None`).
    pub fn remove<S: Storage>(&self, key: &K, working_set: &mut WorkingSet<S>) -> (r: Option<V>)
        requires
            old(working_set).wf(),
            visible(old(working_set).cache_model(), self.slot(*key)) is None ==> old(
                working_set,
            ).spec_storage().get_pre(
                self.slot(*key),
                old(working_set).hints(),
                old(working_set).consumed(),
            ),
        ensures
            final(working_set).wf(),
            final(working_set).spec_storage() == old(working_set).spec_storage(),
            ({
                let bytes = ws_read_result(
                    old(working_set).spec_storage(),
                    old(working_set).cache_model(),
                    old(working_set).hints(),
                    old(working_set).consumed(),
                    self.slot(*key),
                );
                match bytes {
                    Some(b) => {
                        &&& (r matches Some(v) ==> v.spec_encoding() == b)
                        &&& ((exists|v: V| v.spec_encoding() == b) ==> r is Some)
                    },
                    None => r is None,
                }
            }),
            final(working_set).cache_model() =~= cache_after_write(
                ws_cache_after_get(
                    old(working_set).spec_storage(),
                    old(working_set).cache_model(),
                    old(working_set).hints(),
                    old(working_set).consumed(),
                    self.slot(*key),
                ),
                self.slot(*key),
                None,
            ),
            final(working_set).hints() == ws_hints_after_get(
                old(working_set).spec_storage(),
                old(working_set).cache_model(),
                old(working_set).hints(),
                old(working_set).consumed(),
                self.slot(*key),
            ),
            final(working_set).consumed() == ws_consumed_after_get(
                old(working_set).spec_storage(),
                old(working_set).cache_model(),
                old(working_set).hints(),
                old(working_set).consumed(),
                self.slot(*key),
            ),
    {
        working_set.remove_value(&self.prefix, key)
    }

    /// Removes the entry under a map key, returning the value (or an error
    /// if the entry is absent).
    pub fn remove_or_err<S: Storage>(&self, key: &K, working_set: &mut WorkingSet<S>) -> (r:
        Result<V, Error>)
        requires
            old(working_set).wf(),
            visible(old(working_set).cache_model(), self.slot(*key)) is None ==> old(
                working_set,
            ).spec_storage().get_pre(
                self.slot(*key),
                old(working_set).hints(),
                old(working_set).consumed(),
            ),
        ensures
            final(working_set).wf(),
            final(working_set).spec_storage() == old(working_set).spec_storage(),
            ({
                let bytes = ws_read_result(
                    old(working_set).spec_storage(),
                    old(working_set).cache_model(),
                    old(working_set).hints(),
                    old(working_set).consumed(),
                    self.slot(*key),
                );
                match bytes {
                    Some(b) => {
                        &&& (r matches Ok(v) ==> v.spec_encoding() == b)
                        &&& ((exists|v: V| v.spec_encoding() == b) ==> r is Ok)
                    },
                    None => (r matches Err(e) && e matches Error::MissingValue(p) && p@
                        == self.spec_prefix()),
                }
            }),
            final(working_set).cache_model() =~= cache_after_write(
                ws_cache_after_get(
                    old(working_set).spec_storage(),
                    old(working_set).cache_model(),
                    old(working_set).hints(),
                    old(working_set).consumed(),
                    self.slot(*key),
                ),
                self.slot(*key),
                None,
            ),
            final(working_set).hints() == ws_hints_after_get(
                old(working_set).spec_storage(),
                old(working_set).cache_model(),
                old(working_set).hints(),
                old(working_set).consumed(),
                self.slot(*key),
            ),
            final(working_set).consumed() == ws_consumed_after_get(
                old(working_set).spec_storage(),
                old(working_set).cache_model(),
                old(working_set).hints(),
                old(working_set).consumed(),
                self.slot(*key),
            ),
    {
        match self.remove(key, working_set) {
            Some(v) => Ok(v),
            None => Err(Error::MissingValue(self.prefix.duplicate())),
        }
    }

    /// Deletes the entry under a map key without reading it.
    pub fn delete<S: Storage>(&self, key: &K, working_set: &mut WorkingSet<S>)
        requires
            old(working_set).wf(),
        ensures
            final(working_set).wf(),
            final(working_set).spec_storage() == old(working_set).spec_storage(),
            final(working_set).hints() == old(working_set).hints(),
            final(working_set).consumed() == old(working_set).consumed(),
            final(working_set).cache_model() =~= cache_after_write(
                old(working_set).cache_model(),
                self.slot(*key),
                None,
            ),
    {
        working_set.delete_value(&self.prefix, key);
    }
}

} // verus!
