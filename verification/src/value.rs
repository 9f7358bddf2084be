//! Single-value state containers.
//!
//! A `StateValue` is a thin typed wrapper over the working set's key/value
//! operations: all of its accesses go to the single well-known slot derived
//! from the container's prefix, so two containers with distinct prefixes can
//! never collide.

use vstd::prelude::*;
use core::marker::PhantomData;
use crate::codec::{Decode, Encode};
use crate::storage::{pad4, Prefix, Storage};
use crate::working_set::{
    cache_after_write, ws_cache_after_get, ws_consumed_after_get, ws_hints_after_get,
    ws_read_result, WorkingSet,
};
use crate::cache::visible;

verus! {

/// The one key a single-value container stores under; it encodes to nothing,
/// so the container's slot is exactly its prefix.
#[derive(Debug)]
pub struct SingletonKey;

impl Encode for SingletonKey {
    open spec fn spec_encoding(&self) -> Seq<u8> {
        Seq::empty()
    }

    fn encode(&self) -> (r: Vec<u8>) {
        Vec::new()
    }
}

/// Error type for a container's `*_or_err` reads.
#[derive(Debug, PartialEq, Eq)]
pub enum Error {
    /// No value was found under the container's prefix.
    MissingValue(Prefix),
}

/// Container for a single value.
#[derive(Debug, PartialEq, Eq)]
pub struct StateValue<V> {
    _phantom: PhantomData<V>,
    prefix: Prefix,
}

impl<V: Encode + Decode> StateValue<V> {
    pub closed spec fn spec_prefix(&self) -> Seq<u8> {
        self.prefix@
    }

    /// The storage slot every access of this container uses.
    pub open spec fn slot(&self) -> Seq<u8> {
        self.spec_prefix() + pad4(Seq::empty())
    }

    pub fn new(prefix: Prefix) -> (r: StateValue<V>)
        ensures
            r.spec_prefix() == prefix@,
    {
        StateValue { _phantom: PhantomData, prefix }
    }

    pub fn prefix(&self) -> (r: &Prefix)
        ensures
            r@ == self.spec_prefix(),
    {
        &self.prefix
    }

    /// Sets a value in the StateValue.
    pub fn set<S: Storage>(&self, value: V, working_set: &mut WorkingSet<S>)
        requires
            old(working_set).wf(),
        ensures
            final(working_set).wf(),
            final(working_set).spec_storage() == old(working_set).spec_storage(),
            final(working_set).hints() == old(working_set).hints(),
            final(working_set).consumed() == old(working_set).consumed(),
            final(working_set).cache_model() =~= cache_after_write(
                old(working_set).cache_model(),
                self.slot(),
                Some(value.spec_encoding()),
            ),
    {
        working_set.set_value(&self.prefix, &SingletonKey, &value)
    }

    /// Gets a value from the StateValue or `None` if the value is absent.
    pub fn get<S: Storage>(&self, working_set: &mut WorkingSet<S>) -> (r: Option<V>)
        requires
            old(working_set).wf(),
            visible(old(working_set).cache_model(), self.slot()) is None ==> old(
                working_set,
            ).spec_storage().get_pre(
                self.slot(),
                old(working_set).hints(),
                old(working_set).consumed(),
            ),
        ensures
            final(working_set).wf(),
            final(working_set).spec_storage() == old(working_set).spec_storage(),
            ({
                let bytes = ws_read_result(
                    old(working_set).spec_storage(),
                    old(working_set).cache_model(),
                    old(working_set).hints(),
                    old(working_set).consumed(),
                    self.slot(),
                );
                match bytes {
                    Some(b) => {
                        &&& (r matches Some(v) ==> v.spec_encoding() == b)
                        &&& ((exists|v: V| v.spec_encoding() == b) ==> r is Some)
                    },
                    None => r is None,
                }
            }),
            final(working_set).cache_model() =~= ws_cache_after_get(
                old(working_set).spec_storage(),
                old(working_set).cache_model(),
                old(working_set).hints(),
                old(working_set).consumed(),
                self.slot(),
            ),
            final(working_set).hints() == ws_hints_after_get(
                old(working_set).spec_storage(),
                old(working_set).cache_model(),
                old(working_set).hints(),
                old(working_set).consumed(),
                self.slot(),
            ),
            final(working_set).consumed() == ws_consumed_after_get(
                old(working_set).spec_storage(),
                old(working_set).cache_model(),
                old(working_set).hints(),
                old(working_set).consumed(),
                self.slot(),
            ),
    {
        working_set.get_value(&self.prefix, &SingletonKey)
    }

    /// Gets a value from the StateValue or an error if the value is absent.
    pub fn get_or_err<S: Storage>(&self, working_set: &mut WorkingSet<S>) -> (r: Result<V, Error>)
        requires
            old(working_set).wf(),
            visible(old(working_set).cache_model(), self.slot()) is None ==> old(
                working_set,
            ).spec_storage().get_pre(
                self.slot(),
                old(working_set).hints(),
                old(working_set).consumed(),
            ),
        ensures
            final(working_set).wf(),
            final(working_set).spec_storage() == old(working_set).spec_storage(),
            ({
                let bytes = ws_read_result(
                    old(working_set).spec_storage(),
                    old(working_set).cache_model(),
                    old(working_set).hints(),
                    old(working_set).consumed(),
                    self.slot(),
                );
                match bytes {
                    Some(b) => {
                        &&& (r matches Ok(v) ==> v.spec_encoding() == b)
                        &&& ((exists|v: V| v.spec_encoding() == b) ==> r is Ok)
                    },
                    None => (r matches Err(e) && e matches Error::MissingValue(p) && p@
                        == self.spec_prefix()),
                }
            }),
            final(working_set).cache_model() =~= ws_cache_after_get(
                old(working_set).spec_storage(),
                old(working_set).cache_model(),
                old(working_set).hints(),
                old(working_set).consumed(),
                self.slot(),
            ),
            final(working_set).hints() == ws_hints_after_get(
                old(working_set).spec_storage(),
                old(working_set).cache_model(),
                old(working_set).hints(),
                old(working_set).consumed(),
                self.slot(),
            ),
            final(working_set).consumed() == ws_consumed_after_get(
                old(working_set).spec_storage(),
                old(working_set).cache_model(),
                old(working_set).hints(),
                old(working_set).consumed(),
                self.slot(),
            ),
    {
        match self.get(working_set) {
            Some(v) => Ok(v),
            None => Err(Error::MissingValue(self.prefix.duplicate())),
        }
    }

    /// Removes a value from the StateValue, returning the value (or `None`
    /// if the slot is empty).
    pub fn remove<S: Storage>(&self, working_set: &mut WorkingSet<S>) -> (r: Option<V>)
        requires
            old(working_set).wf(),
            visible(old(working_set).cache_model(), self.slot()) is None ==> old(
                working_set,
            ).spec_storage().get_pre(
                self.slot(),
                old(working_set).hints(),
                old(working_set).consumed(),
            ),
        ensures
            final(working_set).wf(),
            final(working_set).spec_storage() == old(working_set).spec_storage(),
            ({
                let bytes = ws_read_result(
                    old(working_set).spec_storage(),
                    old(working_set).cache_model(),
                    old(working_set).hints(),
                    old(working_set).consumed(),
                    self.slot(),
                );
                match bytes {
                    Some(b) => {
                        &&& (r matches Some(v) ==> v.spec_encoding() == b)
                        &&& ((exists|v: V| v.spec_encoding() == b) ==> r is Some)
                    },
                    None => r is None,
                }
            }),
            final(working_set).cache_model() =~= cache_after_write(
                ws_cache_after_get(
                    old(working_set).spec_storage(),
                    old(working_set).cache_model(),
                    old(working_set).hints(),
                    old(working_set).consumed(),
                    self.slot(),
                ),
                self.slot(),
                None,
            ),
            final(working_set).hints() == ws_hints_after_get(
                old(working_set).spec_storage(),
                old(working_set).cache_model(),
                old(working_set).hints(),
                old(working_set).consumed(),
                self.slot(),
            ),
            final(working_set).consumed() == ws_consumed_after_get(
                old(working_set).spec_storage(),
                old(working_set).cache_model(),
                old(working_set).hints(),
                old(working_set).consumed(),
                self.slot(),
            ),
    {
        working_set.remove_value(&self.prefix, &SingletonKey)
    }

    /// Removes a value from the StateValue, returning the value (or an error
    /// if the slot is empty).
    pub fn remove_or_err<S: Storage>(&self, working_set: &mut WorkingSet<S>) -> (r: Result<
        V,
        Error,
    >)
        requires
            old(working_set).wf(),
            visible(old(working_set).cache_model(), self.slot()) is None ==> old(
                working_set,
            ).spec_storage().get_pre(
                self.slot(),
                old(working_set).hints(),
                old(working_set).consumed(),
            ),
        ensures
            final(working_set).wf(),
            final(working_set).spec_storage() == old(working_set).spec_storage(),
            ({
                let bytes = ws_read_result(
                    old(working_set).spec_storage(),
                    old(working_set).cache_model(),
                    old(working_set).hints(),
                    old(working_set).consumed(),
                    self.slot(),
                );
                match bytes {
                    Some(b) => {
                        &&& (r matches Ok(v) ==> v.spec_encoding() == b)
                        &&& ((exists|v: V| v.spec_encoding() == b) ==> r is Ok)
                    },
                    None => (r matches Err(e) && e matches Error::MissingValue(p) && p@
                        == self.spec_prefix()),
                }
            }),
            final(working_set).cache_model() =~= cache_after_write(
                ws_cache_after_get(
                    old(working_set).spec_storage(),
                    old(working_set).cache_model(),
                    old(working_set).hints(),
                    old(working_set).consumed(),
                    self.slot(),
                ),
                self.slot(),
                None,
            ),
            final(working_set).hints() == ws_hints_after_get(
                old(working_set).spec_storage(),
                old(working_set).cache_model(),
                old(working_set).hints(),
                old(working_set).consumed(),
                self.slot(),
            ),
            final(working_set).consumed() == ws_consumed_after_get(
                old(working_set).spec_storage(),
                old(working_set).cache_model(),
                old(working_set).hints(),
                old(working_set).consumed(),
                self.slot(),
            ),
    {
        match self.remove(working_set) {
            Some(v) => Ok(v),
            None => Err(Error::MissingValue(self.prefix.duplicate())),
        }
    }

    /// Deletes a value from the StateValue without reading it.
    pub fn delete<S: Storage>(&self, working_set: &mut WorkingSet<S>)
        requires
            old(working_set).wf(),
        ensures
            final(working_set).wf(),
            final(working_set).spec_storage() == old(working_set).spec_storage(),
            final(working_set).hints() == old(working_set).hints(),
            final(working_set).consumed() == old(working_set).consumed(),
            final(working_set).cache_model() =~= cache_after_write(
                old(working_set).cache_model(),
                self.slot(),
                None,
            ),
    {
        working_set.delete_value(&self.prefix, &SingletonKey);
    }
}

} // verus!
