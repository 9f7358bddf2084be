//! Storage keys, values, namespaces, and the storage contract.
//!
//! A storage key is the namespace prefix's bytes followed by the canonically
//! encoded key, each part padded to a four-byte boundary so that the
//! concatenation is canonical. A storage value is the canonical encoding of an
//! application value; neither is mutated after construction.

use vstd::prelude::*;
use std::sync::Arc;
use crate::cache::{CacheKey, CacheLog, CacheValue};
use crate::codec::Encode;
use crate::witness::ArrayWitness;

verus! {

/// `s` padded with zero bytes to the next multiple of four.
pub open spec fn pad4(s: Seq<u8>) -> Seq<u8> {
    s + Seq::new(((4 - s.len() % 4) % 4) as nat, |i: int| 0u8)
}

/// A byte vector padded to a four-byte boundary.
#[derive(Debug, PartialEq, Eq)]
pub struct AlignedVec {
    inner: Vec<u8>,
}

impl AlignedVec {
    pub closed spec fn view(&self) -> Seq<u8> {
        self.inner@
    }

    /// Pads `v` with zero bytes to the next multiple of four.
    pub fn new(v: Vec<u8>) -> (r: AlignedVec)
        ensures
            r@ == pad4(v@),
    {
        let ghost orig = v@;
        let mut v = v;
        let pad = (4 - v.len() % 4) % 4;
        let mut i: usize = 0;
        while i < pad
            invariant
                pad == (4 - orig.len() % 4) % 4,
                i <= pad,
                v@ =~= orig + Seq::new(i as nat, |j: int| 0u8),
            decreases pad - i,
        {
            v.push(0u8);
            i = i + 1;
            proof {
                assert(v@ =~= orig + Seq::new(i as nat, |j: int| 0u8));
            }
        }
        proof {
            assert(v@ =~= pad4(orig));
        }
        AlignedVec { inner: v }
    }

    pub fn extend(&mut self, other: &AlignedVec)
        ensures
            final(self)@ == old(self)@ + other@,
    {
        let n = other.inner.len();
        let mut i: usize = 0;
        while i < n
            invariant
                n == other@.len(),
                i <= n,
                self.inner@ =~= old(self)@ + other@.subrange(0, i as int),
            decreases n - i,
        {
            self.inner.push(other.inner[i]);
            proof {
                assert(other@.subrange(0, i + 1) =~= other@.subrange(0, i as int).push(
                    other@[i as int],
                ));
            }
            i = i + 1;
        }
        proof {
            assert(other@.subrange(0, n as int) =~= other@);
            assert(self.inner@ =~= old(self)@ + other@);
        }
    }

    pub fn into_inner(self) -> (r: Vec<u8>)
        ensures
            r@ == self@,
    {
        self.inner
    }

    pub fn len(&self) -> (r: usize)
        ensures
            r == self@.len(),
    {
        self.inner.len()
    }

    pub fn duplicate(&self) -> (r: AlignedVec)
        ensures
            r@ == self@,
    {
        AlignedVec { inner: self.inner.clone() }
    }
}

/// A namespace identifier scoping one state container's keys. Two distinct
/// containers must never be given the same prefix, or their keys may collide.
#[derive(Debug, PartialEq, Eq)]
pub struct Prefix {
    prefix: AlignedVec,
}

impl Prefix {
    pub closed spec fn view(&self) -> Seq<u8> {
        self.prefix@
    }

    /// Builds a prefix from its raw namespace bytes, padded to alignment.
    pub fn new(prefix: Vec<u8>) -> (r: Prefix)
        ensures
            r@ == pad4(prefix@),
    {
        Prefix { prefix: AlignedVec::new(prefix) }
    }

    pub fn len(&self) -> (r: usize)
        ensures
            r == self@.len(),
    {
        self.prefix.len()
    }

    pub fn as_aligned_vec(&self) -> (r: &AlignedVec)
        ensures
            r@ == self@,
    {
        &self.prefix
    }

    pub fn duplicate(&self) -> (r: Prefix)
        ensures
            r@ == self@,
    {
        Prefix { prefix: self.prefix.duplicate() }
    }
}

/// Key type for the storage: prefix bytes, then the aligned encoded key.
#[derive(Debug, PartialEq, Eq)]
pub struct StorageKey {
    key: Vec<u8>,
}

impl StorageKey {
    pub closed spec fn view(&self) -> Seq<u8> {
        self.key@
    }

    /// The key bytes, as a shared immutable handle.
    pub fn key(&self) -> (r: Arc<Vec<u8>>)
        ensures
            (*r)@ == self@,
    {
        Arc::new(self.key.clone())
    }

    /// The key bytes themselves.
    pub fn as_bytes(&self) -> (r: &Vec<u8>)
        ensures
            r@ == self@,
    {
        &self.key
    }

    pub fn as_cache_key(self) -> (r: CacheKey)
        ensures
            r@ == self@,
    {
        CacheKey::new(self.key)
    }

    /// Creates a new StorageKey that combines a prefix and a key.
    pub fn new<K: Encode>(prefix: &Prefix, key: &K) -> (r: StorageKey)
        ensures
            r@ == prefix@ + pad4(key.spec_encoding()),
    {
        let encoded_key = key.encode();
        let encoded_key = AlignedVec::new(encoded_key);
        let mut full_key = AlignedVec::new(Vec::new());
        proof {
            assert(pad4(Seq::<u8>::empty()) =~= Seq::<u8>::empty());
            assert(full_key@ =~= Seq::<u8>::empty());
        }
        full_key.extend(prefix.as_aligned_vec());
        proof {
            assert(Seq::<u8>::empty() + prefix@ =~= prefix@);
        }
        full_key.extend(&encoded_key);
        StorageKey { key: full_key.into_inner() }
    }

    /// A key made of the given raw bytes, without any namespace.
    pub fn new_from_bytes(key: Vec<u8>) -> (r: StorageKey)
        ensures
            r@ == key@,
    {
        StorageKey { key }
    }

    pub fn duplicate(&self) -> (r: StorageKey)
        ensures
            r@ == self@,
    {
        StorageKey { key: self.key.clone() }
    }

    /// The key bytes written as lowercase hexadecimal.
    pub fn hex(&self) -> (r: String)
        ensures
            r@ == hex_of(self@),
    {
        hex_encode(&self.key)
    }
}

/// The lowercase hexadecimal digit for `n` (0 to 15).
pub open spec fn hex_digit(n: u8) -> char {
    if n == 0 {
        '0'
    } else if n == 1 {
        '1'
    } else if n == 2 {
        '2'
    } else if n == 3 {
        '3'
    } else if n == 4 {
        '4'
    } else if n == 5 {
        '5'
    } else if n == 6 {
        '6'
    } else if n == 7 {
        '7'
    } else if n == 8 {
        '8'
    } else if n == 9 {
        '9'
    } else if n == 10 {
        'a'
    } else if n == 11 {
        'b'
    } else if n == 12 {
        'c'
    } else if n == 13 {
        'd'
    } else if n == 14 {
        'e'
    } else {
        'f'
    }
}

/// Each byte as two lowercase hexadecimal digits, high nibble first.
pub open spec fn hex_of(s: Seq<u8>) -> Seq<char> {
    Seq::new(
        s.len() * 2,
        |i: int|
            if i % 2 == 0 {
                hex_digit(s[i / 2] / 16)
            } else {
                hex_digit((s[i / 2] % 16) as u8)
            },
    )
}

/// Relies on hex::encode: each byte becomes two lowercase hexadecimal digits,
/// high nibble first, in input order.
#[verifier::external_body]
fn hex_encode(b: &Vec<u8>) -> (r: String)
    ensures
        r@ == hex_of(b@),
{
    hex::encode(b)
}

/// Value type for the storage: canonically encoded bytes, immutable once
/// built.
#[derive(Debug, PartialEq, Eq)]
pub struct StorageValue {
    value: Vec<u8>,
}

impl StorageValue {
    pub closed spec fn view(&self) -> Seq<u8> {
        self.value@
    }

    /// Encodes an application value into storage-value bytes.
    pub fn new<V: Encode>(value: &V) -> (r: StorageValue)
        ensures
            r@ == value.spec_encoding(),
    {
        StorageValue { value: value.encode() }
    }

    /// The value bytes.
    pub fn value(&self) -> (r: &[u8])
        ensures
            r@ == self@,
    {
        self.value.as_slice()
    }

    pub fn as_cache_value(self) -> (r: CacheValue)
        ensures
            r@ == self@,
    {
        CacheValue::new(self.value)
    }

    pub fn new_from_cache_value(cache_value: CacheValue) -> (r: StorageValue)
        ensures
            r@ == cache_value@,
    {
        StorageValue { value: cache_value.value }
    }

    pub fn new_from_bytes(value: Vec<u8>) -> (r: StorageValue)
        ensures
            r@ == value@,
    {
        StorageValue { value }
    }

    pub fn duplicate(&self) -> (r: StorageValue)
        ensures
            r@ == self@,
    {
        StorageValue { value: self.value.clone() }
    }
}

/// The bytes of an optional storage value.
pub open spec fn opt_sv_model(v: Option<StorageValue>) -> Option<Seq<u8>> {
    match v {
        Some(sv) => Some(sv@),
        None => None,
    }
}

/// Failure of a commit. The first three are fatal for the execution; they
/// signal divergence between the cache, the witness, and the authenticated
/// tree.
#[derive(Debug, PartialEq, Eq, Structural)]
pub enum CommitError {
    /// A cached read's value disagrees with the authenticated tree's value.
    InconsistentRead,
    /// Replay ran out of recorded hints.
    ExhaustedWitness,
    /// A recorded hint could not be decoded as what the protocol expects.
    MalformedHint,
}

/// An interface for storing and retrieving values in the storage.
///
/// `get` returns the latest committed value for a key, or its absence, and
/// records the result in the witness so that a replaying execution never
/// needs storage access for the read. Its behaviour is pinned per
/// implementation by the `get_pre`/`get_model`/`get_hints_post`/
/// `get_consumed_post` specification functions. `validate_and_commit`
/// authenticates every read recorded in a cache log, applies every write, and
/// returns the new 32-byte root; its exact contract lives on each
/// implementation.
pub trait Storage: Sized {
    /// When a read through this storage is permitted.
    spec fn get_pre(&self, key: Seq<u8>, hints: Seq<Seq<u8>>, consumed: int) -> bool;

    /// The value a read returns.
    spec fn get_model(&self, key: Seq<u8>, hints: Seq<Seq<u8>>, consumed: int) -> Option<Seq<u8>>;

    /// The witness hint sequence after a read.
    spec fn get_hints_post(&self, key: Seq<u8>, hints: Seq<Seq<u8>>, consumed: int) -> Seq<
        Seq<u8>,
    >;

    /// The witness read cursor after a read.
    spec fn get_consumed_post(&self, key: Seq<u8>, hints: Seq<Seq<u8>>, consumed: int) -> int;

    /// When a commit through this storage is permitted.
    spec fn commit_pre(&self) -> bool;

    /// Returns the value corresponding to the key or `None` if it is absent,
    /// recording or consuming witness hints as the implementation requires.
    fn get(&self, key: &StorageKey, witness: &mut ArrayWitness) -> (r: Option<StorageValue>)
        requires
            self.get_pre(key@, old(witness).hints(), old(witness).consumed()),
        ensures
            opt_sv_model(r) == self.get_model(key@, old(witness).hints(), old(witness).consumed()),
            final(witness).hints() == self.get_hints_post(
                key@,
                old(witness).hints(),
                old(witness).consumed(),
            ),
            final(witness).consumed() == self.get_consumed_post(
                key@,
                old(witness).hints(),
                old(witness).consumed(),
            ),
    ;

    /// Validates all of the storage accesses in a cache log, returning the
    /// new state root after applying all writes.
    fn validate_and_commit(&mut self, cache_log: CacheLog, witness: &mut ArrayWitness) -> (r:
        Result<[u8; 32], CommitError>)
        requires
            old(self).commit_pre(),
            cache_log.wf(),
    ;
}

} // verus!
