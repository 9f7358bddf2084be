//! The versioned, Merkle-authenticated node store.
//!
//! The store holds a Jellyfish Merkle tree, one committed version per applied
//! write batch, together with the preimage of every hashed key ever written.
//! Its ghost model is the sequence of batches applied so far: the root, the
//! proofs, and the committed values at every version are functions of that
//! history alone, which is what makes commits deterministic and replayable.

use vstd::prelude::*;
use jmt::mock::MockTreeStore;
use jmt::storage::TreeWriter;
use jmt::storage::HasPreimage;
use jmt::storage::TreeReader;
use jmt::JellyfishMerkleTree;
use jmt::KeyHash;
use jmt::RootHash;
use sha2::Digest;

verus! {

#[verifier::external_type_specification]
#[verifier::external_body]
pub struct ExMockTreeStore(MockTreeStore);

/// The sequence of write batches the store has committed, one per version,
/// each an ordered list of (key hash, value-or-deletion) pairs.
pub uninterp spec fn store_history(store: MockTreeStore) -> Seq<Seq<(Seq<u8>, Option<Seq<u8>>)>>;

/// The preimage table of the store: key hash to original key bytes.
pub uninterp spec fn store_preimages(store: MockTreeStore) -> Map<Seq<u8>, Seq<u8>>;

/// The root hash of the Jellyfish Merkle tree after applying `history`.
pub uninterp spec fn jmt_root_of(history: Seq<Seq<(Seq<u8>, Option<Seq<u8>>)>>) -> Seq<u8>;

/// The serialized inclusion/exclusion proof for `key_hash` in the tree
/// obtained by applying `history`.
pub uninterp spec fn jmt_proof_of(
    history: Seq<Seq<(Seq<u8>, Option<Seq<u8>>)>>,
    key_hash: Seq<u8>,
) -> Seq<u8>;

/// Whether a serialized proof verifies that `key_hash` maps to `value` (or is
/// absent, for `None`) under `root`.
pub uninterp spec fn proof_accepts(
    proof: Seq<u8>,
    root: Seq<u8>,
    key_hash: Seq<u8>,
    value: Option<Seq<u8>>,
) -> bool;

/// The SHA-256 digest of `data`.
pub uninterp spec fn sha256_of(data: Seq<u8>) -> Seq<u8>;

/// The deep model of an optional byte vector.
pub open spec fn opt_vec_model(v: Option<Vec<u8>>) -> Option<Seq<u8>> {
    match v {
        Some(b) => Some(b@),
        None => None,
    }
}

/// The deep model of an executable write batch.
pub open spec fn batch_model(b: Seq<([u8; 32], Option<Vec<u8>>)>) -> Seq<
    (Seq<u8>, Option<Seq<u8>>),
> {
    Seq::new(b.len(), |i: int| (b[i].0@, opt_vec_model(b[i].1)))
}

/// The last value a batch assigns to `key_hash`, if the batch touches it.
pub open spec fn batch_lookup(
    batch: Seq<(Seq<u8>, Option<Seq<u8>>)>,
    key_hash: Seq<u8>,
) -> Option<Option<Seq<u8>>>
    decreases batch.len(),
{
    if batch.len() == 0 {
        None
    } else if batch.last().0 == key_hash {
        Some(batch.last().1)
    } else {
        batch_lookup(batch.drop_last(), key_hash)
    }
}

/// The latest committed value for `key_hash` after applying all of `history`,
/// where `None` covers both deletion and never-written.
pub open spec fn latest_value(
    history: Seq<Seq<(Seq<u8>, Option<Seq<u8>>)>>,
    key_hash: Seq<u8>,
) -> Option<Seq<u8>>
    decreases history.len(),
{
    if history.len() == 0 {
        None
    } else {
        match batch_lookup(history.last(), key_hash) {
            Some(v) => v,
            None => latest_value(history.drop_last(), key_hash),
        }
    }
}

/// The value visible when reading `key_hash` at `version` (clamped to the
/// latest committed version, as reads at future versions see the latest
/// state).
pub open spec fn read_model(
    history: Seq<Seq<(Seq<u8>, Option<Seq<u8>>)>>,
    key_hash: Seq<u8>,
    version: int,
) -> Option<Seq<u8>> {
    let upto = if version + 1 >= history.len() {
        history.len() as int
    } else {
        version + 1
    };
    latest_value(history.take(upto), key_hash)
}

/// Relies on sha2::Sha256: the digest is a function of the input bytes alone,
/// 32 bytes long.
#[verifier::external_body]
pub fn sha256_hash(data: &Vec<u8>) -> (r: [u8; 32])
    ensures
        r@ == sha256_of(data@),
{
    let mut hasher = sha2::Sha256::new();
    hasher.update(data.as_slice());
    let digest = hasher.finalize();
    let mut out = [0u8; 32];
    out.copy_from_slice(&digest);
    out
}

/// Relies on jmt::mock::MockTreeStore::default: a fresh store has committed
/// nothing and holds no preimage.
#[verifier::external_body]
fn store_new() -> (r: MockTreeStore)
    ensures
        store_history(r).len() == 0,
        store_preimages(r).dom() =~= Set::empty(),
{
    MockTreeStore::default()
}

/// Relies on jmt::JellyfishMerkleTree::put_value_set and
/// jmt::mock::MockTreeStore::write_node_batch: applies one batch as the
/// tree's next version — atomically, with no other effect — and returns the
/// new root, which is a function of the batches applied so far. On a
/// consistent store at the next fresh version, per the jmt sources, neither
/// call fails.
#[verifier::external_body]
fn store_apply_batch(
    store: &mut MockTreeStore,
    batch: &Vec<([u8; 32], Option<Vec<u8>>)>,
    version: u64,
) -> (r: [u8; 32])
    requires
        version == store_history(*old(store)).len(),
    ensures
        store_history(*final(store)) == store_history(*old(store)).push(batch_model(batch@)),
        store_preimages(*final(store)) == store_preimages(*old(store)),
        r@ == jmt_root_of(store_history(*final(store))),
{
    let tree = JellyfishMerkleTree::<_, sha2::Sha256>::new(&*store);
    let value_set: Vec<(KeyHash, Option<Vec<u8>>)> =
        batch.iter().map(|(k, v)| (KeyHash(*k), v.clone())).collect();
    let (root, updates) = tree.put_value_set(value_set, version).expect(
        "jmt update must succeed",
    );
    store.write_node_batch(&updates.node_batch).expect("node batch write must succeed");
    root.0
}

/// Relies on jmt::mock::MockTreeStore::get_value_option (TreeReader): the
/// latest value written at or before `max_version`, or absence; never fails
/// on the in-memory store.
#[verifier::external_body]
fn store_get_value(store: &MockTreeStore, key_hash: &[u8; 32], max_version: u64) -> (r: Option<
    Vec<u8>,
>)
    ensures
        opt_vec_model(r) == read_model(store_history(*store), key_hash@, max_version as int),
{
    store.get_value_option(max_version, KeyHash(*key_hash)).expect("in-memory read must succeed")
}

/// Relies on jmt::JellyfishMerkleTree::get_with_proof and on the borsh
/// serialization of the returned jmt::proof::SparseMerkleProof: the value at
/// `version` together with a proof that binds exactly that value (or its
/// absence) to the root at `version`; succeeds whenever `version` has been
/// committed, per the jmt sources.
#[verifier::external_body]
fn store_get_with_proof(store: &MockTreeStore, key_hash: &[u8; 32], version: u64) -> (r: (
    Option<Vec<u8>>,
    Vec<u8>,
))
    requires
        version < store_history(*store).len(),
    ensures
        opt_vec_model(r.0) == read_model(store_history(*store), key_hash@, version as int),
        r.1@ == jmt_proof_of(store_history(*store).take(version + 1), key_hash@),
        proof_accepts(
            r.1@,
            jmt_root_of(store_history(*store).take(version + 1)),
            key_hash@,
            opt_vec_model(r.0),
        ),
{
    let tree = JellyfishMerkleTree::<_, sha2::Sha256>::new(store);
    let (value, proof) = tree.get_with_proof(KeyHash(*key_hash), version).expect(
        "proof read must succeed",
    );
    let proof_bytes = borsh::to_vec(&proof).expect("proof serialization must succeed");
    (value, proof_bytes)
}

/// Relies on borsh deserialization of jmt::proof::SparseMerkleProof and on
/// its verify method: whether the serialized proof binds (key hash,
/// value-or-absence) to the given root.
#[verifier::external_body]
pub fn verify_proof(
    proof_bytes: &Vec<u8>,
    root: &[u8; 32],
    key_hash: &[u8; 32],
    value: &Option<Vec<u8>>,
) -> (r: bool)
    ensures
        r == proof_accepts(proof_bytes@, root@, key_hash@, opt_vec_model(*value)),
{
    match borsh::from_slice::<jmt::proof::SparseMerkleProof<sha2::Sha256>>(proof_bytes.as_slice()) {
        Ok(proof) => proof.verify(RootHash(*root), KeyHash(*key_hash), value.as_ref()).is_ok(),
        Err(_) => false,
    }
}

/// Relies on jmt::mock::MockTreeStore::put_key_preimage: records the original
/// key bytes for a key hash; the committed batches are untouched.
#[verifier::external_body]
fn store_put_preimage(store: &mut MockTreeStore, key_hash: &[u8; 32], key: &Vec<u8>)
    ensures
        store_history(*final(store)) == store_history(*old(store)),
        store_preimages(*final(store)) == store_preimages(*old(store)).insert(key_hash@, key@),
{
    store.put_key_preimage(KeyHash(*key_hash), key);
}

/// Relies on jmt::mock::MockTreeStore::preimage (HasPreimage): the recorded
/// key bytes for a key hash, if any.
#[verifier::external_body]
fn store_get_preimage(store: &MockTreeStore, key_hash: &[u8; 32]) -> (r: Option<Vec<u8>>)
    ensures
        opt_vec_model(r) == if store_preimages(*store).contains_key(key_hash@) {
            Some(store_preimages(*store)[key_hash@])
        } else {
            None::<Seq<u8>>
        },
{
    store.preimage(KeyHash(*key_hash)).expect("in-memory read must succeed")
}

/// The durable handle: a tree store, the next version to commit, and a
/// mirror of every committed root.
pub struct StateDb {
    store: MockTreeStore,
    next_version: u64,
    roots: Vec<[u8; 32]>,
}

impl StateDb {
    /// The batches committed so far, one per version; the batch at index `i`
    /// created version `i`.
    pub closed spec fn history(&self) -> Seq<Seq<(Seq<u8>, Option<Seq<u8>>)>> {
        store_history(self.store)
    }

    /// The preimage table.
    pub closed spec fn preimages(&self) -> Map<Seq<u8>, Seq<u8>> {
        store_preimages(self.store)
    }

    pub closed spec fn spec_next_version(&self) -> u64 {
        self.next_version
    }

    /// The committed roots, index `i` holding the root of version `i`.
    pub closed spec fn spec_roots(&self) -> Seq<Seq<u8>> {
        Seq::new(self.roots@.len(), |i: int| self.roots@[i]@)
    }

    /// Versions are dense from 0, the counter points one past the last, and
    /// the root mirror matches the tree.
    pub open spec fn wf(&self) -> bool {
        &&& self.spec_next_version() == self.history().len()
        &&& 1 <= self.history().len()
        &&& self.spec_roots().len() == self.history().len()
        &&& forall|i: int|
            0 <= i < self.spec_roots().len() ==> #[trigger] self.spec_roots()[i] == jmt_root_of(
                self.history().take(i + 1),
            )
    }

    /// A fresh store: version 0 is committed as the empty batch, so the
    /// empty-tree root exists and reads at version 0 are provable absences.
    pub fn new() -> (r: StateDb)
        ensures
            r.wf(),
            r.history() =~= seq![Seq::<(Seq<u8>, Option<Seq<u8>>)>::empty()],
            r.preimages() == Map::<Seq<u8>, Seq<u8>>::empty(),
            r.spec_next_version() == 1,
    {
        let mut store = store_new();
        let genesis: Vec<([u8; 32], Option<Vec<u8>>)> = Vec::new();
        let root = store_apply_batch(&mut store, &genesis, 0);
        let mut roots: Vec<[u8; 32]> = Vec::new();
        roots.push(root);
        proof {
            assert(batch_model(genesis@) =~= Seq::<(Seq<u8>, Option<Seq<u8>>)>::empty());
            assert(store_history(store).take(1) =~= store_history(store));
            assert(store_preimages(store) =~= Map::empty());
        }
        StateDb { store, next_version: 1, roots }
    }

    /// The next version a commit will create.
    pub fn get_next_version(&self) -> (r: u64)
        ensures
            r == self.spec_next_version(),
    {
        self.next_version
    }

    /// The latest committed value for a (hashed) key, reading at the next
    /// version like the storage engine does: the clamp makes that the latest
    /// committed state.
    pub fn read_value(&self, key: &Vec<u8>) -> (r: Option<Vec<u8>>)
        requires
            self.wf(),
        ensures
            opt_vec_model(r) == latest_value(self.history(), sha256_of(key@)),
    {
        let key_hash = sha256_hash(key);
        let r = store_get_value(&self.store, &key_hash, self.next_version);
        proof {
            assert(self.history().take(self.history().len() as int) =~= self.history());
        }
        r
    }

    /// The value and serialized proof for a key hash at a committed version.
    pub fn get_with_proof(&self, key_hash: &[u8; 32], version: u64) -> (r: (
        Option<Vec<u8>>,
        Vec<u8>,
    ))
        requires
            self.wf(),
            version < self.history().len(),
        ensures
            opt_vec_model(r.0) == read_model(self.history(), key_hash@, version as int),
            r.1@ == jmt_proof_of(self.history().take(version + 1), key_hash@),
            proof_accepts(
                r.1@,
                jmt_root_of(self.history().take(version + 1)),
                key_hash@,
                opt_vec_model(r.0),
            ),
    {
        store_get_with_proof(&self.store, key_hash, version)
    }

    /// Records the original key bytes for a hashed key.
    pub fn put_preimage(&mut self, key_hash: &[u8; 32], key: &Vec<u8>)
        requires
            old(self).wf(),
        ensures
            final(self).wf(),
            final(self).history() == old(self).history(),
            final(self).spec_roots() == old(self).spec_roots(),
            final(self).spec_next_version() == old(self).spec_next_version(),
            final(self).preimages() == old(self).preimages().insert(key_hash@, key@),
    {
        store_put_preimage(&mut self.store, key_hash, key);
    }

    /// The recorded key bytes for a hashed key, if any.
    pub fn get_preimage(&self, key_hash: &[u8; 32]) -> (r: Option<Vec<u8>>)
        ensures
            opt_vec_model(r) == if self.preimages().contains_key(key_hash@) {
                Some(self.preimages()[key_hash@])
            } else {
                None::<Seq<u8>>
            },
    {
        store_get_preimage(&self.store, key_hash)
    }

    /// Applies one write batch as the next version and returns the new root.
    pub fn commit_batch(&mut self, batch: &Vec<([u8; 32], Option<Vec<u8>>)>) -> (r: [u8; 32])
        requires
            old(self).wf(),
            old(self).spec_next_version() < u64::MAX,
        ensures
            final(self).wf(),
            final(self).history() == old(self).history().push(batch_model(batch@)),
            final(self).spec_next_version() == old(self).spec_next_version() + 1,
            final(self).spec_roots() =~= old(self).spec_roots().push(r@),
            final(self).preimages() == old(self).preimages(),
            r@ == jmt_root_of(final(self).history()),
    {
        let root = store_apply_batch(&mut self.store, batch, self.next_version);
        self.next_version = self.next_version + 1;
        self.roots.push(root);
        proof {
            let h = store_history(self.store);
            assert(h.take(h.len() as int) =~= h);
            assert forall|i: int| 0 <= i < self.spec_roots().len() implies #[trigger] self
                .spec_roots()[i] == jmt_root_of(self.history().take(i + 1)) by {
                if i < old(self).spec_roots().len() {
                    assert(old(self).history().take(i + 1) =~= self.history().take(i + 1));
                    assert(self.spec_roots()[i] == old(self).spec_roots()[i]);
                }
            }
        }
        root
    }

    /// The root of a committed version, or `None` for a version not yet
    /// committed.
    pub fn root_at(&self, version: u64) -> (r: Option<[u8; 32]>)
        requires
            self.wf(),
        ensures
            version < self.history().len() ==> (r matches Some(root) && root@ == jmt_root_of(
                self.history().take(version + 1),
            )),
            version >= self.history().len() ==> r is None,
    {
        let n = self.roots.len();
        if version < n as u64 {
            proof {
                assert(self.roots@.len() <= usize::MAX);
                assert(version as int <= usize::MAX as int);
                assert(self.spec_roots()[version as int] == jmt_root_of(
                    self.history().take(version + 1),
                ));
            }
            let idx: usize = version as usize;
            proof {
                assert(idx as int == version as int);
            }
            Some(self.roots[idx])
        } else {
            None
        }
    }

    /// The latest committed root.
    pub fn current_root(&self) -> (r: [u8; 32])
        requires
            self.wf(),
        ensures
            r@ == jmt_root_of(self.history()),
    {
        let r = self.roots[self.roots.len() - 1];
        proof {
            let last = self.spec_roots().len() - 1;
            assert(self.spec_roots()[last] == jmt_root_of(self.history().take(last + 1)));
            assert(self.history().take(self.history().len() as int) =~= self.history());
        }
        r
    }
}

} // verus!
