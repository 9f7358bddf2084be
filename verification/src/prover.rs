//! The Merkle-authenticated storage engine for data-rich (native) execution.
//!
//! `get` reads the latest committed value and records it as a witness hint.
//! `validate_and_commit` re-derives every read recorded in a cache log from
//! the authoritative tree — recording each proof as a hint — applies every
//! write as the next version, records the new root as the final hint so a
//! replaying execution returns the same commitment, and returns that root.
//! Both are deterministic functions of the store's batch history and their
//! inputs.

use vstd::prelude::*;
use crate::cache::{CacheLog, pairs_model, reads_model, writes_model};
use crate::cache::vec_eq;
use crate::codec::{encode_opt_bytes, encode_u64, opt_bytes_hint, u64_le_bytes};
use crate::db::{
    batch_model, jmt_proof_of, jmt_root_of, latest_value, proof_accepts, sha256_hash, sha256_of,
    StateDb,
};
use crate::storage::{CommitError, Storage, StorageKey, StorageValue};
use crate::witness::ArrayWitness;
use vstd::slice::slice_to_vec;

verus! {

/// Whether the read pair at index `j` agrees with the committed state.
pub open spec fn read_agrees(
    history: Seq<Seq<(Seq<u8>, Option<Seq<u8>>)>>,
    read: (Seq<u8>, Option<Seq<u8>>),
) -> bool {
    latest_value(history, sha256_of(read.0)) == read.1
}

/// How many leading read pairs agree with the committed state.
pub open spec fn agreeing_reads(
    history: Seq<Seq<(Seq<u8>, Option<Seq<u8>>)>>,
    reads: Seq<(Seq<u8>, Option<Seq<u8>>)>,
) -> int
    decreases reads.len(),
{
    if reads.len() == 0 {
        0
    } else if !read_agrees(history, reads.first()) {
        0
    } else {
        1 + agreeing_reads(history, reads.drop_first())
    }
}

pub proof fn lemma_agreeing_reads_spec(
    history: Seq<Seq<(Seq<u8>, Option<Seq<u8>>)>>,
    reads: Seq<(Seq<u8>, Option<Seq<u8>>)>,
)
    ensures
        0 <= agreeing_reads(history, reads) <= reads.len(),
        forall|j: int|
            0 <= j < agreeing_reads(history, reads) ==> read_agrees(history, #[trigger] reads[j]),
        agreeing_reads(history, reads) < reads.len() ==> !read_agrees(
            history,
            reads[agreeing_reads(history, reads)],
        ),
    decreases reads.len(),
{
    if reads.len() == 0 {
    } else if !read_agrees(history, reads.first()) {
    } else {
        lemma_agreeing_reads_spec(history, reads.drop_first());
        let k = agreeing_reads(history, reads);
        assert forall|j: int| 0 <= j < k implies read_agrees(history, #[trigger] reads[j]) by {
            if j > 0 {
                assert(reads.drop_first()[j - 1] == reads[j]);
            }
        }
        if k < reads.len() {
            assert(reads.drop_first()[k - 1] == reads[k]);
        }
    }
}

/// The serialized proofs recorded for the first `n` read pairs.
pub open spec fn commit_read_hints(
    history: Seq<Seq<(Seq<u8>, Option<Seq<u8>>)>>,
    reads: Seq<(Seq<u8>, Option<Seq<u8>>)>,
    n: int,
) -> Seq<Seq<u8>> {
    Seq::new(n as nat, |i: int| jmt_proof_of(history, sha256_of(reads[i].0)))
}

/// The write batch a cache log's writes stage: each key hashed, values as
/// they are, in first-touch order.
pub open spec fn writes_batch(writes: Seq<(Seq<u8>, Option<Seq<u8>>)>) -> Seq<
    (Seq<u8>, Option<Seq<u8>>),
> {
    Seq::new(writes.len(), |i: int| (sha256_of(writes[i].0), writes[i].1))
}

/// The preimage table after persisting every write pair's key, in order.
pub open spec fn preimages_after(
    m: Map<Seq<u8>, Seq<u8>>,
    writes: Seq<(Seq<u8>, Option<Seq<u8>>)>,
) -> Map<Seq<u8>, Seq<u8>>
    decreases writes.len(),
{
    if writes.len() == 0 {
        m
    } else {
        preimages_after(m, writes.drop_last()).insert(
            sha256_of(writes.last().0),
            writes.last().0,
        )
    }
}

/// The full hint sequence a commit records: the latest version, one proof per
/// validated read, and — on success — the new root.
pub open spec fn commit_hints(
    history: Seq<Seq<(Seq<u8>, Option<Seq<u8>>)>>,
    reads: Seq<(Seq<u8>, Option<Seq<u8>>)>,
    writes: Seq<(Seq<u8>, Option<Seq<u8>>)>,
) -> Seq<Seq<u8>> {
    let k = agreeing_reads(history, reads);
    if k == reads.len() {
        seq![u64_le_bytes((history.len() - 1) as u64)] + commit_read_hints(history, reads, k)
            + seq![jmt_root_of(history.push(writes_batch(writes)))]
    } else {
        seq![u64_le_bytes((history.len() - 1) as u64)] + commit_read_hints(history, reads, k + 1)
    }
}

/// The storage contract's reference implementation, backed by the versioned
/// Merkle tree plus the key-preimage index.
pub struct ProverStorage {
    db: StateDb,
}

impl ProverStorage {
    pub closed spec fn history(&self) -> Seq<Seq<(Seq<u8>, Option<Seq<u8>>)>> {
        self.db.history()
    }

    pub closed spec fn preimages(&self) -> Map<Seq<u8>, Seq<u8>> {
        self.db.preimages()
    }

    pub closed spec fn spec_roots(&self) -> Seq<Seq<u8>> {
        self.db.spec_roots()
    }

    pub closed spec fn spec_next_version(&self) -> u64 {
        self.db.spec_next_version()
    }

    pub closed spec fn wf(&self) -> bool {
        self.db.wf()
    }

    /// A fresh engine over an empty store: version 0 holds the empty tree.
    pub fn new() -> (r: ProverStorage)
        ensures
            r.wf(),
            r.history() =~= seq![Seq::<(Seq<u8>, Option<Seq<u8>>)>::empty()],
            r.preimages() == Map::<Seq<u8>, Seq<u8>>::empty(),
            r.spec_next_version() == 1,
    {
        ProverStorage { db: StateDb::new() }
    }

    /// The next version a commit will create.
    pub fn next_version(&self) -> (r: u64)
        ensures
            r == self.spec_next_version(),
    {
        self.db.get_next_version()
    }

    /// The latest committed root.
    pub fn current_root(&self) -> (r: [u8; 32])
        requires
            self.wf(),
        ensures
            r@ == jmt_root_of(self.history()),
    {
        self.db.current_root()
    }

    /// The root of an already committed version, or `None`.
    pub fn root_at(&self, version: u64) -> (r: Option<[u8; 32]>)
        requires
            self.wf(),
        ensures
            version < self.history().len() ==> (r matches Some(root) && root@ == jmt_root_of(
                self.history().take(version + 1),
            )),
            version >= self.history().len() ==> r is None,
    {
        self.db.root_at(version)
    }

    /// Authenticates every read in the cache log against the tree at the
    /// latest committed version, stages every write keyed by its hash
    /// (persisting each key's preimage), applies the batch as the next
    /// version, and returns the new root. A read that disagrees with the
    /// tree aborts the commit with nothing applied. The hints recorded — the
    /// latest version first, one proof per read, and the new root last — are
    /// exactly what a replaying `validate_and_commit` consumes.
    #[verifier::loop_isolation(false)]
    pub fn validate_and_commit(&mut self, cache_log: CacheLog, witness: &mut ArrayWitness) -> (r:
        Result<[u8; 32], CommitError>)
        requires
            old(self).wf(),
            cache_log.wf(),
            old(self).spec_next_version() < u64::MAX,
        ensures
            final(self).wf(),
            final(witness).consumed() == old(witness).consumed(),
            final(witness).hints() =~= old(witness).hints() + commit_hints(
                old(self).history(),
                reads_model(cache_log@),
                writes_model(cache_log@),
            ),
            ({
                let h = old(self).history();
                let reads = reads_model(cache_log@);
                let writes = writes_model(cache_log@);
                if agreeing_reads(h, reads) == reads.len() {
                    let new_history = h.push(writes_batch(writes));
                    &&& (r matches Ok(root) && root@ == jmt_root_of(new_history))
                    &&& final(self).history() == new_history
                    &&& final(self).spec_next_version() == old(self).spec_next_version() + 1
                    &&& final(self).spec_roots() =~= old(self).spec_roots().push(
                        jmt_root_of(new_history),
                    )
                    &&& final(self).preimages() == preimages_after(old(self).preimages(), writes)
                    &&& forall|j: int|
                        0 <= j < reads.len() ==> proof_accepts(
                            jmt_proof_of(h, sha256_of((#[trigger] reads[j]).0)),
                            jmt_root_of(h),
                            sha256_of(reads[j].0),
                            reads[j].1,
                        )
                } else {
                    &&& (r matches Err(e) && e == CommitError::InconsistentRead)
                    &&& final(self).history() == h
                    &&& final(self).spec_next_version() == old(self).spec_next_version()
                    &&& final(self).spec_roots() == old(self).spec_roots()
                    &&& final(self).preimages() == old(self).preimages()
                }
            }),
    {
        let ghost h = old(self).history();
        let ghost reads_m = reads_model(cache_log@);
        let ghost writes_m = writes_model(cache_log@);
        proof {
            lemma_agreeing_reads_spec(h, reads_m);
            assert(h.take(h.len() as int) =~= h);
        }
        let latest_version = self.db.get_next_version() - 1;
        witness.add_hint(encode_u64(latest_version));
        let (reads, writes) = cache_log.split();
        let n = reads.len();
        let mut i: usize = 0;
        while i < n
            invariant
                self == old(self),
                self.wf(),
                self.spec_next_version() < u64::MAX,
                h == self.history(),
                latest_version == self.spec_next_version() - 1,
                n == reads@.len(),
                i <= n,
                pairs_model(reads@) =~= reads_m,
                witness.hints() =~= old(witness).hints() + seq![u64_le_bytes(latest_version)]
                    + commit_read_hints(h, reads_m, i as int),
                witness.consumed() == old(witness).consumed(),
                forall|j: int| 0 <= j < i ==> read_agrees(h, #[trigger] reads_m[j]),
                forall|x: int|
                    0 <= x < i ==> proof_accepts(
                        jmt_proof_of(h, sha256_of((#[trigger] reads_m[x]).0)),
                        jmt_root_of(h),
                        sha256_of(reads_m[x].0),
                        reads_m[x].1,
                    ),
            decreases n - i,
        {
            let key_hash = sha256_hash(&reads[i].0.key);
            let (value, proof_hint) = self.db.get_with_proof(&key_hash, latest_version);
            proof {
                assert(h.take(latest_version + 1) =~= h);
                assert(reads_m[i as int] == (reads@[i as int].0@, crate::cache::opt_value_model(
                    reads@[i as int].1,
                )));
            }
            witness.add_hint(proof_hint);
            proof {
                assert(witness.hints() =~= old(witness).hints() + seq![
                    u64_le_bytes(latest_version),
                ] + commit_read_hints(h, reads_m, i + 1));
            }
            let agrees = match (&value, &reads[i].1) {
                (None, None) => true,
                (Some(a), Some(b)) => vec_eq(a, &b.value),
                _ => false,
            };
            if !agrees {
                proof {
                    lemma_agreeing_reads_spec(h, reads_m);
                    assert(!read_agrees(h, reads_m[i as int]));
                    let k = agreeing_reads(h, reads_m);
                    if k < i as int {
                        assert(read_agrees(h, reads_m[k]));
                        assert(false);
                    }
                    if k > i as int {
                        assert(read_agrees(h, reads_m[i as int]));
                        assert(false);
                    }
                }
                return Err(CommitError::InconsistentRead);
            }
            proof {
                assert(crate::db::opt_vec_model(value) == reads_m[i as int].1);
                assert(read_agrees(h, reads_m[i as int]));
                assert(proof_accepts(
                    jmt_proof_of(h, sha256_of(reads_m[i as int].0)),
                    jmt_root_of(h),
                    sha256_of(reads_m[i as int].0),
                    reads_m[i as int].1,
                ));
            }
            i = i + 1;
        }
        proof {
            lemma_agreeing_reads_spec(h, reads_m);
            let k = agreeing_reads(h, reads_m);
            if k < reads_m.len() {
                assert(read_agrees(h, reads_m[k]));
                assert(false);
            }
        }
        let mut batch: Vec<([u8; 32], Option<Vec<u8>>)> = Vec::new();
        let wn = writes.len();
        let mut j: usize = 0;
        while j < wn
            invariant
                self.wf(),
                self.spec_next_version() < u64::MAX,
                h == self.history(),
                self.spec_roots() == old(self).spec_roots(),
                self.spec_next_version() == old(self).spec_next_version(),
                wn == writes@.len(),
                j <= wn,
                pairs_model(writes@) =~= writes_m,
                self.preimages() == preimages_after(old(self).preimages(), writes_m.take(j as int)),
                batch_model(batch@) =~= writes_batch(writes_m.take(j as int)),
                witness.hints() =~= old(witness).hints() + seq![u64_le_bytes(latest_version)]
                    + commit_read_hints(h, reads_m, reads_m.len() as int),
                witness.consumed() == old(witness).consumed(),
            decreases wn - j,
        {
            let key_hash = sha256_hash(&writes[j].0.key);
            self.db.put_preimage(&key_hash, &writes[j].0.key);
            let value: Option<Vec<u8>> = match crate::cache::duplicate_opt_value(&writes[j].1) {
                Some(cv) => Some(cv.value),
                None => None,
            };
            proof {
                assert(writes_m[j as int] == (writes@[j as int].0@, crate::cache::opt_value_model(
                    writes@[j as int].1,
                )));
                assert(crate::db::opt_vec_model(value) == writes_m[j as int].1);
            }
            batch.push((key_hash, value));
            proof {
                assert(writes_m.take(j + 1).drop_last() =~= writes_m.take(j as int));
                assert(writes_m.take(j + 1).last() == writes_m[j as int]);
                assert forall|x: int|
                    0 <= x < j + 1 implies batch_model(batch@)[x] == writes_batch(
                    writes_m.take(j + 1),
                )[x] by {
                    if x < j {
                        assert(batch_model(batch@)[x] == writes_batch(writes_m.take(j as int))[x]);
                    }
                }
                assert(batch_model(batch@) =~= writes_batch(writes_m.take(j + 1)));
            }
            j = j + 1;
        }
        proof {
            assert(writes_m.take(wn as int) =~= writes_m);
        }
        let root = self.db.commit_batch(&batch);
        witness.add_hint(slice_to_vec(root.as_slice()));
        proof {
            assert(batch_model(batch@) =~= writes_batch(writes_m));
            assert(final(witness).hints() =~= old(witness).hints() + commit_hints(
                h,
                reads_m,
                writes_m,
            ));
        }
        Ok(root)
    }
}

impl Storage for ProverStorage {
    /// Reads need only a well-formed engine.
    open spec fn get_pre(&self, key: Seq<u8>, hints: Seq<Seq<u8>>, consumed: int) -> bool {
        self.wf()
    }

    /// A read returns the latest committed value for the hashed key.
    open spec fn get_model(&self, key: Seq<u8>, hints: Seq<Seq<u8>>, consumed: int) -> Option<
        Seq<u8>,
    > {
        latest_value(self.history(), sha256_of(key))
    }

    /// A read appends the returned value as one hint.
    open spec fn get_hints_post(&self, key: Seq<u8>, hints: Seq<Seq<u8>>, consumed: int) -> Seq<
        Seq<u8>,
    > {
        hints.push(opt_bytes_hint(latest_value(self.history(), sha256_of(key))))
    }

    open spec fn get_consumed_post(&self, key: Seq<u8>, hints: Seq<Seq<u8>>, consumed: int) -> int {
        consumed
    }

    /// Commits need a well-formed engine with a version to spare.
    open spec fn commit_pre(&self) -> bool {
        self.wf() && self.spec_next_version() < u64::MAX
    }

    fn get(&self, key: &StorageKey, witness: &mut ArrayWitness) -> (r: Option<StorageValue>) {
        let value = self.db.read_value(key.as_bytes());
        witness.add_hint(encode_opt_bytes(&value));
        match value {
            Some(v) => Some(StorageValue::new_from_bytes(v)),
            None => None,
        }
    }

    fn validate_and_commit(&mut self, cache_log: CacheLog, witness: &mut ArrayWitness) -> (r:
        Result<[u8; 32], CommitError>) {
        ProverStorage::validate_and_commit(self, cache_log, witness)
    }
}

} // verus!
