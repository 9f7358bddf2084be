//! The witness-driven storage for data-poor (replay) execution.
//!
//! A replaying execution has no database: `get` answers from the next
//! recorded hint, and `validate_and_commit` re-performs the recorded
//! validation — checking every cached read against the recorded proof and the
//! known previous root — and returns the recorded new root. Any hint that is
//! missing, out of order, or malformed is a deterministic failure.

use vstd::prelude::*;
use crate::cache::{CacheLog, pairs_model, reads_model};
use crate::codec::{decode_opt_bytes, decode_u64, spec_decode_opt_bytes, spec_decode_u64};
use crate::db::{proof_accepts, sha256_hash, sha256_of, verify_proof};
use crate::storage::{CommitError, Storage, StorageKey, StorageValue};
use crate::witness::ArrayWitness;

verus! {

/// The outcome of replaying the read-validation loop from hint cursor `c`:
/// the cursor after success, or the error and the cursor where it struck.
pub open spec fn zk_reads_outcome(
    root: Seq<u8>,
    reads: Seq<(Seq<u8>, Option<Seq<u8>>)>,
    hints: Seq<Seq<u8>>,
    c: int,
) -> Result<int, (CommitError, int)>
    decreases reads.len(),
{
    if reads.len() == 0 {
        Ok(c)
    } else if c >= hints.len() {
        Err((CommitError::ExhaustedWitness, c))
    } else if !proof_accepts(hints[c], root, sha256_of(reads.first().0), reads.first().1) {
        Err((CommitError::InconsistentRead, c + 1))
    } else {
        zk_reads_outcome(root, reads.drop_first(), hints, c + 1)
    }
}

/// The outcome of a whole replayed commit from hint cursor `c`: the recorded
/// root and the cursor after it, or the error and the cursor where it struck.
pub open spec fn zk_commit_outcome(
    root: Seq<u8>,
    reads: Seq<(Seq<u8>, Option<Seq<u8>>)>,
    hints: Seq<Seq<u8>>,
    c: int,
) -> (Result<Seq<u8>, CommitError>, int) {
    if c >= hints.len() {
        (Err(CommitError::ExhaustedWitness), c)
    } else if spec_decode_u64(hints[c]) is None {
        (Err(CommitError::MalformedHint), c + 1)
    } else {
        match zk_reads_outcome(root, reads, hints, c + 1) {
            Err((e, c2)) => (Err(e), c2),
            Ok(c2) => if c2 >= hints.len() {
                (Err(CommitError::ExhaustedWitness), c2)
            } else if hints[c2].len() != 32 {
                (Err(CommitError::MalformedHint), c2 + 1)
            } else {
                (Ok(hints[c2]), c2 + 1)
            },
        }
    }
}

/// Storage for an execution that holds only the previous root and a recorded
/// witness.
pub struct ZkStorage {
    prev_root: [u8; 32],
}

impl ZkStorage {
    /// The root the replay validates reads against.
    pub closed spec fn spec_root(&self) -> Seq<u8> {
        self.prev_root@
    }

    /// A replay storage trusting `prev_root` as the committed root.
    pub fn new(prev_root: [u8; 32]) -> (r: ZkStorage)
        ensures
            r.spec_root() == prev_root@,
    {
        ZkStorage { prev_root }
    }

    /// Replays a commit from the witness: consumes the recorded latest
    /// version, checks each cached read against its recorded proof and the
    /// previous root, and returns the recorded new root. Fails exactly where
    /// the recording and the cache log diverge.
    #[verifier::loop_isolation(false)]
    pub fn validate_and_commit(&mut self, cache_log: CacheLog, witness: &mut ArrayWitness) -> (r:
        Result<[u8; 32], CommitError>)
        requires
            cache_log.wf(),
        ensures
            final(self).spec_root() == old(self).spec_root(),
            final(witness).hints() == old(witness).hints(),
            ({
                let outcome = zk_commit_outcome(
                    old(self).spec_root(),
                    reads_model(cache_log@),
                    old(witness).hints(),
                    old(witness).consumed(),
                );
                &&& final(witness).consumed() == outcome.1
                &&& match r {
                    Ok(root) => outcome.0 matches Ok(b) && root@ == b,
                    Err(e) => outcome.0 matches Err(e2) && e == e2,
                }
            }),
    {
        let ghost root_m = self.spec_root();
        let ghost reads_m = reads_model(cache_log@);
        let ghost hints = witness.hints();
        let version_hint = match witness.get_hint() {
            Ok(hint) => hint,
            Err(_) => {
                return Err(CommitError::ExhaustedWitness);
            },
        };
        if decode_u64(version_hint.as_slice()).is_none() {
            return Err(CommitError::MalformedHint);
        }
        let (reads, writes) = cache_log.split();
        let _ = writes;
        proof {
            assert(reads_m.skip(0) =~= reads_m);
        }
        let n = reads.len();
        let mut i: usize = 0;
        while i < n
            invariant
                i <= n,
                n == reads@.len(),
                pairs_model(reads@) =~= reads_m,
                witness.hints() == hints,
                witness.consumed() == old(witness).consumed() + 1 + i,
                zk_reads_outcome(root_m, reads_m, hints, old(witness).consumed() + 1)
                    == zk_reads_outcome(root_m, reads_m.skip(i as int), hints, witness.consumed()),
                self == old(self),
            decreases n - i,
        {
            proof {
                assert(reads_m.skip(i as int).first() == reads_m[i as int]);
                assert(reads_m.skip(i as int).drop_first() =~= reads_m.skip(i + 1));
                assert(reads_m[i as int] == (reads@[i as int].0@, crate::cache::opt_value_model(
                    reads@[i as int].1,
                )));
            }
            let proof_hint = match witness.get_hint() {
                Ok(hint) => hint,
                Err(_) => {
                    return Err(CommitError::ExhaustedWitness);
                },
            };
            let key_hash = sha256_hash(&reads[i].0.key);
            let claimed: Option<Vec<u8>> = match crate::cache::duplicate_opt_value(&reads[i].1) {
                Some(cv) => Some(cv.value),
                None => None,
            };
            proof {
                assert(crate::db::opt_vec_model(claimed) == reads_m[i as int].1);
            }
            if !verify_proof(&proof_hint, &self.prev_root, &key_hash, &claimed) {
                return Err(CommitError::InconsistentRead);
            }
            i = i + 1;
        }
        proof {
            assert(reads_m.skip(n as int).len() == 0);
        }
        let root_hint = match witness.get_hint() {
            Ok(hint) => hint,
            Err(_) => {
                return Err(CommitError::ExhaustedWitness);
            },
        };
        if root_hint.len() != 32 {
            return Err(CommitError::MalformedHint);
        }
        let mut root = [0u8; 32];
        let mut k: usize = 0;
        while k < 32
            invariant
                k <= 32,
                root_hint@.len() == 32,
                forall|x: int| 0 <= x < k ==> root@[x] == root_hint@[x],
            decreases 32 - k,
        {
            root[k] = root_hint[k];
            k = k + 1;
        }
        proof {
            assert(root@ =~= root_hint@);
        }
        Ok(root)
    }
}

impl Storage for ZkStorage {
    /// A read needs one more decodable value hint.
    open spec fn get_pre(&self, key: Seq<u8>, hints: Seq<Seq<u8>>, consumed: int) -> bool {
        &&& 0 <= consumed < hints.len()
        &&& spec_decode_opt_bytes(hints[consumed]) is Some
    }

    /// A read returns whatever the next recorded hint holds.
    open spec fn get_model(&self, key: Seq<u8>, hints: Seq<Seq<u8>>, consumed: int) -> Option<
        Seq<u8>,
    > {
        match spec_decode_opt_bytes(hints[consumed]) {
            Some(v) => v,
            None => None,
        }
    }

    /// A read leaves the recorded hints as they are.
    open spec fn get_hints_post(&self, key: Seq<u8>, hints: Seq<Seq<u8>>, consumed: int) -> Seq<
        Seq<u8>,
    > {
        hints
    }

    /// A read consumes one hint.
    open spec fn get_consumed_post(&self, key: Seq<u8>, hints: Seq<Seq<u8>>, consumed: int) -> int {
        consumed + 1
    }

    fn get(&self, key: &StorageKey, witness: &mut ArrayWitness) -> (r: Option<StorageValue>) {
        let hint = match witness.get_hint() {
            Ok(hint) => hint,
            Err(_) => {
                proof {
                    assert(false);
                }
                return None;
            },
        };
        match decode_opt_bytes(&hint) {
            Some(Some(value)) => Some(StorageValue::new_from_bytes(value)),
            Some(None) => None,
            None => {
                proof {
                    assert(false);
                }
                None
            },
        }
    }

    /// Replay never runs out of versions; any witness is admissible.
    open spec fn commit_pre(&self) -> bool {
        true
    }

    fn validate_and_commit(&mut self, cache_log: CacheLog, witness: &mut ArrayWitness) -> (r:
        Result<[u8; 32], CommitError>) {
        ZkStorage::validate_and_commit(self, cache_log, witness)
    }
}

} // verus!
