//! The laws the storage layer obeys, stated and proved once for all inputs.
//!
//! Each law is a public proof function (or, for execution sequences, an
//! executable interpreter whose contract pins the whole run); the scenarios
//! backing them concretely live in the test suite.

use vstd::prelude::*;
use crate::cache::{has_key, index_of, log_wf, visible, CacheLogModel};
use crate::codec::{lemma_opt_bytes_round_trip, lemma_u64_round_trip, opt_bytes_hint, spec_decode_u64, u64_le_bytes};
use crate::db::{jmt_proof_of, jmt_root_of, proof_accepts, sha256_of};
use crate::prover::{agreeing_reads, commit_hints, commit_read_hints, writes_batch, ProverStorage};
use crate::storage::{Storage, StorageKey, StorageValue};
use crate::working_set::{
    cache_after_write, ws_cache_after_get, ws_consumed_after_get, ws_hints_after_get,
    ws_read_result, WorkingSet,
};
use crate::zk::{zk_commit_outcome, zk_reads_outcome, ZkStorage};

verus! {

/// Read-your-writes: after a write of `value` under `key`, a read of `key`
/// sees exactly `value` — whatever was in the cache before.
pub proof fn lemma_read_your_writes(cache: CacheLogModel, key: Seq<u8>, value: Option<Seq<u8>>)
    requires
        log_wf(cache),
    ensures
        visible(cache_after_write(cache, key, value), key) == Some(value),
{
    let after = cache_after_write(cache, key, value);
    if has_key(cache, key) {
        let i = index_of(cache, key);
        assert(after[i].0 == key);
        assert(has_key(after, key));
        let j = index_of(after, key);
        assert(after[j].0 == key);
        if i != j {
            assert(cache[j].0 == key);
            assert(false);
        }
    } else {
        let i = cache.len() as int;
        assert(after[i].0 == key);
        assert(has_key(after, key));
        let j = index_of(after, key);
        assert(after[j].0 == key);
        if j != i {
            assert(cache[j].0 == key);
            assert(has_key(cache, key));
            assert(false);
        }
    }
}

/// Cache stability: a read caches its result, so a second read of the same
/// key returns the same value without touching the backing store again.
pub proof fn lemma_read_caches<S: Storage>(
    storage: S,
    cache: CacheLogModel,
    hints: Seq<Seq<u8>>,
    consumed: int,
    key: Seq<u8>,
)
    requires
        log_wf(cache),
    ensures
        visible(ws_cache_after_get(storage, cache, hints, consumed, key), key) == Some(
            ws_read_result(storage, cache, hints, consumed, key),
        ),
        log_wf(ws_cache_after_get(storage, cache, hints, consumed, key)),
{
    let after = ws_cache_after_get(storage, cache, hints, consumed, key);
    match visible(cache, key) {
        Some(v) => {},
        None => {
            if has_key(cache, key) {
                let e = cache[index_of(cache, key)].1;
                assert(e.first_read is Some || e.last_write is Some);
                assert(false);
            }
            let i = cache.len() as int;
            assert(after[i].0 == key);
            assert(has_key(after, key));
            let j = index_of(after, key);
            assert(after[j].0 == key);
            if j != i {
                assert(cache[j].0 == key);
                assert(has_key(cache, key));
                assert(false);
            }
            assert forall|a: int, b: int|
                0 <= a < after.len() && 0 <= b < after.len() && a != b implies after[a].0
                != after[b].0 by {
                if a < cache.len() && b < cache.len() {
                } else if a < cache.len() {
                    if cache[a].0 == key {
                        assert(has_key(cache, key));
                    }
                } else if b < cache.len() {
                    if cache[b].0 == key {
                        assert(has_key(cache, key));
                    }
                }
            }
            assert forall|a: int| 0 <= a < after.len() implies (#[trigger] after[a].1).first_read
                is Some || after[a].1.last_write is Some by {
                if a < cache.len() {
                    assert(after[a].1 == cache[a].1);
                }
            }
        },
    }
}

/// One operation against a working set: what application code can do before
/// freezing.
pub enum Operation {
    Put(StorageKey, StorageValue),
    Remove(StorageKey),
    Get(StorageKey),
}

/// Whether one operation's backing-store precondition holds in this state.
pub open spec fn op_admissible<S: Storage>(
    storage: S,
    cache: CacheLogModel,
    hints: Seq<Seq<u8>>,
    consumed: int,
    op: Operation,
) -> bool {
    match op {
        Operation::Put(k, v) => true,
        Operation::Remove(k) => visible(cache, k@) is None ==> storage.get_pre(
            k@,
            hints,
            consumed,
        ),
        Operation::Get(k) => visible(cache, k@) is None ==> storage.get_pre(k@, hints, consumed),
    }
}

/// The (cache, hints, cursor) state after one operation: a function of the
/// state and the operation alone.
pub open spec fn op_state_after<S: Storage>(
    storage: S,
    cache: CacheLogModel,
    hints: Seq<Seq<u8>>,
    consumed: int,
    op: Operation,
) -> (CacheLogModel, Seq<Seq<u8>>, int) {
    match op {
        Operation::Put(k, v) => (cache_after_write(cache, k@, Some(v@)), hints, consumed),
        Operation::Remove(k) => (
            cache_after_write(ws_cache_after_get(storage, cache, hints, consumed, k@), k@, None),
            ws_hints_after_get(storage, cache, hints, consumed, k@),
            ws_consumed_after_get(storage, cache, hints, consumed, k@),
        ),
        Operation::Get(k) => (
            ws_cache_after_get(storage, cache, hints, consumed, k@),
            ws_hints_after_get(storage, cache, hints, consumed, k@),
            ws_consumed_after_get(storage, cache, hints, consumed, k@),
        ),
    }
}

/// Whether a whole operation sequence is admissible from this state.
pub open spec fn ops_admissible<S: Storage>(
    storage: S,
    cache: CacheLogModel,
    hints: Seq<Seq<u8>>,
    consumed: int,
    ops: Seq<Operation>,
) -> bool
    decreases ops.len(),
{
    ops.len() == 0 || {
        &&& op_admissible(storage, cache, hints, consumed, ops.first())
        &&& {
            let next = op_state_after(storage, cache, hints, consumed, ops.first());
            ops_admissible(storage, next.0, next.1, next.2, ops.drop_first())
        }
    }
}

/// The state after a whole operation sequence: a fold of `op_state_after`,
/// hence a function of the starting state and the operations alone. That a
/// working set execution lands exactly here is the contract of
/// `apply_operations`; that two identical runs land in the same place —
/// identical cache log contents and identical witness hints, byte for byte —
/// is `lemma_same_ops_same_freeze`.
pub open spec fn ops_state_after<S: Storage>(
    storage: S,
    cache: CacheLogModel,
    hints: Seq<Seq<u8>>,
    consumed: int,
    ops: Seq<Operation>,
) -> (CacheLogModel, Seq<Seq<u8>>, int)
    decreases ops.len(),
{
    if ops.len() == 0 {
        (cache, hints, consumed)
    } else {
        let next = op_state_after(storage, cache, hints, consumed, ops.first());
        ops_state_after(storage, next.0, next.1, next.2, ops.drop_first())
    }
}

/// Runs a sequence of operations against a working set; the final cache and
/// witness are exactly the spec-level fold of the sequence.
#[verifier::loop_isolation(false)]
pub fn apply_operations<S: Storage>(ws: &mut WorkingSet<S>, ops: &Vec<Operation>)
    requires
        old(ws).wf(),
        ops_admissible(
            old(ws).spec_storage(),
            old(ws).cache_model(),
            old(ws).hints(),
            old(ws).consumed(),
            ops@,
        ),
    ensures
        final(ws).wf(),
        final(ws).spec_storage() == old(ws).spec_storage(),
        ({
            let end = ops_state_after(
                old(ws).spec_storage(),
                old(ws).cache_model(),
                old(ws).hints(),
                old(ws).consumed(),
                ops@,
            );
            &&& final(ws).cache_model() == end.0
            &&& final(ws).hints() == end.1
            &&& final(ws).consumed() == end.2
        }),
{
    let n = ops.len();
    let ghost storage = old(ws).spec_storage();
    let ghost end = ops_state_after(
        storage,
        old(ws).cache_model(),
        old(ws).hints(),
        old(ws).consumed(),
        ops@,
    );
    proof {
        assert(ops@.skip(0) =~= ops@);
    }
    let mut i: usize = 0;
    while i < n
        invariant
            i <= n,
            n == ops@.len(),
            ws.wf(),
            ws.spec_storage() == storage,
            ops_admissible(storage, ws.cache_model(), ws.hints(), ws.consumed(), ops@.skip(i as int)),
            ops_state_after(storage, ws.cache_model(), ws.hints(), ws.consumed(), ops@.skip(i as int))
                == end,
        decreases n - i,
    {
        proof {
            assert(ops@.skip(i as int).first() == ops@[i as int]);
            assert(ops@.skip(i as int).drop_first() =~= ops@.skip(i + 1));
        }
        match &ops[i] {
            Operation::Put(k, v) => {
                ws.set(k.duplicate(), v.duplicate());
            },
            Operation::Remove(k) => {
                let _ = ws.remove(k.duplicate());
            },
            Operation::Get(k) => {
                let _ = ws.get(k.duplicate());
            },
        }
        i = i + 1;
    }
    proof {
        assert(ops@.skip(n as int).len() == 0);
    }
}

/// Idempotent construction: running the same operation sequence twice from
/// equal starting states — in particular, twice from an empty working set
/// over equal backends — yields the same cache log contents and the same
/// witness hint sequence. The force of the law is that `ops_state_after` is
/// a function of the starting state and the operations alone, and that
/// `apply_operations` provably lands on it.
pub proof fn lemma_same_ops_same_freeze<S: Storage>(
    s1: S,
    s2: S,
    cache: CacheLogModel,
    hints: Seq<Seq<u8>>,
    consumed: int,
    ops: Seq<Operation>,
)
    requires
        s1 == s2,
    ensures
        ops_state_after(s1, cache, hints, consumed, ops) == ops_state_after(
            s2,
            cache,
            hints,
            consumed,
            ops,
        ),
{
}

/// Commit determinism: the root a commit returns is a function of the
/// starting history and the cache log's writes alone — two commits from
/// equal states with equal cache logs yield equal roots, and equal witness
/// hint sequences.
pub proof fn lemma_commit_deterministic(
    h1: Seq<Seq<(Seq<u8>, Option<Seq<u8>>)>>,
    h2: Seq<Seq<(Seq<u8>, Option<Seq<u8>>)>>,
    reads: Seq<(Seq<u8>, Option<Seq<u8>>)>,
    writes: Seq<(Seq<u8>, Option<Seq<u8>>)>,
)
    requires
        h1 == h2,
    ensures
        jmt_root_of(h1.push(writes_batch(writes))) == jmt_root_of(h2.push(writes_batch(writes))),
        commit_hints(h1, reads, writes) == commit_hints(h2, reads, writes),
{
}

/// Version monotonicity and root stability: a commit makes the history one
/// longer, and the root of every already committed version is untouched.
pub proof fn lemma_version_monotonic_roots_stable(
    h: Seq<Seq<(Seq<u8>, Option<Seq<u8>>)>>,
    batch: Seq<(Seq<u8>, Option<Seq<u8>>)>,
)
    ensures
        h.push(batch).len() == h.len() + 1,
        forall|v: int|
            0 <= v < h.len() ==> jmt_root_of(#[trigger] h.push(batch).take(v + 1)) == jmt_root_of(
                h.take(v + 1),
            ),
{
    assert forall|v: int| 0 <= v < h.len() implies jmt_root_of(#[trigger] h.push(batch).take(v + 1))
        == jmt_root_of(h.take(v + 1)) by {
        assert(h.push(batch).take(v + 1) =~= h.take(v + 1));
    }
}

/// Dual-mode reads agree: replaying the value hint a native read records
/// yields exactly the value the native read returned, whatever the key's
/// committed state.
pub proof fn lemma_dual_mode_reads_agree(
    prover: ProverStorage,
    zk: ZkStorage,
    key: Seq<u8>,
    hints: Seq<Seq<u8>>,
    consumed: int,
)
    requires
        0 <= consumed < hints.len(),
        hints[consumed] == opt_bytes_hint(prover.get_model(key, hints, consumed)),
    ensures
        zk.get_pre(key, hints, consumed),
        zk.get_model(key, hints, consumed) == prover.get_model(key, hints, consumed),
{
    lemma_opt_bytes_round_trip(prover.get_model(key, hints, consumed));
}

proof fn lemma_replay_reads_accept(
    h: Seq<Seq<(Seq<u8>, Option<Seq<u8>>)>>,
    reads: Seq<(Seq<u8>, Option<Seq<u8>>)>,
    hints: Seq<Seq<u8>>,
    i: int,
)
    requires
        0 <= i <= reads.len(),
        hints.len() == reads.len() + 2,
        forall|j: int|
            0 <= j < reads.len() ==> hints[1 + j] == jmt_proof_of(
                h,
                sha256_of((#[trigger] reads[j]).0),
            ),
        forall|j: int|
            0 <= j < reads.len() ==> proof_accepts(
                jmt_proof_of(h, sha256_of((#[trigger] reads[j]).0)),
                jmt_root_of(h),
                sha256_of(reads[j].0),
                reads[j].1,
            ),
    ensures
        zk_reads_outcome(jmt_root_of(h), reads.skip(i), hints, 1 + i) == Ok::<
            int,
            (crate::storage::CommitError, int),
        >(1 + reads.len() as int),
    decreases reads.len() - i,
{
    if i == reads.len() {
        assert(reads.skip(i).len() == 0);
    } else {
        assert(reads.skip(i).first() == reads[i]);
        assert(reads.skip(i).drop_first() =~= reads.skip(i + 1));
        assert(proof_accepts(hints[1 + i], jmt_root_of(h), sha256_of(reads[i].0), reads[i].1));
        lemma_replay_reads_accept(h, reads, hints, i + 1);
    }
}

/// Witness round trip: replaying the hints recorded by a successful commit,
/// against the same prior root and the identical cache log, raises no
/// consistency failure and returns the identical new root, consuming every
/// hint. The premises are exactly what `validate_and_commit` ensures of a
/// successful recording.
pub proof fn lemma_witness_round_trip(
    h: Seq<Seq<(Seq<u8>, Option<Seq<u8>>)>>,
    reads: Seq<(Seq<u8>, Option<Seq<u8>>)>,
    writes: Seq<(Seq<u8>, Option<Seq<u8>>)>,
)
    requires
        h.len() >= 1,
        agreeing_reads(h, reads) == reads.len(),
        forall|j: int|
            0 <= j < reads.len() ==> proof_accepts(
                jmt_proof_of(h, sha256_of((#[trigger] reads[j]).0)),
                jmt_root_of(h),
                sha256_of(reads[j].0),
                reads[j].1,
            ),
        jmt_root_of(h.push(writes_batch(writes))).len() == 32,
    ensures
        ({
            let hints = commit_hints(h, reads, writes);
            let outcome = zk_commit_outcome(jmt_root_of(h), reads, hints, 0);
            &&& outcome.0 == Ok::<Seq<u8>, crate::storage::CommitError>(
                jmt_root_of(h.push(writes_batch(writes))),
            )
            &&& outcome.1 == hints.len()
        }),
{
    let hints = commit_hints(h, reads, writes);
    let n = reads.len() as int;
    assert(hints.len() == n + 2);
    assert(hints[0] == u64_le_bytes((h.len() - 1) as u64));
    lemma_u64_round_trip((h.len() - 1) as u64);
    assert(spec_decode_u64(hints[0]) is Some);
    assert forall|j: int| 0 <= j < n implies hints[1 + j] == jmt_proof_of(
        h,
        sha256_of((#[trigger] reads[j]).0),
    ) by {
        assert(hints[1 + j] == commit_read_hints(h, reads, n)[j]);
    }
    assert(reads.skip(0) =~= reads);
    lemma_replay_reads_accept(h, reads, hints, 0);
    assert(hints[n + 1] == jmt_root_of(h.push(writes_batch(writes))));
}

} // verus!
