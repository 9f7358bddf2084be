use sov_state::cache::{CacheKey, CacheLog, CacheValue};
use sov_state::laws::{apply_operations, Operation};
use sov_state::prover::ProverStorage;
use sov_state::storage::{CommitError, Storage, StorageKey, StorageValue};
use sov_state::witness::ArrayWitness;
use sov_state::working_set::WorkingSet;
use sov_state::zk::ZkStorage;

fn key(s: &str) -> StorageKey {
    StorageKey::new_from_bytes(s.as_bytes().to_vec())
}

fn value(s: &str) -> StorageValue {
    StorageValue::new_from_bytes(s.as_bytes().to_vec())
}

#[test]
fn test_jmt_storage() {
    let tests = vec![
        ("key_0", "value_0", 1u64),
        ("key_1", "value_1", 2u64),
        ("key_2", "value_2", 3u64),
    ];
    let mut prover_storage = ProverStorage::new();
    for (k, v, version) in tests.iter() {
        assert_eq!(prover_storage.next_version(), *version);
        let mut storage = WorkingSet::new(prover_storage);
        storage.set(key(k), value(v));
        let (cache, mut witness, storage_back) = storage.freeze();
        prover_storage = storage_back;
        prover_storage
            .validate_and_commit(cache, &mut witness)
            .expect("storage is valid");

        let mut read_witness = ArrayWitness::new();
        assert_eq!(value(v), prover_storage.get(&key(k), &mut read_witness).unwrap());
        assert_eq!(prover_storage.next_version(), *version + 1);
    }

    assert_eq!(prover_storage.next_version(), (tests.len() + 1) as u64);
    for (k, v, _) in tests.iter() {
        let mut read_witness = ArrayWitness::new();
        assert_eq!(value(v), prover_storage.get(&key(k), &mut read_witness).unwrap());
    }
}

#[test]
fn commit_advances_version_and_changes_root() {
    let prover_storage = ProverStorage::new();
    assert_eq!(prover_storage.next_version(), 1);
    let empty_root = prover_storage.current_root();

    let mut working_set = WorkingSet::new(prover_storage);
    working_set.set(key("key_0"), value("value_0"));
    let (cache, mut witness, mut prover_storage) = working_set.freeze();
    let root = prover_storage
        .validate_and_commit(cache, &mut witness)
        .expect("commit must succeed");

    assert_eq!(prover_storage.next_version(), 2);
    assert_ne!(root, empty_root);
    assert_ne!(root, [0u8; 32]);

    let mut read_witness = ArrayWitness::new();
    assert_eq!(
        prover_storage.get(&key("key_0"), &mut read_witness).unwrap(),
        value("value_0")
    );
}

#[test]
fn last_write_wins_within_one_execution() {
    let prover_storage = ProverStorage::new();
    let mut working_set = WorkingSet::new(prover_storage);
    working_set.set(key("key_0"), value("value_0"));
    working_set.set(key("key_0"), value("value_1"));
    assert_eq!(working_set.get(key("key_0")).unwrap(), value("value_1"));
    let (cache, mut witness, mut prover_storage) = working_set.freeze();
    prover_storage
        .validate_and_commit(cache, &mut witness)
        .expect("commit must succeed");

    let mut read_witness = ArrayWitness::new();
    assert_eq!(
        prover_storage.get(&key("key_0"), &mut read_witness).unwrap(),
        value("value_1")
    );
}

#[test]
fn read_only_commit_keeps_root_and_records_absence_proof() {
    // A first commit so there is a prior root.
    let prover_storage = ProverStorage::new();
    let mut working_set = WorkingSet::new(prover_storage);
    working_set.set(key("key_0"), value("value_0"));
    let (cache, mut witness, mut prover_storage) = working_set.freeze();
    let root_before = prover_storage
        .validate_and_commit(cache, &mut witness)
        .expect("commit must succeed");

    // An execution that only reads a key that was never written.
    let mut working_set = WorkingSet::new(prover_storage);
    assert!(working_set.get(key("key_missing")).is_none());
    let (cache, mut witness, mut prover_storage) = working_set.freeze();
    assert_eq!(witness.len(), 1, "the read through to the store leaves one value hint");
    let root_after = prover_storage
        .validate_and_commit(cache, &mut witness)
        .expect("commit must succeed");

    assert_eq!(root_after, root_before, "no writes, no root movement");
    assert_eq!(
        witness.len(),
        4,
        "value hint, latest version, the proof of absence, and the new root"
    );
}

#[test]
fn identical_executions_freeze_identically() {
    let ops = || {
        vec![
            Operation::Put(key("key_a"), value("value_1")),
            Operation::Get(key("key_a")),
            Operation::Get(key("key_b")),
            Operation::Put(key("key_a"), value("value_2")),
            Operation::Remove(key("key_c")),
        ]
    };

    let mut ws1 = WorkingSet::new(ProverStorage::new());
    apply_operations(&mut ws1, &ops());
    let (cache1, witness1, _) = ws1.freeze();

    let mut ws2 = WorkingSet::new(ProverStorage::new());
    apply_operations(&mut ws2, &ops());
    let (cache2, witness2, _) = ws2.freeze();

    assert_eq!(cache1, cache2);
    assert_eq!(witness1.into_hints(), witness2.into_hints());
}

#[test]
fn commit_is_deterministic() {
    let run = || {
        let mut working_set = WorkingSet::new(ProverStorage::new());
        working_set.set(key("key_0"), value("value_0"));
        working_set.get(key("key_1"));
        working_set.set(key("key_2"), value("value_2"));
        let (cache, mut witness, mut prover_storage) = working_set.freeze();
        let root = prover_storage
            .validate_and_commit(cache, &mut witness)
            .expect("commit must succeed");
        (root, witness.into_hints())
    };
    let (root1, hints1) = run();
    let (root2, hints2) = run();
    assert_eq!(root1, root2);
    assert_eq!(hints1, hints2);
}

#[test]
fn versions_advance_and_roots_stay_retrievable() {
    let mut prover_storage = ProverStorage::new();
    let mut recorded_roots = vec![prover_storage.root_at(0).unwrap()];
    let n = 3u64;
    for i in 0..n {
        let mut working_set = WorkingSet::new(prover_storage);
        working_set.set(key(&format!("key_{i}")), value(&format!("value_{i}")));
        let (cache, mut witness, storage_back) = working_set.freeze();
        prover_storage = storage_back;
        let root = prover_storage
            .validate_and_commit(cache, &mut witness)
            .expect("commit must succeed");
        recorded_roots.push(root);
    }
    assert_eq!(prover_storage.next_version(), n + 1);
    for (v, root) in recorded_roots.iter().enumerate() {
        assert_eq!(prover_storage.root_at(v as u64).unwrap(), *root);
    }
    assert!(prover_storage.root_at(n + 1).is_none());
}

#[test]
fn witness_round_trip_replays_to_the_same_root() {
    // Commit 1: put a value in so the read below is an inclusion.
    let mut working_set = WorkingSet::new(ProverStorage::new());
    working_set.set(key("key_0"), value("value_0"));
    let (cache, mut witness, mut prover_storage) = working_set.freeze();
    prover_storage
        .validate_and_commit(cache, &mut witness)
        .expect("commit must succeed");
    let prior_root = prover_storage.current_root();

    // Commit 2 (recording): read the key, write another, commit.
    let mut working_set = WorkingSet::new(prover_storage);
    assert_eq!(working_set.get(key("key_0")).unwrap(), value("value_0"));
    working_set.set(key("key_1"), value("value_1"));
    let (cache, mut witness, mut prover_storage) = working_set.freeze();
    let native_root = prover_storage
        .validate_and_commit(cache, &mut witness)
        .expect("commit must succeed");

    // Replay: identical execution against the recorded hints only.
    let replay_witness = ArrayWitness::from_hints(witness.into_hints());
    let zk_storage = ZkStorage::new(prior_root);
    let mut working_set = WorkingSet::with_witness(zk_storage, replay_witness);
    assert_eq!(working_set.get(key("key_0")).unwrap(), value("value_0"));
    working_set.set(key("key_1"), value("value_1"));
    let (cache, mut witness, mut zk_storage) = working_set.freeze();
    let replayed_root = zk_storage
        .validate_and_commit(cache, &mut witness)
        .expect("replay must succeed");
    assert_eq!(replayed_root, native_root);
}

#[test]
fn replay_with_tampered_cache_log_fails() {
    // Record a commit that wrote key_0 = value_0 and then read it back.
    let mut working_set = WorkingSet::new(ProverStorage::new());
    working_set.set(key("key_0"), value("value_0"));
    let (cache, mut witness, mut prover_storage) = working_set.freeze();
    prover_storage
        .validate_and_commit(cache, &mut witness)
        .expect("commit must succeed");
    let prior_root = prover_storage.current_root();

    let mut working_set = WorkingSet::new(prover_storage);
    assert_eq!(working_set.get(key("key_0")).unwrap(), value("value_0"));
    let (_honest_cache, mut witness, mut prover_storage) = working_set.freeze();
    prover_storage
        .validate_and_commit(_honest_cache, &mut witness)
        .expect("commit must succeed");

    // Replay against a cache log claiming a different prior value.
    let replay_witness = ArrayWitness::from_hints(witness.into_hints());
    let zk_storage = ZkStorage::new(prior_root);
    let mut working_set = WorkingSet::with_witness(zk_storage, replay_witness);
    // Consume the value hint exactly as the recorded execution did.
    working_set.get(key("key_0"));
    let (_cache, mut witness, mut zk_storage) = working_set.freeze();

    let mut tampered = CacheLog::new();
    tampered.add_read(
        CacheKey::new("key_0".as_bytes().to_vec()),
        Some(CacheValue::new("value_tampered".as_bytes().to_vec())),
    );
    let result = zk_storage.validate_and_commit(tampered, &mut witness);
    assert_eq!(result, Err(CommitError::InconsistentRead));
}

#[test]
fn prover_commit_rejects_inconsistent_cached_read() {
    let mut working_set = WorkingSet::new(ProverStorage::new());
    working_set.set(key("key_0"), value("value_0"));
    let (cache, mut witness, mut prover_storage) = working_set.freeze();
    prover_storage
        .validate_and_commit(cache, &mut witness)
        .expect("commit must succeed");

    let mut lying = CacheLog::new();
    lying.add_read(
        CacheKey::new("key_0".as_bytes().to_vec()),
        Some(CacheValue::new("value_wrong".as_bytes().to_vec())),
    );
    let mut witness = ArrayWitness::new();
    let result = prover_storage.validate_and_commit(lying, &mut witness);
    assert_eq!(result, Err(CommitError::InconsistentRead));
}

#[test]
fn replay_with_exhausted_witness_fails() {
    let zk_storage = ZkStorage::new([0u8; 32]);
    let mut zk_storage = zk_storage;
    let mut empty_witness = ArrayWitness::new();
    let result = zk_storage.validate_and_commit(CacheLog::new(), &mut empty_witness);
    assert_eq!(result, Err(CommitError::ExhaustedWitness));
}

#[test]
fn replay_with_malformed_version_hint_fails() {
    let mut zk_storage = ZkStorage::new([0u8; 32]);
    let mut witness = ArrayWitness::from_hints(vec![vec![1, 2, 3]]);
    let result = zk_storage.validate_and_commit(CacheLog::new(), &mut witness);
    assert_eq!(result, Err(CommitError::MalformedHint));
}
