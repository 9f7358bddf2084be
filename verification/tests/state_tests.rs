use sov_state::cache::{CacheKey, CacheLog, CacheValue, ValueExists};
use sov_state::codec::{decode_opt_bytes, decode_u64, encode_opt_bytes, encode_u64};
use sov_state::map::StateMap;
use sov_state::mocks::{Address, MockContext, MockPublicKey, ZkMockContext};
use sov_state::prover::ProverStorage;
use sov_state::storage::{Prefix, StorageKey, StorageValue};
use sov_state::value::{Error, SingletonKey, StateValue};
use sov_state::db::{sha256_hash, StateDb};
use sov_state::witness::{ArrayWitness, WitnessError};
use sov_state::working_set::WorkingSet;

#[test]
fn u64_codec_round_trip_and_exact_bytes() {
    assert_eq!(encode_u64(258), vec![2, 1, 0, 0, 0, 0, 0, 0]);
    assert_eq!(decode_u64(&[2, 1, 0, 0, 0, 0, 0, 0]), Some(258));
    assert_eq!(decode_u64(&[1, 2, 3]), None);
    assert_eq!(decode_u64(&encode_u64(u64::MAX)), Some(u64::MAX));
}

#[test]
fn option_hint_codec_round_trip_and_exact_bytes() {
    assert_eq!(encode_opt_bytes(&None), vec![0]);
    assert_eq!(encode_opt_bytes(&Some(vec![5, 6])), vec![1, 5, 6]);
    assert_eq!(decode_opt_bytes(&vec![0]), Some(None));
    assert_eq!(decode_opt_bytes(&vec![1, 5, 6]), Some(Some(vec![5, 6])));
    assert_eq!(decode_opt_bytes(&vec![]), None);
    assert_eq!(decode_opt_bytes(&vec![7, 7]), None);
}

#[test]
fn storage_key_concatenates_aligned_parts() {
    // The prefix is padded to four bytes; the singleton key encodes to nothing.
    let prefix = Prefix::new(vec![1, 2, 3]);
    let storage_key = StorageKey::new(&prefix, &SingletonKey);
    assert_eq!(storage_key.key().as_ref(), &vec![1, 2, 3, 0]);

    // A byte-vector key is length-prefixed, then padded to four bytes.
    let prefix = Prefix::new(vec![9, 9, 9, 9]);
    let storage_key = StorageKey::new(&prefix, &vec![0xaau8]);
    assert_eq!(
        storage_key.key().as_ref(),
        &vec![9, 9, 9, 9, 1, 0, 0, 0, 0, 0, 0, 0, 0xaa, 0, 0, 0]
    );
}

#[test]
fn storage_key_hex_is_lowercase_pairs() {
    let storage_key = StorageKey::new_from_bytes(vec![0xab, 0x01, 0xf0]);
    assert_eq!(storage_key.hex(), "ab01f0");
}

#[test]
fn witness_hints_come_back_in_fifo_order() {
    let mut witness = ArrayWitness::new();
    witness.add_hint(vec![1]);
    witness.add_hint(vec![2, 2]);
    witness.add_hint(vec![3]);
    let mut replay = ArrayWitness::from_hints(witness.into_hints());
    assert_eq!(replay.get_hint(), Ok(vec![1]));
    assert_eq!(replay.get_hint(), Ok(vec![2, 2]));
    assert_eq!(replay.get_hint(), Ok(vec![3]));
    assert_eq!(replay.get_hint(), Err(WitnessError::ExhaustedWitness));
}

#[test]
fn cache_log_first_read_then_last_write() {
    let mut cache = CacheLog::new();
    let k = || CacheKey::new(b"k".to_vec());
    assert_eq!(cache.get_value(&k()), ValueExists::No);
    cache.add_read(k(), Some(CacheValue::new(b"from_store".to_vec())));
    assert_eq!(
        cache.get_value(&k()),
        ValueExists::Yes(Some(CacheValue::new(b"from_store".to_vec())))
    );
    cache.add_write(k(), Some(CacheValue::new(b"written".to_vec())));
    assert_eq!(
        cache.get_value(&k()),
        ValueExists::Yes(Some(CacheValue::new(b"written".to_vec())))
    );
    cache.add_write(k(), None);
    assert_eq!(cache.get_value(&k()), ValueExists::Yes(None));

    let (reads, writes) = cache.split();
    assert_eq!(reads.len(), 1);
    assert_eq!(reads[0].0, k());
    assert_eq!(reads[0].1, Some(CacheValue::new(b"from_store".to_vec())));
    assert_eq!(writes.len(), 1);
    assert_eq!(writes[0].0, k());
    assert_eq!(writes[0].1, None);
}

#[test]
fn state_value_full_lifecycle() {
    let state_value: StateValue<Vec<u8>> = StateValue::new(Prefix::new(b"module/Value/v".to_vec()));
    let mut working_set = WorkingSet::new(ProverStorage::new());

    assert_eq!(state_value.get(&mut working_set), None);
    assert!(matches!(
        state_value.get_or_err(&mut working_set),
        Err(Error::MissingValue(_))
    ));

    state_value.set(b"payload".to_vec(), &mut working_set);
    assert_eq!(state_value.get(&mut working_set), Some(b"payload".to_vec()));
    assert_eq!(state_value.get_or_err(&mut working_set), Ok(b"payload".to_vec()));

    assert_eq!(state_value.remove(&mut working_set), Some(b"payload".to_vec()));
    assert_eq!(state_value.get(&mut working_set), None);
    assert!(matches!(
        state_value.remove_or_err(&mut working_set),
        Err(Error::MissingValue(_))
    ));

    state_value.set(b"again".to_vec(), &mut working_set);
    state_value.delete(&mut working_set);
    assert_eq!(state_value.get(&mut working_set), None);
}

#[test]
fn state_value_survives_a_commit() {
    let state_value: StateValue<Vec<u8>> = StateValue::new(Prefix::new(b"module/Value/v".to_vec()));
    let mut working_set = WorkingSet::new(ProverStorage::new());
    state_value.set(b"durable".to_vec(), &mut working_set);
    let (cache, mut witness, mut prover_storage) = working_set.freeze();
    prover_storage
        .validate_and_commit(cache, &mut witness)
        .expect("commit must succeed");

    let mut working_set = WorkingSet::new(prover_storage);
    assert_eq!(state_value.get(&mut working_set), Some(b"durable".to_vec()));
}

#[test]
fn distinct_prefixes_never_collide() {
    let first: StateValue<Vec<u8>> = StateValue::new(Prefix::new(b"module_a/Value/v".to_vec()));
    let second: StateValue<Vec<u8>> = StateValue::new(Prefix::new(b"module_b/Value/v".to_vec()));
    let mut working_set = WorkingSet::new(ProverStorage::new());
    first.set(b"one".to_vec(), &mut working_set);
    second.set(b"two".to_vec(), &mut working_set);
    assert_eq!(first.get(&mut working_set), Some(b"one".to_vec()));
    assert_eq!(second.get(&mut working_set), Some(b"two".to_vec()));
    assert_eq!(first.prefix(), &Prefix::new(b"module_a/Value/v".to_vec()));
}

#[test]
fn working_set_reads_through_and_caches() {
    // Commit a value, then observe that one execution reads it through the
    // cache exactly once: the witness gains a single value hint.
    let mut working_set = WorkingSet::new(ProverStorage::new());
    working_set.set(
        StorageKey::new_from_bytes(b"key_0".to_vec()),
        StorageValue::new_from_bytes(b"value_0".to_vec()),
    );
    let (cache, mut witness, mut prover_storage) = working_set.freeze();
    prover_storage
        .validate_and_commit(cache, &mut witness)
        .expect("commit must succeed");

    let mut working_set = WorkingSet::new(prover_storage);
    let k = || StorageKey::new_from_bytes(b"key_0".to_vec());
    assert_eq!(
        working_set.get(k()).unwrap(),
        StorageValue::new_from_bytes(b"value_0".to_vec())
    );
    assert_eq!(
        working_set.get(k()).unwrap(),
        StorageValue::new_from_bytes(b"value_0".to_vec())
    );
    let (_cache, witness, _storage) = working_set.freeze();
    assert_eq!(witness.len(), 1, "the second read never touched the store");
}

#[test]
fn mock_keys_and_contexts() {
    let public_key = MockPublicKey::new(b"pub_key".to_vec());
    let signature = public_key.sign([0u8; 32]);
    assert_eq!(signature.msg_sig, Vec::<u8>::new());
    assert!(signature.verify(&public_key, [0u8; 32]).is_ok());

    let address = public_key.to_address();
    assert_eq!(address.as_bytes().len(), 32);
    assert_ne!(address.as_bytes(), &b"pub_key".to_vec());

    let context = MockContext::new(Address::new(b"sender".to_vec()));
    assert_eq!(context.sender().as_bytes(), &b"sender".to_vec());
    let zk_context = ZkMockContext::new(Address::new(b"sender".to_vec()));
    assert_eq!(zk_context.sender().as_bytes(), &b"sender".to_vec());
}

#[test]
fn sha_digest_matches_known_answer() {
    let empty_digest = sha256_hash(&Vec::new());
    assert_eq!(
        empty_digest.to_vec(),
        hex::decode("e3b0c44298fc1c149afbf4c8996fb92427ae41e4649b934ca495991b7852b855").unwrap()
    );

    let key = b"key_0".to_vec();
    let key_hash = sha256_hash(&key);
    let mut db = StateDb::new();
    assert_eq!(db.get_preimage(&key_hash), None);
    db.put_preimage(&key_hash, &key);
    assert_eq!(db.get_preimage(&key_hash), Some(key));
}

#[test]
fn state_map_gives_per_entry_access() {
    let state_map: StateMap<Vec<u8>, Vec<u8>> =
        StateMap::new(Prefix::new(b"module/Map/m".to_vec()));
    let mut working_set = WorkingSet::new(ProverStorage::new());

    assert_eq!(state_map.get(&b"k1".to_vec(), &mut working_set), None);
    state_map.set(&b"k1".to_vec(), b"v1".to_vec(), &mut working_set);
    state_map.set(&b"k2".to_vec(), b"v2".to_vec(), &mut working_set);
    assert_eq!(
        state_map.get(&b"k1".to_vec(), &mut working_set),
        Some(b"v1".to_vec())
    );
    assert_eq!(
        state_map.get_or_err(&b"k2".to_vec(), &mut working_set),
        Ok(b"v2".to_vec())
    );
    assert_eq!(
        state_map.remove(&b"k1".to_vec(), &mut working_set),
        Some(b"v1".to_vec())
    );
    assert_eq!(state_map.get(&b"k1".to_vec(), &mut working_set), None);
    assert!(matches!(
        state_map.remove_or_err(&b"k1".to_vec(), &mut working_set),
        Err(Error::MissingValue(_))
    ));
    state_map.delete(&b"k2".to_vec(), &mut working_set);
    assert_eq!(state_map.get(&b"k2".to_vec(), &mut working_set), None);

    let (cache, mut witness, mut prover_storage) = working_set.freeze();
    prover_storage
        .validate_and_commit(cache, &mut witness)
        .expect("commit must succeed");
}
