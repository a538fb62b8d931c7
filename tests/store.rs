use std::collections::HashMap;

use bitcoin::secp256k1::{Message, PublicKey, Secp256k1, SecretKey};
use bitcoin_hashes::{hash160, sha256};

use keyserver::authentication::validate;
use keyserver::crypto::{CryptoError, SigScheme, ECDSA_SCHEME};
use keyserver::db::{put_value, read_outcome, ttl_decision, ttl_filter, CompactionDecision, ReadOutcome};
use keyserver::errors::ValidationError;
use keyserver::model::{expired, expired_at, now_seconds, seconds_of, Address, AddressMetadata, Payload};
use keyserver::wire::{decode_metadata, decode_payload, encode_metadata, encode_payload};

fn secret(byte: u8) -> SecretKey {
    SecretKey::from_slice(&[byte; 32]).unwrap()
}

fn address_of(sk: &SecretKey) -> Address {
    let pk = PublicKey::from_secret_key(&Secp256k1::new(), sk);
    Address::from_body(hash160::Hash::hash(&pk.serialize()).to_byte_array().to_vec())
}

fn signed_record(sk: &SecretKey, payload: &Payload) -> AddressMetadata {
    let secp = Secp256k1::new();
    let pk = PublicKey::from_secret_key(&secp, sk);
    let serialized_payload = encode_payload(payload);
    let digest = sha256::Hash::hash(&serialized_payload).to_byte_array();
    let sig = secp.sign_ecdsa(&Message::from_digest(digest), sk);
    AddressMetadata {
        pub_key: pk.serialize().to_vec(),
        serialized_payload,
        signature: sig.serialize_der().to_vec(),
        scheme: ECDSA_SCHEME,
    }
}

fn payload(timestamp: i64, ttl: i64) -> Payload {
    Payload { timestamp, ttl, entries: vec![] }
}

fn same(a: &AddressMetadata, b: &AddressMetadata) -> bool {
    a.pub_key == b.pub_key
        && a.serialized_payload == b.serialized_payload
        && a.signature == b.signature
        && a.scheme == b.scheme
}

fn get(store: &HashMap<Vec<u8>, Vec<u8>>, addr: &Address, now: i64) -> ReadOutcome {
    read_outcome(store.get(addr.as_body()).map(|v| v.as_slice()), now)
}

#[test]
fn test_ttl_ok() {
    let timestamp: i64 = 1_600_000_000;
    let p = payload(timestamp, 10);
    let metadata = AddressMetadata {
        pub_key: vec![],
        serialized_payload: encode_payload(&p),
        signature: vec![],
        scheme: 1,
    };
    let addr = address_of(&secret(3));
    let mut store = HashMap::new();
    store.insert(addr.as_body().to_vec(), put_value(&metadata));

    assert!(matches!(get(&store, &addr, timestamp), ReadOutcome::Live(_)));

    let later = timestamp + 12;
    let value = store.get(addr.as_body()).unwrap().clone();
    assert_eq!(ttl_decision(&value, later), CompactionDecision::Remove);
    store.remove(addr.as_body());
    assert!(matches!(get(&store, &addr, later), ReadOutcome::Absent));
}

#[test]
fn scenario_validate_put_get() {
    let sk = secret(7);
    let t: i64 = 1_700_000_000;
    let addr = address_of(&sk);
    let record = signed_record(&sk, &payload(t, 10));
    assert_eq!(validate(&addr, &record), Ok(()));
    let mut store = HashMap::new();
    store.insert(addr.as_body().to_vec(), put_value(&record));
    match get(&store, &addr, t + 5) {
        ReadOutcome::Live(m) => assert!(same(&m, &record)),
        _ => panic!("record should be live"),
    }
    assert!(matches!(get(&store, &addr, t + 15), ReadOutcome::Expired));
}

#[test]
fn preimage_mismatch_with_other_key() {
    let record = signed_record(&secret(7), &payload(100, 10));
    let other = address_of(&secret(8));
    assert_eq!(validate(&other, &record), Err(ValidationError::Preimage));
}

#[test]
fn tampered_payload_fails_verification() {
    let sk = secret(9);
    let addr = address_of(&sk);
    let mut record = signed_record(&sk, &payload(100, 10));
    assert_eq!(validate(&addr, &record), Ok(()));
    record.serialized_payload[1] ^= 1;
    assert_eq!(validate(&addr, &record), Err(ValidationError::Crypto(CryptoError::Verification)));
}

#[test]
fn tampered_signature_fails() {
    let sk = secret(9);
    let addr = address_of(&sk);
    let mut record = signed_record(&sk, &payload(100, 10));
    let last = record.signature.len() - 1;
    record.signature[last] ^= 1;
    assert!(matches!(validate(&addr, &record), Err(ValidationError::Crypto(_))));
    record.signature = vec![1, 2, 3];
    assert_eq!(
        validate(&addr, &record),
        Err(ValidationError::Crypto(CryptoError::SigDeserialization))
    );
}

#[test]
fn signature_by_other_key_fails() {
    let sk = secret(9);
    let addr = address_of(&sk);
    let mut record = signed_record(&sk, &payload(100, 10));
    record.signature = signed_record(&secret(10), &payload(100, 10)).signature;
    assert_eq!(validate(&addr, &record), Err(ValidationError::Crypto(CryptoError::Verification)));
}

#[test]
fn unsupported_scheme_and_bad_inputs() {
    let sk = secret(11);
    let addr = address_of(&sk);
    let good = signed_record(&sk, &payload(100, 10));

    let mut r = good.clone();
    r.scheme = 0;
    assert_eq!(validate(&addr, &r), Err(ValidationError::KeyType));

    let mut r = good.clone();
    r.pub_key = vec![0x02; 5];
    assert_eq!(validate(&addr, &r), Err(ValidationError::Crypto(CryptoError::PubkeyDeserialization)));

    let mut r = good.clone();
    r.serialized_payload = vec![];
    assert_eq!(validate(&addr, &r), Err(ValidationError::EmptyPayload));
}

#[test]
fn raw_address_is_hash160_of_compressed_key() {
    let g = hex_bytes("0279be667ef9dcbbac55a06295ce870b07029bfcdb2dce28d959f2815b16f81798");
    let key = SigScheme::Ecdsa.deserialize_key(&g).unwrap();
    assert_eq!(key, g);
    assert_eq!(
        SigScheme::Ecdsa.to_raw_address(&key),
        hex_bytes("751e76e8199196d454941c45d1b3a323f1433bd6")
    );
    assert_eq!(SigScheme::from_id(1), Some(SigScheme::Ecdsa));
    assert_eq!(SigScheme::from_id(0), None);
}

fn hex_bytes(s: &str) -> Vec<u8> {
    (0..s.len()).step_by(2).map(|i| u8::from_str_radix(&s[i..i + 2], 16).unwrap()).collect()
}

#[test]
fn round_trip_put_get() {
    let sk = secret(12);
    let addr = address_of(&sk);
    let record = signed_record(&sk, &payload(1000, 60));
    let bytes = encode_metadata(&record);
    assert!(same(&decode_metadata(&bytes).unwrap(), &record));
    let mut store = HashMap::new();
    store.insert(addr.as_body().to_vec(), put_value(&record));
    match get(&store, &addr, 1059) {
        ReadOutcome::Live(m) => assert!(same(&m, &record)),
        _ => panic!("record should be live"),
    }
}

#[test]
fn eager_expiry_on_read() {
    let sk = secret(13);
    let addr = address_of(&sk);
    let record = signed_record(&sk, &payload(1000, 5));
    let mut store = HashMap::new();
    store.insert(addr.as_body().to_vec(), put_value(&record));
    assert!(matches!(get(&store, &addr, 1006), ReadOutcome::Expired));
    assert!(matches!(get(&store, &addr, 1005), ReadOutcome::Live(_)));
}

#[test]
fn overwrite_keeps_only_second() {
    let sk = secret(14);
    let addr = address_of(&sk);
    let first = signed_record(
        &sk,
        &Payload { timestamp: 10, ttl: 100, entries: vec![vec![1, 2]] },
    );
    let second = signed_record(
        &sk,
        &Payload { timestamp: 20, ttl: 100, entries: vec![vec![3]] },
    );
    let mut store = HashMap::new();
    store.insert(addr.as_body().to_vec(), put_value(&first));
    store.insert(addr.as_body().to_vec(), put_value(&second));
    match get(&store, &addr, 50) {
        ReadOutcome::Live(m) => {
            assert!(same(&m, &second));
            let p = decode_payload(&m.serialized_payload).unwrap();
            assert_eq!(p.entries, vec![vec![3u8]]);
        },
        _ => panic!("record should be live"),
    }
}

#[test]
fn compaction_decisions() {
    let record = signed_record(&secret(15), &payload(1000, 10));
    let value = put_value(&record);
    assert_eq!(ttl_decision(&value, 1010), CompactionDecision::Keep);
    assert_eq!(ttl_decision(&value, 1011), CompactionDecision::Remove);
    assert_eq!(ttl_decision(&[1, 2, 3], 5000), CompactionDecision::Keep);
}

#[test]
fn corrupt_value_is_not_absence() {
    assert!(matches!(read_outcome(Some(&[0x0a, 0x05, 1][..]), 0), ReadOutcome::Corrupt));
    assert!(matches!(read_outcome(None, 0), ReadOutcome::Absent));
    let bad_payload = AddressMetadata {
        pub_key: vec![1],
        serialized_payload: vec![0x08],
        signature: vec![2],
        scheme: 1,
    };
    assert!(matches!(read_outcome(Some(put_value(&bad_payload).as_slice()), 0), ReadOutcome::Corrupt));
}

#[test]
fn expiry_predicate_values() {
    let p = payload(100, 10);
    assert!(!expired_at(&p, 110));
    assert!(expired_at(&p, 111));
    let never = payload(i64::MAX, i64::MAX);
    assert!(!expired_at(&never, i64::MAX));
    let immediate = payload(100, 0);
    assert!(expired_at(&immediate, 101));
    assert!(!expired_at(&immediate, 100));
}

#[test]
fn wall_clock_paths() {
    let now = now_seconds();
    assert!(now > 1_600_000_000);
    assert!(expired(&payload(0, 0)));
    assert!(!expired(&payload(now, i64::MAX)));
    let old = put_value(&signed_record(&secret(16), &payload(0, 1)));
    assert_eq!(ttl_filter(0, b"key", &old), CompactionDecision::Remove);
    let fresh = put_value(&signed_record(&secret(16), &payload(now, 3600)));
    assert_eq!(ttl_filter(0, b"key", &fresh), CompactionDecision::Keep);
}

#[test]
fn clock_readings() {
    assert_eq!(seconds_of(None), 0);
    assert_eq!(seconds_of(Some(1_700_000_000)), 1_700_000_000);
    assert_eq!(seconds_of(Some(u64::MAX)), i64::MAX);
    assert_eq!(seconds_of(Some(i64::MAX as u64)), i64::MAX);
}
