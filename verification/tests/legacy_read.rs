use opgethdb::error::DbError;
use opgethdb::key::DBKey;
use opgethdb::reader::GethDBReader;
use opgethdb::record::HeaderHash;
use opgethdb::store::MemStore;

fn hash32(byte: u8) -> HeaderHash {
    HeaderHash::new(vec![byte; 32])
}

fn key_bytes(key: &DBKey) -> Vec<u8> {
    key.as_slice().to_vec()
}

/// A synthetic canonical header: a list of 15 fields, all empty strings but
/// the ninth, which encodes the block number.
fn synthetic_header(number_byte: u8) -> Vec<u8> {
    let mut enc = vec![0xcf];
    enc.extend_from_slice(&[0x80; 8]);
    enc.push(number_byte);
    enc.extend_from_slice(&[0x80; 6]);
    enc
}

fn populated_store(number: u64, hash_byte: u8, number_byte: u8) -> MemStore {
    let mut store = MemStore::new();
    let hash = hash32(hash_byte);
    store.insert(
        key_bytes(&DBKey::hash_by_number(number)),
        vec![hash_byte; 32],
    );
    store.insert(
        key_bytes(&DBKey::header_lookup(&hash, number)),
        synthetic_header(number_byte),
    );
    store
}

#[test]
fn key_layouts_are_byte_exact() {
    let number: u64 = 0x0102030405060708;
    let hash = hash32(0xaa);

    let mut expected = vec![0x68u8];
    expected.extend_from_slice(&[1, 2, 3, 4, 5, 6, 7, 8]);
    expected.push(0x6e);
    assert_eq!(key_bytes(&DBKey::hash_by_number(number)), expected);

    let mut expected = vec![0x68u8];
    expected.extend_from_slice(&[1, 2, 3, 4, 5, 6, 7, 8]);
    expected.extend_from_slice(&[0xaa; 32]);
    assert_eq!(key_bytes(&DBKey::header_lookup(&hash, number)), expected);

    let mut expected = vec![0x62u8];
    expected.extend_from_slice(&[1, 2, 3, 4, 5, 6, 7, 8]);
    expected.extend_from_slice(&[0xaa; 32]);
    assert_eq!(key_bytes(&DBKey::body_by_hash(&hash, number)), expected);

    let mut expected = vec![0x72u8];
    expected.extend_from_slice(&[1, 2, 3, 4, 5, 6, 7, 8]);
    expected.extend_from_slice(&[0xaa; 32]);
    assert_eq!(key_bytes(&DBKey::receipts_by_hash(&hash, number)), expected);
}

#[test]
fn distinct_lookups_give_distinct_keys() {
    let h1 = hash32(0xaa);
    let h2 = hash32(0xbb);
    let keys = vec![
        key_bytes(&DBKey::hash_by_number(1)),
        key_bytes(&DBKey::hash_by_number(2)),
        key_bytes(&DBKey::header_lookup(&h1, 1)),
        key_bytes(&DBKey::header_lookup(&h2, 1)),
        key_bytes(&DBKey::header_lookup(&h1, 2)),
        key_bytes(&DBKey::body_by_hash(&h1, 1)),
        key_bytes(&DBKey::receipts_by_hash(&h1, 1)),
    ];
    for i in 0..keys.len() {
        for j in 0..keys.len() {
            if i != j {
                assert_ne!(keys[i], keys[j]);
            }
        }
    }
}

#[test]
fn header_round_trip() {
    let store = populated_store(1, 0xaa, 0x01);
    let reader = GethDBReader::new(store);

    let sealed = reader.header_by_number(1).unwrap();
    assert_eq!(sealed.hash.as_bytes(), &[0xaa; 32][..]);
    assert_eq!(sealed.header.number, 1);
    assert_eq!(sealed.header.encoding, synthetic_header(0x01));
}

#[test]
fn block_round_trip() {
    let mut store = populated_store(1, 0xaa, 0x01);
    let hash = hash32(0xaa);
    // Doubly wrapped: an outer list holding one inner list of two items.
    store.insert(
        key_bytes(&DBKey::body_by_hash(&hash, 1)),
        vec![0xc3, 0xc2, 0x01, 0x02],
    );
    let reader = GethDBReader::new(store);

    let block = reader.block_by_number(1).unwrap();
    assert_eq!(block.header.hash.as_bytes(), &[0xaa; 32][..]);
    assert_eq!(block.header.header.number, 1);
    assert_eq!(block.body.len(), 2);
    assert_eq!(block.body[0].encoding, vec![0x01]);
    assert_eq!(block.body[1].encoding, vec![0x02]);
}

#[test]
fn body_must_be_doubly_wrapped() {
    let hash = hash32(0xaa);

    // An outer list of two inner lists.
    let mut store = populated_store(1, 0xaa, 0x01);
    store.insert(
        key_bytes(&DBKey::body_by_hash(&hash, 1)),
        vec![0xc4, 0xc1, 0x01, 0xc1, 0x02],
    );
    let reader = GethDBReader::new(store);
    assert!(matches!(reader.block_by_number(1), Err(DbError::Decode)));

    // An empty outer list.
    let mut store = populated_store(1, 0xaa, 0x01);
    store.insert(key_bytes(&DBKey::body_by_hash(&hash, 1)), vec![0xc0]);
    let reader = GethDBReader::new(store);
    assert!(matches!(reader.block_by_number(1), Err(DbError::Decode)));

    // A string where the outer list should be.
    let mut store = populated_store(1, 0xaa, 0x01);
    store.insert(key_bytes(&DBKey::body_by_hash(&hash, 1)), vec![0x80]);
    let reader = GethDBReader::new(store);
    assert!(matches!(reader.block_by_number(1), Err(DbError::Decode)));
}

#[test]
fn genesis_receipts_decode_empty() {
    let mut store = populated_store(0, 0xaa, 0x80);
    let hash = hash32(0xaa);
    store.insert(key_bytes(&DBKey::receipts_by_hash(&hash, 0)), vec![0xc0]);
    let reader = GethDBReader::new(store);

    let receipts = reader.receipts_by_number(0).unwrap();
    assert_eq!(receipts.len(), 0);
}

/// A receipts value holding one receipt with `success = true`,
/// `cumulative_gas_used = 21000` and no logs.
fn simple_receipts_value() -> Vec<u8> {
    vec![0xc6, 0xc5, 0x01, 0x82, 0x52, 0x08, 0xc0]
}

#[test]
fn single_receipt_decodes_with_zero_bloom() {
    let mut store = populated_store(1, 0xaa, 0x01);
    let hash = hash32(0xaa);
    store.insert(
        key_bytes(&DBKey::receipts_by_hash(&hash, 1)),
        simple_receipts_value(),
    );
    let reader = GethDBReader::new(store);

    let receipts = reader.receipts_by_number(1).unwrap();
    assert_eq!(receipts.len(), 1);
    assert!(matches!(
        receipts[0].receipt.tx_type,
        opgethdb::record::TxType::Legacy
    ));
    assert!(receipts[0].receipt.success);
    assert_eq!(receipts[0].receipt.cumulative_gas_used, 21000);
    assert_eq!(receipts[0].receipt.logs.len(), 0);
    assert_eq!(receipts[0].bloom, vec![0u8; 256]);
}

#[test]
fn trailing_byte_in_inner_payload_is_integrity_error() {
    let mut store = populated_store(1, 0xaa, 0x01);
    let hash = hash32(0xaa);
    // The same receipt fields, but the inner list declares one extra byte.
    let value = vec![0xc7, 0xc6, 0x01, 0x82, 0x52, 0x08, 0xc0, 0x00];
    store.insert(key_bytes(&DBKey::receipts_by_hash(&hash, 1)), value);
    let reader = GethDBReader::new(store);

    assert!(matches!(
        reader.receipts_by_number(1),
        Err(DbError::Integrity)
    ));
}

#[test]
fn failed_receipt_with_zero_gas_decodes() {
    let mut store = populated_store(1, 0xaa, 0x01);
    let hash = hash32(0xaa);
    // success = false and cumulative gas 0 are both empty scalars.
    let value = vec![0xc4, 0xc3, 0x80, 0x80, 0xc0];
    store.insert(key_bytes(&DBKey::receipts_by_hash(&hash, 1)), value);
    let reader = GethDBReader::new(store);

    let receipts = reader.receipts_by_number(1).unwrap();
    assert_eq!(receipts.len(), 1);
    assert!(!receipts[0].receipt.success);
    assert_eq!(receipts[0].receipt.cumulative_gas_used, 0);
    assert_eq!(receipts[0].receipt.logs.len(), 0);
}

#[test]
fn malformed_receipt_fields_are_decode_errors() {
    let hash = hash32(0xaa);

    // An invalid boolean where the success flag should be.
    let mut store = populated_store(1, 0xaa, 0x01);
    let value = vec![0xc6, 0xc5, 0x02, 0x82, 0x52, 0x08, 0xc0];
    store.insert(key_bytes(&DBKey::receipts_by_hash(&hash, 1)), value);
    let reader = GethDBReader::new(store);
    assert!(matches!(reader.receipts_by_number(1), Err(DbError::Decode)));

    // An empty value.
    let mut store = populated_store(1, 0xaa, 0x01);
    store.insert(key_bytes(&DBKey::receipts_by_hash(&hash, 1)), Vec::new());
    let reader = GethDBReader::new(store);
    assert!(matches!(reader.receipts_by_number(1), Err(DbError::Decode)));

    // A non-canonical gas scalar: a single byte below 0x80 must not carry a
    // length prefix.
    let mut store = populated_store(1, 0xaa, 0x01);
    let value = vec![0xc5, 0xc4, 0x01, 0x81, 0x05, 0xc0];
    store.insert(key_bytes(&DBKey::receipts_by_hash(&hash, 1)), value);
    let reader = GethDBReader::new(store);
    assert!(matches!(reader.receipts_by_number(1), Err(DbError::Decode)));

    // A gas scalar with a leading zero byte.
    let mut store = populated_store(1, 0xaa, 0x01);
    let value = vec![0xc6, 0xc5, 0x01, 0x82, 0x00, 0x01, 0xc0];
    store.insert(key_bytes(&DBKey::receipts_by_hash(&hash, 1)), value);
    let reader = GethDBReader::new(store);
    assert!(matches!(reader.receipts_by_number(1), Err(DbError::Decode)));
}

fn expected_bloom(items: &[&[u8]]) -> Vec<u8> {
    let mut bloom = vec![0u8; 256];
    for item in items {
        let digest = alloy_primitives::keccak256(item);
        for i in [0usize, 2, 4] {
            let pos = ((digest[i] as usize) * 256 + (digest[i + 1] as usize)) % 2048;
            bloom[255 - pos / 8] |= 1 << (pos % 8);
        }
    }
    bloom
}

#[test]
fn receipt_with_log_gets_real_bloom() {
    let address = [0xaau8; 20];
    let topic = [0xbbu8; 32];

    // One log: the address, one topic, empty data.
    let mut log = vec![0xf8, 0x38, 0x94];
    log.extend_from_slice(&address);
    log.push(0xe1);
    log.push(0xa0);
    log.extend_from_slice(&topic);
    log.push(0x80);
    assert_eq!(log.len(), 58);

    let mut logs_field = vec![0xf8, 0x3a];
    logs_field.extend_from_slice(&log);

    let mut value = vec![0xf8, 0x40, 0xf8, 0x3e, 0x01, 0x01];
    value.extend_from_slice(&logs_field);
    assert_eq!(value.len(), 66);

    let mut store = populated_store(1, 0xcc, 0x01);
    let hash = hash32(0xcc);
    store.insert(key_bytes(&DBKey::receipts_by_hash(&hash, 1)), value);
    let reader = GethDBReader::new(store);

    let receipts = reader.receipts_by_number(1).unwrap();
    assert_eq!(receipts.len(), 1);
    assert!(receipts[0].receipt.success);
    assert_eq!(receipts[0].receipt.cumulative_gas_used, 1);
    assert_eq!(receipts[0].receipt.logs.len(), 1);
    assert_eq!(receipts[0].receipt.logs[0].address, address.to_vec());
    assert_eq!(receipts[0].receipt.logs[0].topics.len(), 1);
    assert_eq!(receipts[0].receipt.logs[0].topics[0], topic.to_vec());
    assert_eq!(receipts[0].receipt.logs[0].data.len(), 0);
    assert_eq!(receipts[0].bloom, expected_bloom(&[&address, &topic]));
    assert_ne!(receipts[0].bloom, vec![0u8; 256]);
}

#[test]
fn missing_keys_are_not_found() {
    let reader = GethDBReader::new(MemStore::new());
    assert!(matches!(reader.hash_by_number(7), Err(DbError::NotFound)));
    assert!(matches!(reader.header_by_number(7), Err(DbError::NotFound)));
    assert!(matches!(reader.block_by_number(7), Err(DbError::NotFound)));
    assert!(matches!(
        reader.receipts_by_number(7),
        Err(DbError::NotFound)
    ));
}

#[test]
fn wrong_hash_lengths_are_integrity_errors() {
    for len in [31usize, 33] {
        let mut store = MemStore::new();
        store.insert(key_bytes(&DBKey::hash_by_number(1)), vec![0xaa; len]);
        let reader = GethDBReader::new(store);
        assert!(matches!(reader.hash_by_number(1), Err(DbError::Integrity)));
        assert!(matches!(
            reader.header_by_number(1),
            Err(DbError::Integrity)
        ));
        assert!(matches!(
            reader.receipts_by_number(1),
            Err(DbError::Integrity)
        ));
    }
}

#[test]
fn malformed_headers_are_decode_errors() {
    let hash = hash32(0xaa);

    // A string where the header list should be.
    let mut store = MemStore::new();
    store.insert(key_bytes(&DBKey::hash_by_number(1)), vec![0xaa; 32]);
    store.insert(
        key_bytes(&DBKey::header_lookup(&hash, 1)),
        vec![0x82, 0x01, 0x02],
    );
    let reader = GethDBReader::new(store);
    assert!(matches!(reader.header_by_number(1), Err(DbError::Decode)));

    // A list of fewer than fifteen fields.
    let mut store = MemStore::new();
    store.insert(key_bytes(&DBKey::hash_by_number(1)), vec![0xaa; 32]);
    store.insert(
        key_bytes(&DBKey::header_lookup(&hash, 1)),
        vec![0xc2, 0x80, 0x01],
    );
    let reader = GethDBReader::new(store);
    assert!(matches!(reader.header_by_number(1), Err(DbError::Decode)));
}

#[test]
fn test_leveldb() {
    // The production store is an embedded engine reached through a native
    // binding, out of this crate's scope; a freshly created store handle
    // holds nothing.
    let db = MemStore::new();
    let reader = GethDBReader::new(db);
    assert!(matches!(reader.hash_by_number(0), Err(DbError::NotFound)));
}

#[test]
fn mem_store_newer_entry_shadows_older() {
    let mut store = MemStore::new();
    store.insert(key_bytes(&DBKey::hash_by_number(5)), vec![0x11; 32]);
    store.insert(key_bytes(&DBKey::hash_by_number(5)), vec![0x22; 32]);
    let reader = GethDBReader::new(store);
    let hash = reader.hash_by_number(5).unwrap();
    assert_eq!(hash.as_bytes(), &[0x22; 32][..]);
}
