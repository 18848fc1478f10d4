use sfx_instant::extractor::{extract_binary, read_block_count, read_custom_string, ExtractError};
use sfx_instant::embedder::{
    embed_binary_as_archive, embed_block_count, embed_custom_string, embed_package, embed_payload,
};
use sfx_instant::store::{ResKey, ResVal, ResourceStore};

fn sample_payload(len: usize) -> Vec<u8> {
    let mut p = Vec::with_capacity(len);
    for i in 0..len {
        p.push((i % 251) as u8);
    }
    p
}

fn block_len(store: &ResourceStore, index: u32) -> Option<usize> {
    match store.get(&ResKey::Index(index)) {
        Some(ResVal::Bytes(b)) => Some(b.len()),
        _ => None,
    }
}

#[test]
fn embed_2500_bytes_yields_three_blocks() {
    let payload = sample_payload(2500);
    let mut store = ResourceStore::new();
    let count = embed_binary_as_archive(&mut store, payload.as_slice());
    assert_eq!(count, 3);
    assert_eq!(block_len(&store, 0), Some(1000));
    assert_eq!(block_len(&store, 1), Some(1000));
    assert_eq!(block_len(&store, 2), Some(500));
    assert_eq!(block_len(&store, 3), None);
    assert_eq!(read_block_count(&store), Ok(3));
    let out = extract_binary(&store, 3, false).unwrap();
    assert_eq!(out, payload);
}

#[test]
fn embed_then_extract_various_sizes() {
    for len in [1usize, 999, 1000, 1001, 2000, 3333] {
        let payload = sample_payload(len);
        let mut store = ResourceStore::new();
        let count = embed_binary_as_archive(&mut store, payload.as_slice());
        assert_eq!(count as usize, (len + 999) / 1000);
        assert_eq!(read_block_count(&store), Ok(count));
        let out = extract_binary(&store, count, false).unwrap();
        assert_eq!(out, payload);
    }
}

#[test]
fn empty_payload_yields_zero_blocks_and_empty_file() {
    let mut store = ResourceStore::new();
    let count = embed_binary_as_archive(&mut store, &[]);
    assert_eq!(count, 0);
    assert_eq!(read_block_count(&store), Ok(0));
    let out = extract_binary(&store, 0, false).unwrap();
    assert!(out.is_empty());
}

#[test]
fn count_entry_follows_all_blocks_in_write_order() {
    let payload = sample_payload(2500);
    let mut store = ResourceStore::new();
    embed_binary_as_archive(&mut store, payload.as_slice());
    assert_eq!(store.len(), 4);
    for i in 0..3u32 {
        match &store.entry(i as usize).0 {
            ResKey::Index(j) => assert_eq!(*j, i),
            _ => panic!("expected a block entry"),
        }
    }
    assert!(matches!(store.entry(3).0, ResKey::Count));
}

#[test]
fn embed_payload_alone_writes_no_count() {
    let payload = sample_payload(1500);
    let mut store = ResourceStore::new();
    let count = embed_payload(&mut store, payload.as_slice());
    assert_eq!(count, 2);
    assert_eq!(read_block_count(&store), Err(()));
    embed_block_count(&mut store, &count);
    assert_eq!(read_block_count(&store), Ok(2));
}

#[test]
fn read_block_count_fails_without_count_entry() {
    let store = ResourceStore::new();
    assert_eq!(read_block_count(&store), Err(()));
}

#[test]
fn read_block_count_fails_on_non_numeric_count() {
    let mut store = ResourceStore::new();
    store.put(ResKey::Count, ResVal::Text(String::from("many")));
    assert_eq!(read_block_count(&store), Err(()));
    store.put(ResKey::Count, ResVal::Text(String::from("")));
    assert_eq!(read_block_count(&store), Err(()));
    store.put(ResKey::Count, ResVal::Text(String::from("7")));
    assert_eq!(read_block_count(&store), Ok(7));
}

#[test]
fn custom_string_round_trip() {
    let mut store = ResourceStore::new();
    let key = String::from("entrypoint");
    let value = String::from("bin/start.exe");
    embed_custom_string(&mut store, &key, &value);
    assert_eq!(read_custom_string(&store, &key), Some(value));
    let unwritten = String::from("other");
    assert_eq!(read_custom_string(&store, &unwritten), None);
}

#[test]
fn custom_string_overwrite_returns_last_value() {
    let mut store = ResourceStore::new();
    let key = String::from("k");
    embed_custom_string(&mut store, &key, &String::from("first"));
    embed_custom_string(&mut store, &key, &String::from("second"));
    assert_eq!(read_custom_string(&store, &key), Some(String::from("second")));
}

#[test]
fn extract_refuses_existing_destination() {
    let payload = sample_payload(100);
    let mut store = ResourceStore::new();
    let count = embed_binary_as_archive(&mut store, payload.as_slice());
    assert_eq!(
        extract_binary(&store, count, true),
        Err(ExtractError::DestinationExists)
    );
}

#[test]
fn extract_fails_on_missing_block() {
    let payload = sample_payload(1500);
    let mut store = ResourceStore::new();
    let count = embed_binary_as_archive(&mut store, payload.as_slice());
    assert_eq!(count, 2);
    assert_eq!(
        extract_binary(&store, 3, false),
        Err(ExtractError::MissingBlock)
    );
}

#[test]
fn extract_with_smaller_count_truncates() {
    let payload = sample_payload(2500);
    let mut store = ResourceStore::new();
    embed_binary_as_archive(&mut store, payload.as_slice());
    let out = extract_binary(&store, 2, false).unwrap();
    assert_eq!(out, payload[..2000].to_vec());
}

#[test]
fn package_carries_marker_and_app_id_together() {
    let payload = sample_payload(42);
    let mut store = ResourceStore::new();
    let app_id = String::from("Acme.App");
    let count = embed_package(&mut store, payload.as_slice(), &app_id);
    assert_eq!(count, 1);
    let marker_key = String::from("SFX_INSTANT_FLAG__PACKAGE_ARCHIVE");
    let id_key = String::from("SFX_INSTANT_FLAG__APP_ID");
    assert_eq!(
        read_custom_string(&store, &marker_key),
        Some(String::from("SFX_INSTANT_FLAG__PACKAGE_ARCHIVE"))
    );
    assert_eq!(read_custom_string(&store, &id_key), Some(String::from("Acme.App")));
    assert_eq!(read_block_count(&store), Ok(1));
    let out = extract_binary(&store, 1, false).unwrap();
    assert_eq!(out, payload);
}
