use verishda::store::{Cache, FetchError, KeyByteValueStore, MemoryStore, MetadataCache, StoreError};

#[test]
fn memory_store_set_get_delete() {
    let mut s = MemoryStore::new();
    assert_eq!(s.get("k"), Err(StoreError::NotFound));
    s.set("k", vec![1, 2, 3]).unwrap();
    s.set("j", vec![9]).unwrap();
    assert_eq!(s.get("k"), Ok(vec![1, 2, 3]));
    s.set("k", vec![4]).unwrap();
    assert_eq!(s.get("k"), Ok(vec![4]));
    s.delete("k").unwrap();
    assert_eq!(s.get("k"), Err(StoreError::NotFound));
    assert_eq!(s.get("j"), Ok(vec![9]));
}

#[test]
fn metadata_cache_entry_expires() {
    let mut c = MetadataCache::new(MemoryStore::new());
    Cache::set(&mut c, "issuer", b"{}".to_vec(), 1_000).unwrap();
    assert_eq!(Cache::get(&c, "issuer", 1_000), Some(b"{}".to_vec()));
    assert_eq!(Cache::get(&c, "issuer", 1_299), Some(b"{}".to_vec()));
    assert_eq!(Cache::get(&c, "issuer", 1_300), None);
    assert_eq!(Cache::get(&c, "other", 1_000), None);
}

#[test]
fn metadata_cache_ignores_unstamped_entries() {
    let mut store = MemoryStore::new();
    store.set("short", vec![0, 1]).unwrap();
    let c = MetadataCache::new(store);
    assert_eq!(c.fresh_entry("short", 0), None);
}

#[test]
fn fresh_payload_reads_stamp() {
    let mut raw = vec![0, 0, 0, 0, 0, 0, 1, 0];
    raw.extend_from_slice(b"abc");
    assert_eq!(verishda::store::fresh_payload(&raw, 255), Some(b"abc".to_vec()));
    assert_eq!(verishda::store::fresh_payload(&raw, 256), None);
    assert_eq!(verishda::store::fresh_payload(&vec![1, 2, 3], 0), None);
}

#[test]
fn try_get_or_else_fetches_once() {
    let mut c = MetadataCache::new(MemoryStore::new());
    let first: Result<Vec<u8>, FetchError<String>> = c.try_get_or_else("k", 10, || Ok(vec![7]));
    assert_eq!(first, Ok(vec![7]));
    let second: Result<Vec<u8>, FetchError<String>> =
        c.try_get_or_else("k", 20, || Err("must not be called".to_string()));
    assert_eq!(second, Ok(vec![7]));
    let failed: Result<Vec<u8>, FetchError<String>> =
        c.try_get_or_else("other", 20, || Err("down".to_string()));
    assert_eq!(failed, Err(FetchError::Fetch("down".to_string())));
    let stale: Result<Vec<u8>, FetchError<String>> = c.try_get_or_else("k", 310, || Ok(vec![8]));
    assert_eq!(stale, Ok(vec![8]));
}
