//! Tests for prefix scans, prefix deletion, and the context wrapper.

use view_store::batch::{Batch, WriteOperation};
use view_store::bytes::{bytes_eq, is_prefix_of};
use view_store::context::ViewStorageContext;
use view_store::memory::MemoryHost;
use view_store::policy::ViewError;
use view_store::store::AppStateStore;

fn put(key: &[u8], value: &[u8]) -> WriteOperation {
    WriteOperation::Put {
        key: key.to_vec(),
        value: value.to_vec(),
    }
}

fn seeded_host(pairs: &[(&[u8], &[u8])]) -> MemoryHost {
    let mut host = MemoryHost::new();
    let store = AppStateStore::default();
    let operations = pairs.iter().map(|(k, v)| put(k, v)).collect();
    store
        .write_batch(&mut host, Batch { operations }, b"")
        .unwrap();
    host
}

#[test]
fn find_keys_by_prefix_returns_exactly_the_prefixed_keys() {
    let mut host = seeded_host(&[(b"ab", b"1"), (b"ac", b"2"), (b"b", b"3")]);
    let store = AppStateStore::default();
    let calls = host.call_count();

    let mut keys = store.find_keys_by_prefix(&mut host, b"a").unwrap();
    keys.sort();
    assert_eq!(keys, vec![b"ab".to_vec(), b"ac".to_vec()]);
    assert_eq!(host.call_count(), calls + 1);

    let none = store.find_keys_by_prefix(&mut host, b"zz").unwrap();
    assert_eq!(none, Vec::<Vec<u8>>::new());

    let mut all = store.find_keys_by_prefix(&mut host, b"").unwrap();
    all.sort();
    assert_eq!(all, vec![b"ab".to_vec(), b"ac".to_vec(), b"b".to_vec()]);
}

#[test]
fn find_key_values_by_prefix_returns_the_prefixed_pairs() {
    let mut host = seeded_host(&[(b"ab", b"1"), (b"ac", b"2"), (b"b", b"3")]);
    let store = AppStateStore::default();

    let mut pairs = store.find_key_values_by_prefix(&mut host, b"a").unwrap();
    pairs.sort();
    assert_eq!(
        pairs,
        vec![
            (b"ab".to_vec(), b"1".to_vec()),
            (b"ac".to_vec(), b"2".to_vec()),
        ]
    );
}

#[test]
fn put_overwrites_earlier_value() {
    let mut host = seeded_host(&[(b"k", b"old")]);
    let store = AppStateStore::default();
    let batch = Batch {
        operations: vec![put(b"k", b"new")],
    };
    store.write_batch(&mut host, batch, b"").unwrap();
    assert_eq!(
        store.read_value_bytes(&mut host, b"k"),
        Ok(Some(b"new".to_vec()))
    );
    let keys = store.find_keys_by_prefix(&mut host, b"k").unwrap();
    assert_eq!(keys.len(), 1);
}

#[test]
fn delete_prefix_removes_exactly_the_prefixed_keys() {
    let mut host = seeded_host(&[(b"ab", b"1"), (b"ac", b"2"), (b"b", b"3")]);
    let store = AppStateStore::default();
    let batch = Batch {
        operations: vec![WriteOperation::DeletePrefix {
            key_prefix: b"a".to_vec(),
        }],
    };
    store.write_batch(&mut host, batch, b"").unwrap();
    assert_eq!(store.contains_key(&mut host, b"ab"), Ok(false));
    assert_eq!(store.contains_key(&mut host, b"ac"), Ok(false));
    assert_eq!(store.contains_key(&mut host, b"b"), Ok(true));
}

#[test]
fn context_delegates_to_the_adapter() {
    let mut host = MemoryHost::new();
    let context = ViewStorageContext::default();
    let batch = Batch {
        operations: vec![put(b"k", b"v")],
    };
    assert_eq!(context.write_batch(&mut host, batch, b""), Ok(()));
    assert_eq!(context.contains_key(&mut host, b"k"), Ok(true));
    assert_eq!(
        context.read_value_bytes(&mut host, b"k"),
        Ok(Some(b"v".to_vec()))
    );
    assert_eq!(
        context
            .read_multi_values_bytes(&mut host, vec![b"k".to_vec(), b"q".to_vec()])
            .unwrap(),
        vec![Some(b"v".to_vec()), None]
    );
    assert_eq!(
        context.find_keys_by_prefix(&mut host, b"k").unwrap(),
        vec![b"k".to_vec()]
    );
    assert_eq!(
        context.find_key_values_by_prefix(&mut host, b"k").unwrap(),
        vec![(b"k".to_vec(), b"v".to_vec())]
    );
    assert_eq!(context.clear_journal(&mut host, b""), Ok(()));
    let oversized = vec![0u8; 901];
    assert_eq!(
        context.contains_key(&mut host, &oversized),
        Err(ViewError::KeyTooLong)
    );
}

#[test]
fn byte_helpers_compare_and_test_prefixes() {
    assert!(bytes_eq(b"abc", b"abc"));
    assert!(!bytes_eq(b"abc", b"abd"));
    assert!(!bytes_eq(b"abc", b"ab"));
    assert!(is_prefix_of(b"", b"abc"));
    assert!(is_prefix_of(b"ab", b"abc"));
    assert!(!is_prefix_of(b"abc", b"ab"));
    assert!(!is_prefix_of(b"ax", b"abc"));
}
