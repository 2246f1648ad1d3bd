//! Tests for the store adapter against the in-memory host.

use view_store::batch::{Batch, HostOperation, WriteOperation};
use view_store::memory::MemoryHost;
use view_store::policy::{check_key_size, ViewError, MAX_KEY_SIZE};
use view_store::store::AppStateStore;

fn seeded_host(pairs: &[(&[u8], &[u8])]) -> MemoryHost {
    let mut host = MemoryHost::new();
    let store = AppStateStore::default();
    let operations = pairs
        .iter()
        .map(|(k, v)| WriteOperation::Put {
            key: k.to_vec(),
            value: v.to_vec(),
        })
        .collect();
    store
        .write_batch(&mut host, Batch { operations }, b"")
        .unwrap();
    host
}

fn oversized_key() -> Vec<u8> {
    vec![7u8; MAX_KEY_SIZE + 1]
}

#[test]
fn max_key_size_is_the_documented_bound() {
    assert_eq!(MAX_KEY_SIZE, 900);
    assert_eq!(view_store::store::MAX_VALUE_SIZE, usize::MAX);
}

#[test]
fn check_key_size_boundary() {
    assert_eq!(check_key_size(&vec![0u8; MAX_KEY_SIZE]), Ok(()));
    assert_eq!(
        check_key_size(&vec![0u8; MAX_KEY_SIZE + 1]),
        Err(ViewError::KeyTooLong)
    );
    assert_eq!(check_key_size(b""), Ok(()));
}

#[test]
fn oversized_key_fails_every_entry_point_with_no_host_call() {
    let mut host = MemoryHost::new();
    let store = AppStateStore::default();
    let key = oversized_key();

    assert_eq!(
        store.contains_key(&mut host, &key),
        Err(ViewError::KeyTooLong)
    );
    assert_eq!(
        store.read_value_bytes(&mut host, &key),
        Err(ViewError::KeyTooLong)
    );
    assert_eq!(
        store.read_multi_values_bytes(&mut host, vec![b"ok".to_vec(), key.clone()]),
        Err(ViewError::KeyTooLong)
    );
    assert_eq!(
        store.find_keys_by_prefix(&mut host, &key),
        Err(ViewError::KeyTooLong)
    );
    assert_eq!(
        store.find_key_values_by_prefix(&mut host, &key),
        Err(ViewError::KeyTooLong)
    );
    let batch = Batch {
        operations: vec![WriteOperation::Delete { key: key.clone() }],
    };
    assert_eq!(
        store.write_batch(&mut host, batch, b""),
        Err(ViewError::KeyTooLong)
    );
    assert_eq!(host.call_count(), 0);
    assert_eq!(host.yield_count(), 0);
}

#[test]
fn longest_accepted_key_round_trips() {
    let mut host = MemoryHost::new();
    let store = AppStateStore::default();
    let key = vec![9u8; MAX_KEY_SIZE];
    let batch = Batch {
        operations: vec![WriteOperation::Put {
            key: key.clone(),
            value: b"v".to_vec(),
        }],
    };
    assert_eq!(store.write_batch(&mut host, batch, b""), Ok(()));
    assert_eq!(store.contains_key(&mut host, &key), Ok(true));
    assert_eq!(
        store.read_value_bytes(&mut host, &key),
        Ok(Some(b"v".to_vec()))
    );
}

#[test]
fn contains_key_costs_one_call_and_one_suspension() {
    let mut host = seeded_host(&[(b"k", b"v")]);
    let store = AppStateStore::default();
    let calls = host.call_count();
    let yields = host.yield_count();

    assert_eq!(store.contains_key(&mut host, b"k"), Ok(true));
    assert_eq!(host.call_count(), calls + 1);
    assert_eq!(host.yield_count(), yields + 1);

    assert_eq!(store.contains_key(&mut host, b"absent"), Ok(false));
    assert_eq!(host.call_count(), calls + 2);
    assert_eq!(host.yield_count(), yields + 2);
}

#[test]
fn read_value_costs_one_call_and_one_suspension() {
    let mut host = seeded_host(&[(b"k", b"v")]);
    let store = AppStateStore::default();
    let calls = host.call_count();
    let yields = host.yield_count();

    assert_eq!(
        store.read_value_bytes(&mut host, b"k"),
        Ok(Some(b"v".to_vec()))
    );
    assert_eq!(store.read_value_bytes(&mut host, b"nope"), Ok(None));
    assert_eq!(host.call_count(), calls + 2);
    assert_eq!(host.yield_count(), yields + 2);
}

#[test]
fn read_multi_values_keeps_length_and_order() {
    let mut host = seeded_host(&[(b"a", b"1"), (b"c", b"3")]);
    let store = AppStateStore::default();
    let calls = host.call_count();

    let got = store
        .read_multi_values_bytes(
            &mut host,
            vec![b"a".to_vec(), b"b".to_vec(), b"c".to_vec()],
        )
        .unwrap();
    assert_eq!(
        got,
        vec![Some(b"1".to_vec()), None, Some(b"3".to_vec())]
    );
    assert_eq!(host.call_count(), calls + 1);

    let empty = store.read_multi_values_bytes(&mut host, vec![]).unwrap();
    assert_eq!(empty, Vec::<Option<Vec<u8>>>::new());
}

#[test]
fn translated_batch_preserves_order() {
    let batch = Batch {
        operations: vec![
            WriteOperation::Put {
                key: b"a".to_vec(),
                value: vec![1],
            },
            WriteOperation::Delete { key: b"a".to_vec() },
        ],
    };
    let ops = view_store::batch::translate_batch(&batch).unwrap();
    assert_eq!(
        ops,
        vec![
            HostOperation::Put {
                key: b"a".to_vec(),
                value: vec![1],
            },
            HostOperation::Delete { key: b"a".to_vec() },
        ]
    );
}

#[test]
fn put_then_delete_nets_to_deleted() {
    let mut host = MemoryHost::new();
    let store = AppStateStore::default();
    let batch = Batch {
        operations: vec![
            WriteOperation::Put {
                key: b"a".to_vec(),
                value: vec![1],
            },
            WriteOperation::Delete { key: b"a".to_vec() },
        ],
    };
    assert_eq!(store.write_batch(&mut host, batch, b""), Ok(()));
    assert_eq!(store.contains_key(&mut host, b"a"), Ok(false));
    assert_eq!(store.read_value_bytes(&mut host, b"a"), Ok(None));
}

#[test]
fn delete_then_put_nets_to_present() {
    let mut host = MemoryHost::new();
    let store = AppStateStore::default();
    let batch = Batch {
        operations: vec![
            WriteOperation::Delete { key: b"a".to_vec() },
            WriteOperation::Put {
                key: b"a".to_vec(),
                value: vec![1],
            },
        ],
    };
    assert_eq!(store.write_batch(&mut host, batch, b""), Ok(()));
    assert_eq!(store.read_value_bytes(&mut host, b"a"), Ok(Some(vec![1])));
}

#[test]
fn oversized_batch_key_rejects_whole_batch_with_no_host_call() {
    let mut host = seeded_host(&[(b"keep", b"v")]);
    let store = AppStateStore::default();
    let calls = host.call_count();
    let batch = Batch {
        operations: vec![
            WriteOperation::Put {
                key: b"fine".to_vec(),
                value: b"x".to_vec(),
            },
            WriteOperation::DeletePrefix {
                key_prefix: oversized_key(),
            },
        ],
    };
    assert_eq!(
        store.write_batch(&mut host, batch, b""),
        Err(ViewError::KeyTooLong)
    );
    assert_eq!(host.call_count(), calls);
    assert_eq!(store.contains_key(&mut host, b"fine"), Ok(false));
    assert_eq!(store.contains_key(&mut host, b"keep"), Ok(true));
}

#[test]
fn clear_journal_succeeds_with_no_host_call() {
    let mut host = MemoryHost::new();
    let store = AppStateStore::default();
    assert_eq!(store.clear_journal(&mut host, b""), Ok(()));
    assert_eq!(store.clear_journal(&mut host, b"base"), Ok(()));
    assert_eq!(host.call_count(), 0);
    assert_eq!(host.yield_count(), 0);
}

#[test]
fn repeated_contains_key_answers_alike_with_two_calls() {
    let mut host = seeded_host(&[(b"k", b"v")]);
    let store = AppStateStore::default();
    let calls = host.call_count();

    let first = store.contains_key(&mut host, b"k").unwrap();
    let second = store.contains_key(&mut host, b"k").unwrap();
    assert_eq!(first, second);
    assert_eq!(host.call_count(), calls + 2);
}

#[test]
fn empty_batch_is_accepted_and_submitted_once() {
    let mut host = MemoryHost::new();
    let store = AppStateStore::default();
    let batch = Batch { operations: vec![] };
    assert_eq!(store.write_batch(&mut host, batch, b""), Ok(()));
    assert_eq!(host.call_count(), 1);
    assert_eq!(host.yield_count(), 0);
}

#[test]
fn read_multi_values_repeats_answers_for_repeated_keys() {
    let mut host = seeded_host(&[(b"k", b"v")]);
    let store = AppStateStore::default();
    let got = store
        .read_multi_values_bytes(&mut host, vec![b"k".to_vec(), b"k".to_vec()])
        .unwrap();
    assert_eq!(got, vec![Some(b"v".to_vec()), Some(b"v".to_vec())]);
}

#[test]
fn empty_key_is_a_valid_key() {
    let mut host = MemoryHost::new();
    let store = AppStateStore::default();
    let batch = Batch {
        operations: vec![WriteOperation::Put {
            key: vec![],
            value: b"root".to_vec(),
        }],
    };
    assert_eq!(store.write_batch(&mut host, batch, b""), Ok(()));
    assert_eq!(
        store.read_value_bytes(&mut host, b""),
        Ok(Some(b"root".to_vec()))
    );
}

#[test]
fn max_stream_queries_is_one() {
    let store = AppStateStore::default();
    assert_eq!(store.max_stream_queries(), 1);
}
