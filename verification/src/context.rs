//! The storage context: a zero-state composite that pairs an empty metadata
//! value with a store adapter, for higher-level state containers that consume
//! a generic context.  It adds no behaviour beyond delegation.

use vstd::prelude::*;

use crate::batch::{ops_view, Batch};
use crate::host::Host;
use crate::kv::{
    apply_ops, entries_map, is_prefix, keys_view, lookup, opt_bytes, ops_valid, prefixed_keys,
    uniq_keys, HostCall,
};
use crate::policy::{valid_key, ViewError};
use crate::store::{all_keys_valid, AppStateStore};

verus! {

/// Binds the empty extra value to a store adapter, to be used for data
/// storage by applications.  The extra metadata is empty, so the adapter is
/// the whole of its state.
#[derive(Default, Clone)]
pub struct ViewStorageContext {
    pub store: AppStateStore,
}

impl ViewStorageContext {
    /// Whether the store holds `key`; delegates to the adapter.
    pub fn contains_key<H: Host>(&self, host: &mut H, key: &[u8]) -> (r: Result<bool, ViewError>)
        requires
            old(host).inv(),
        ensures
            final(host).inv(),
            final(host).store() == old(host).store(),
            valid_key(key@) ==> {
                &&& r == Ok::<bool, ViewError>(old(host).store().contains_key(key@))
                &&& final(host).log() == old(host).log().push(HostCall::ContainsKey { key: key@ })
                &&& final(host).yields() == old(host).yields() + 1
            },
            !valid_key(key@) ==> {
                &&& r == Err::<bool, ViewError>(ViewError::KeyTooLong)
                &&& final(host).log() == old(host).log()
                &&& final(host).yields() == old(host).yields()
            },
    {
        self.store.contains_key(host, key)
    }

    /// The value stored under `key`, if any; delegates to the adapter.
    pub fn read_value_bytes<H: Host>(&self, host: &mut H, key: &[u8]) -> (r: Result<
        Option<Vec<u8>>,
        ViewError,
    >)
        requires
            old(host).inv(),
        ensures
            final(host).inv(),
            final(host).store() == old(host).store(),
            valid_key(key@) ==> match r {
                Ok(v) => {
                    &&& opt_bytes(v) == lookup(old(host).store(), key@)
                    &&& final(host).log() == old(host).log().push(HostCall::ReadValue { key: key@ })
                    &&& final(host).yields() == old(host).yields() + 1
                },
                Err(_) => false,
            },
            !valid_key(key@) ==> {
                &&& r == Err::<Option<Vec<u8>>, ViewError>(ViewError::KeyTooLong)
                &&& final(host).log() == old(host).log()
                &&& final(host).yields() == old(host).yields()
            },
    {
        self.store.read_value_bytes(host, key)
    }

    /// One optional value per key, in input order; delegates to the adapter.
    pub fn read_multi_values_bytes<H: Host>(&self, host: &mut H, keys: Vec<Vec<u8>>) -> (r: Result<
        Vec<Option<Vec<u8>>>,
        ViewError,
    >)
        requires
            old(host).inv(),
        ensures
            final(host).inv(),
            final(host).store() == old(host).store(),
            all_keys_valid(keys_view(keys@)) ==> match r {
                Ok(values) => {
                    &&& values@.len() == keys@.len()
                    &&& forall|i: int|
                        0 <= i < values@.len() ==> opt_bytes(values@[i]) == lookup(
                            old(host).store(),
                            keys@[i]@,
                        )
                    &&& final(host).log() == old(host).log().push(
                        HostCall::ReadMultiValues { keys: keys_view(keys@) },
                    )
                    &&& final(host).yields() == old(host).yields() + 1
                },
                Err(_) => false,
            },
            !all_keys_valid(keys_view(keys@)) ==> {
                &&& r == Err::<Vec<Option<Vec<u8>>>, ViewError>(ViewError::KeyTooLong)
                &&& final(host).log() == old(host).log()
                &&& final(host).yields() == old(host).yields()
            },
    {
        self.store.read_multi_values_bytes(host, keys)
    }

    /// Every stored key carrying the prefix; delegates to the adapter.
    pub fn find_keys_by_prefix<H: Host>(&self, host: &mut H, key_prefix: &[u8]) -> (r: Result<
        Vec<Vec<u8>>,
        ViewError,
    >)
        requires
            old(host).inv(),
        ensures
            final(host).inv(),
            final(host).store() == old(host).store(),
            valid_key(key_prefix@) ==> match r {
                Ok(found) => {
                    &&& keys_view(found@).no_duplicates()
                    &&& forall|k: Seq<u8>|
                        #[trigger] keys_view(found@).contains(k) <==> (old(
                            host,
                        ).store().contains_key(k) && is_prefix(key_prefix@, k))
                    &&& final(host).log() == old(host).log().push(
                        HostCall::FindKeys { key_prefix: key_prefix@ },
                    )
                    &&& final(host).yields() == old(host).yields() + 1
                },
                Err(_) => false,
            },
            !valid_key(key_prefix@) ==> {
                &&& r == Err::<Vec<Vec<u8>>, ViewError>(ViewError::KeyTooLong)
                &&& final(host).log() == old(host).log()
                &&& final(host).yields() == old(host).yields()
            },
    {
        self.store.find_keys_by_prefix(host, key_prefix)
    }

    /// Every stored pair whose key carries the prefix; delegates to the
    /// adapter.
    pub fn find_key_values_by_prefix<H: Host>(&self, host: &mut H, key_prefix: &[u8]) -> (r: Result<
        Vec<(Vec<u8>, Vec<u8>)>,
        ViewError,
    >)
        requires
            old(host).inv(),
        ensures
            final(host).inv(),
            final(host).store() == old(host).store(),
            valid_key(key_prefix@) ==> match r {
                Ok(found) => {
                    &&& uniq_keys(found@)
                    &&& entries_map(found@) == old(host).store().restrict(
                        prefixed_keys(key_prefix@),
                    )
                    &&& final(host).log() == old(host).log().push(
                        HostCall::FindKeyValues { key_prefix: key_prefix@ },
                    )
                    &&& final(host).yields() == old(host).yields() + 1
                },
                Err(_) => false,
            },
            !valid_key(key_prefix@) ==> {
                &&& r == Err::<Vec<(Vec<u8>, Vec<u8>)>, ViewError>(ViewError::KeyTooLong)
                &&& final(host).log() == old(host).log()
                &&& final(host).yields() == old(host).yields()
            },
    {
        self.store.find_key_values_by_prefix(host, key_prefix)
    }

    /// Submits a write batch; delegates to the adapter.
    pub fn write_batch<H: Host>(&self, host: &mut H, batch: Batch, base_key: &[u8]) -> (r: Result<
        (),
        ViewError,
    >)
        requires
            old(host).inv(),
        ensures
            final(host).inv(),
            ops_valid(ops_view(batch.operations@)) ==> {
                &&& r == Ok::<(), ViewError>(())
                &&& final(host).store() == apply_ops(
                    old(host).store(),
                    ops_view(batch.operations@),
                )
                &&& final(host).log() == old(host).log().push(
                    HostCall::WriteBatch { operations: ops_view(batch.operations@) },
                )
                &&& final(host).yields() == old(host).yields()
            },
            !ops_valid(ops_view(batch.operations@)) ==> {
                &&& r == Err::<(), ViewError>(ViewError::KeyTooLong)
                &&& final(host).store() == old(host).store()
                &&& final(host).log() == old(host).log()
                &&& final(host).yields() == old(host).yields()
            },
    {
        self.store.write_batch(host, batch, base_key)
    }

    /// Clears the (absent) journal; delegates to the adapter.
    pub fn clear_journal<H: Host>(&self, host: &mut H, base_key: &[u8]) -> (r: Result<
        (),
        ViewError,
    >)
        requires
            old(host).inv(),
        ensures
            final(host).inv(),
            r == Ok::<(), ViewError>(()),
            final(host).store() == old(host).store(),
            final(host).log() == old(host).log(),
            final(host).yields() == old(host).yields(),
    {
        self.store.clear_journal(host, base_key)
    }
}

} // verus!
