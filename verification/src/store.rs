//! The store adapter: the read and write capability sets a guest uses to
//! reach the host's persistent store.
//!
//! Every operation validates all of its keys against the key-size policy
//! before issuing any host call; a violation short-circuits with
//! [`ViewError::KeyTooLong`] and no round trip.  Each read then issues one
//! host call, suspends exactly once, and resolves its promise; a write batch
//! is translated first and submitted in one host call.

use vstd::prelude::*;

use crate::batch::{ops_view, translate_batch, Batch};
use crate::host::Host;
use crate::kv::{apply_ops, is_prefix, keys_view, lookup, opt_bytes, ops_valid, uniq_keys,
    entries_map, prefixed_keys, HostCall};
use crate::policy::{check_key_size, valid_key, ViewError};

verus! {

/// The adapter imposes no bound of its own on value sizes: any limit is the
/// host's to enforce.
pub const MAX_VALUE_SIZE: usize = usize::MAX;

/// Whether every key of a list fits the key budget.
pub open spec fn all_keys_valid(keys: Seq<Seq<u8>>) -> bool {
    forall|i: int| 0 <= i < keys.len() ==> valid_key(keys[i])
}

/// A type to interface with the key value storage provided to applications.
///
/// The adapter holds no state of its own: every operation is a single-shot
/// request/response exchange with the host handed in by the caller.
#[derive(Default, Clone)]
pub struct AppStateStore;

impl AppStateStore {
    /// Scan-style queries are issued strictly one at a time.
    pub fn max_stream_queries(&self) -> (r: usize)
        ensures
            r == 1,
    {
        1
    }

    /// Whether the store holds `key`.  An oversized key fails before any
    /// host call; a valid key costs one host call and one suspension.
    pub fn contains_key<H: Host>(&self, host: &mut H, key: &[u8]) -> (r: Result<bool, ViewError>)
        requires
            old(host).inv(),
        ensures
            final(host).inv(),
            final(host).store() == old(host).store(),
            valid_key(key@) ==> {
                &&& r == Ok::<bool, ViewError>(old(host).store().contains_key(key@))
                &&& final(host).log() == old(host).log().push(HostCall::ContainsKey { key: key@ })
                &&& final(host).yields() == old(host).yields() + 1
            },
            !valid_key(key@) ==> {
                &&& r == Err::<bool, ViewError>(ViewError::KeyTooLong)
                &&& final(host).log() == old(host).log()
                &&& final(host).yields() == old(host).yields()
            },
    {
        match check_key_size(key) {
            Ok(()) => {},
            Err(e) => {
                return Err(e);
            },
        }
        let promise = host.new_contains_key(key);
        host.yield_once();
        Ok(host.wait_contains_key(promise))
    }

    /// The value stored under `key`, if any.  An oversized key fails before
    /// any host call; a valid key costs one host call and one suspension.
    pub fn read_value_bytes<H: Host>(&self, host: &mut H, key: &[u8]) -> (r: Result<
        Option<Vec<u8>>,
        ViewError,
    >)
        requires
            old(host).inv(),
        ensures
            final(host).inv(),
            final(host).store() == old(host).store(),
            valid_key(key@) ==> match r {
                Ok(v) => {
                    &&& opt_bytes(v) == lookup(old(host).store(), key@)
                    &&& final(host).log() == old(host).log().push(HostCall::ReadValue { key: key@ })
                    &&& final(host).yields() == old(host).yields() + 1
                },
                Err(_) => false,
            },
            !valid_key(key@) ==> {
                &&& r == Err::<Option<Vec<u8>>, ViewError>(ViewError::KeyTooLong)
                &&& final(host).log() == old(host).log()
                &&& final(host).yields() == old(host).yields()
            },
    {
        match check_key_size(key) {
            Ok(()) => {},
            Err(e) => {
                return Err(e);
            },
        }
        let promise = host.new_read_value(key);
        host.yield_once();
        Ok(host.wait_read_value(promise))
    }

    /// One optional value per key, in input order; an absent key yields an
    /// absent value, never an error.  Every key is validated before any host
    /// call is issued: one oversized key rejects the whole read with no
    /// round trip.
    pub fn read_multi_values_bytes<H: Host>(&self, host: &mut H, keys: Vec<Vec<u8>>) -> (r: Result<
        Vec<Option<Vec<u8>>>,
        ViewError,
    >)
        requires
            old(host).inv(),
        ensures
            final(host).inv(),
            final(host).store() == old(host).store(),
            all_keys_valid(keys_view(keys@)) ==> match r {
                Ok(values) => {
                    &&& values@.len() == keys@.len()
                    &&& forall|i: int|
                        0 <= i < values@.len() ==> opt_bytes(values@[i]) == lookup(
                            old(host).store(),
                            keys@[i]@,
                        )
                    &&& final(host).log() == old(host).log().push(
                        HostCall::ReadMultiValues { keys: keys_view(keys@) },
                    )
                    &&& final(host).yields() == old(host).yields() + 1
                },
                Err(_) => false,
            },
            !all_keys_valid(keys_view(keys@)) ==> {
                &&& r == Err::<Vec<Option<Vec<u8>>>, ViewError>(ViewError::KeyTooLong)
                &&& final(host).log() == old(host).log()
                &&& final(host).yields() == old(host).yields()
            },
    {
        let n = keys.len();
        let mut i: usize = 0;
        while i < n
            invariant
                i <= n,
                n == keys@.len(),
                *host == *old(host),
                host.inv(),
                forall|j: int| 0 <= j < i ==> valid_key(keys_view(keys@)[j]),
            decreases n - i,
        {
            match check_key_size(keys[i].as_slice()) {
                Ok(()) => {},
                Err(e) => {
                    proof {
                        assert(!valid_key(keys_view(keys@)[i as int]));
                    }
                    return Err(e);
                },
            }
            i = i + 1;
        }
        let promise = host.new_read_multi_values(keys);
        host.yield_once();
        Ok(host.wait_read_multi_values(promise))
    }

    /// Every stored key that carries `key_prefix`, each once.  An oversized
    /// prefix fails before any host call.
    pub fn find_keys_by_prefix<H: Host>(&self, host: &mut H, key_prefix: &[u8]) -> (r: Result<
        Vec<Vec<u8>>,
        ViewError,
    >)
        requires
            old(host).inv(),
        ensures
            final(host).inv(),
            final(host).store() == old(host).store(),
            valid_key(key_prefix@) ==> match r {
                Ok(found) => {
                    &&& keys_view(found@).no_duplicates()
                    &&& forall|k: Seq<u8>|
                        #[trigger] keys_view(found@).contains(k) <==> (old(
                            host,
                        ).store().contains_key(k) && is_prefix(key_prefix@, k))
                    &&& final(host).log() == old(host).log().push(
                        HostCall::FindKeys { key_prefix: key_prefix@ },
                    )
                    &&& final(host).yields() == old(host).yields() + 1
                },
                Err(_) => false,
            },
            !valid_key(key_prefix@) ==> {
                &&& r == Err::<Vec<Vec<u8>>, ViewError>(ViewError::KeyTooLong)
                &&& final(host).log() == old(host).log()
                &&& final(host).yields() == old(host).yields()
            },
    {
        match check_key_size(key_prefix) {
            Ok(()) => {},
            Err(e) => {
                return Err(e);
            },
        }
        Ok(self.find_keys_by_prefix_load(host, key_prefix))
    }

    /// Every stored key/value pair whose key carries `key_prefix`, with no
    /// repeated key.  An oversized prefix fails before any host call.
    pub fn find_key_values_by_prefix<H: Host>(&self, host: &mut H, key_prefix: &[u8]) -> (r: Result<
        Vec<(Vec<u8>, Vec<u8>)>,
        ViewError,
    >)
        requires
            old(host).inv(),
        ensures
            final(host).inv(),
            final(host).store() == old(host).store(),
            valid_key(key_prefix@) ==> match r {
                Ok(found) => {
                    &&& uniq_keys(found@)
                    &&& entries_map(found@) == old(host).store().restrict(
                        prefixed_keys(key_prefix@),
                    )
                    &&& final(host).log() == old(host).log().push(
                        HostCall::FindKeyValues { key_prefix: key_prefix@ },
                    )
                    &&& final(host).yields() == old(host).yields() + 1
                },
                Err(_) => false,
            },
            !valid_key(key_prefix@) ==> {
                &&& r == Err::<Vec<(Vec<u8>, Vec<u8>)>, ViewError>(ViewError::KeyTooLong)
                &&& final(host).log() == old(host).log()
                &&& final(host).yields() == old(host).yields()
            },
    {
        match check_key_size(key_prefix) {
            Ok(()) => {},
            Err(e) => {
                return Err(e);
            },
        }
        Ok(self.find_key_values_by_prefix_load(host, key_prefix))
    }

    /// Issues the key scan, suspends once, and resolves it.  The prefix is
    /// already validated by the public entry point.
    fn find_keys_by_prefix_load<H: Host>(&self, host: &mut H, key_prefix: &[u8]) -> (r: Vec<
        Vec<u8>,
    >)
        requires
            old(host).inv(),
        ensures
            final(host).inv(),
            final(host).store() == old(host).store(),
            final(host).log() == old(host).log().push(
                HostCall::FindKeys { key_prefix: key_prefix@ },
            ),
            final(host).yields() == old(host).yields() + 1,
            keys_view(r@).no_duplicates(),
            forall|k: Seq<u8>|
                #[trigger] keys_view(r@).contains(k) <==> (old(host).store().contains_key(k)
                    && is_prefix(key_prefix@, k)),
    {
        let promise = host.new_find_keys(key_prefix);
        host.yield_once();
        host.wait_find_keys(promise)
    }

    /// Issues the key/value scan, suspends once, and resolves it.  The
    /// prefix is already validated by the public entry point.
    fn find_key_values_by_prefix_load<H: Host>(&self, host: &mut H, key_prefix: &[u8]) -> (r: Vec<
        (Vec<u8>, Vec<u8>),
    >)
        requires
            old(host).inv(),
        ensures
            final(host).inv(),
            final(host).store() == old(host).store(),
            final(host).log() == old(host).log().push(
                HostCall::FindKeyValues { key_prefix: key_prefix@ },
            ),
            final(host).yields() == old(host).yields() + 1,
            uniq_keys(r@),
            entries_map(r@) == old(host).store().restrict(prefixed_keys(key_prefix@)),
    {
        let promise = host.new_find_key_values(key_prefix);
        host.yield_once();
        host.wait_find_key_values(promise)
    }

    /// Translates the batch and, when every key and key-prefix fits the key
    /// budget, submits it in exactly one host call, applied in order and
    /// with no suspension.  Otherwise fails with `KeyTooLong` and the host's
    /// write primitive is never invoked.
    pub fn write_batch<H: Host>(&self, host: &mut H, batch: Batch, _base_key: &[u8]) -> (r: Result<
        (),
        ViewError,
    >)
        requires
            old(host).inv(),
        ensures
            final(host).inv(),
            ops_valid(ops_view(batch.operations@)) ==> {
                &&& r == Ok::<(), ViewError>(())
                &&& final(host).store() == apply_ops(
                    old(host).store(),
                    ops_view(batch.operations@),
                )
                &&& final(host).log() == old(host).log().push(
                    HostCall::WriteBatch { operations: ops_view(batch.operations@) },
                )
                &&& final(host).yields() == old(host).yields()
            },
            !ops_valid(ops_view(batch.operations@)) ==> {
                &&& r == Err::<(), ViewError>(ViewError::KeyTooLong)
                &&& final(host).store() == old(host).store()
                &&& final(host).log() == old(host).log()
                &&& final(host).yields() == old(host).yields()
            },
    {
        match translate_batch(&batch) {
            Ok(operations) => {
                host.write_batch(operations);
                Ok(())
            },
            Err(e) => Err(e),
        }
    }

    /// Clearing the journal always succeeds and performs no host call: the
    /// adapter keeps no write-ahead journal of its own.
    pub fn clear_journal<H: Host>(&self, host: &mut H, _base_key: &[u8]) -> (r: Result<
        (),
        ViewError,
    >)
        requires
            old(host).inv(),
        ensures
            final(host).inv(),
            r == Ok::<(), ViewError>(()),
            final(host).store() == old(host).store(),
            final(host).log() == old(host).log(),
            final(host).yields() == old(host).yields(),
    {
        Ok(())
    }
}

} // verus!
