//! The host-call interface: promises for pending host operations, the single
//! cooperative suspension, and the five storage primitives.
//!
//! The host is the external environment that owns the persistent store.  Its
//! behaviour is modelled by three observations: the key/value map it stores,
//! the log of calls issued to it so far, and the number of suspensions the
//! caller has taken.  Each read primitive is split as the call protocol has
//! it: a `new_*` method issues the call and hands back a promise, and after
//! exactly one suspension the matching `wait_*` method resolves the promise.
//! A promise is consumed by resolution, so it is never reused.  Submitting a
//! write batch is a single fire-and-forget call with no suspension.

use vstd::prelude::*;

use crate::batch::{host_ops_view, HostOperation};
use crate::kv::{apply_ops, is_prefix, keys_view, lookup, opt_bytes, uniq_keys, entries_map,
    prefixed_keys, HostCall};

verus! {

/// A pending containment check.
pub struct ContainsKeyPromise {
    pub key: Vec<u8>,
    /// How many suspensions had been taken when the call was
    /// issued; the promise may be resolved only after a later one.
    pub issued_at: Ghost<nat>,
}

/// A pending point read.
pub struct ReadValuePromise {
    pub key: Vec<u8>,
    /// How many suspensions had been taken when the call was
    /// issued; the promise may be resolved only after a later one.
    pub issued_at: Ghost<nat>,
}

/// A pending multi-read.
pub struct ReadMultiValuesPromise {
    pub keys: Vec<Vec<u8>>,
    /// How many suspensions had been taken when the call was
    /// issued; the promise may be resolved only after a later one.
    pub issued_at: Ghost<nat>,
}

/// A pending scan for the keys under a prefix.
pub struct FindKeysPromise {
    pub key_prefix: Vec<u8>,
    /// How many suspensions had been taken when the call was
    /// issued; the promise may be resolved only after a later one.
    pub issued_at: Ghost<nat>,
}

/// A pending scan for the key/value pairs under a prefix.
pub struct FindKeyValuesPromise {
    pub key_prefix: Vec<u8>,
    /// How many suspensions had been taken when the call was
    /// issued; the promise may be resolved only after a later one.
    pub issued_at: Ghost<nat>,
}

/// The capability interface to the host's persistent store.
///
/// An implementation answers every call from its current store, leaves the
/// store untouched by reads, applies a write batch in order, and records
/// each call it services in its log.
pub trait Host: Sized {
    /// Well-formedness of the host's own representation.
    spec fn inv(&self) -> bool;

    /// The key/value pairs the host currently stores.
    spec fn store(&self) -> Map<Seq<u8>, Seq<u8>>;

    /// Every host call issued so far, oldest first.
    spec fn log(&self) -> Seq<HostCall>;

    /// How many times the caller has suspended so far.
    spec fn yields(&self) -> nat;

    /// Hands control back to the scheduler exactly once, then resumes
    /// unconditionally.  After the one suspension every promise issued
    /// before it is ready.
    fn yield_once(&mut self)
        requires
            old(self).inv(),
        ensures
            final(self).inv(),
            final(self).store() == old(self).store(),
            final(self).log() == old(self).log(),
            final(self).yields() == old(self).yields() + 1,
    ;

    /// Issues a containment check for `key`.
    fn new_contains_key(&mut self, key: &[u8]) -> (p: ContainsKeyPromise)
        requires
            old(self).inv(),
        ensures
            final(self).inv(),
            final(self).store() == old(self).store(),
            final(self).yields() == old(self).yields(),
            final(self).log() == old(self).log().push(HostCall::ContainsKey { key: key@ }),
            p.key@ == key@,
            p.issued_at@ == old(self).yields(),
    ;

    /// Resolves a containment check: whether the store holds the key.
    fn wait_contains_key(&mut self, p: ContainsKeyPromise) -> (r: bool)
        requires
            old(self).inv(),
            old(self).yields() > p.issued_at@,
        ensures
            final(self).inv(),
            final(self).store() == old(self).store(),
            final(self).yields() == old(self).yields(),
            final(self).log() == old(self).log(),
            r == old(self).store().contains_key(p.key@),
    ;

    /// Issues a point read for `key`.
    fn new_read_value(&mut self, key: &[u8]) -> (p: ReadValuePromise)
        requires
            old(self).inv(),
        ensures
            final(self).inv(),
            final(self).store() == old(self).store(),
            final(self).yields() == old(self).yields(),
            final(self).log() == old(self).log().push(HostCall::ReadValue { key: key@ }),
            p.key@ == key@,
            p.issued_at@ == old(self).yields(),
    ;

    /// Resolves a point read: the value stored under the key, if any.
    fn wait_read_value(&mut self, p: ReadValuePromise) -> (r: Option<Vec<u8>>)
        requires
            old(self).inv(),
            old(self).yields() > p.issued_at@,
        ensures
            final(self).inv(),
            final(self).store() == old(self).store(),
            final(self).yields() == old(self).yields(),
            final(self).log() == old(self).log(),
            opt_bytes(r) == lookup(old(self).store(), p.key@),
    ;

    /// Issues one multi-read for all of `keys`.
    fn new_read_multi_values(&mut self, keys: Vec<Vec<u8>>) -> (p: ReadMultiValuesPromise)
        requires
            old(self).inv(),
        ensures
            final(self).inv(),
            final(self).store() == old(self).store(),
            final(self).yields() == old(self).yields(),
            final(self).log() == old(self).log().push(
                HostCall::ReadMultiValues { keys: keys_view(keys@) },
            ),
            p.keys@ == keys@,
            p.issued_at@ == old(self).yields(),
    ;

    /// Resolves a multi-read: one optional value per key, in input order;
    /// an absent key yields an absent value, never an error.
    fn wait_read_multi_values(&mut self, p: ReadMultiValuesPromise) -> (r: Vec<Option<Vec<u8>>>)
        requires
            old(self).inv(),
            old(self).yields() > p.issued_at@,
        ensures
            final(self).inv(),
            final(self).store() == old(self).store(),
            final(self).yields() == old(self).yields(),
            final(self).log() == old(self).log(),
            r@.len() == p.keys@.len(),
            forall|i: int|
                0 <= i < r@.len() ==> opt_bytes(r@[i]) == lookup(old(self).store(), p.keys@[i]@),
    ;

    /// Issues a scan for the keys under `key_prefix`.
    fn new_find_keys(&mut self, key_prefix: &[u8]) -> (p: FindKeysPromise)
        requires
            old(self).inv(),
        ensures
            final(self).inv(),
            final(self).store() == old(self).store(),
            final(self).yields() == old(self).yields(),
            final(self).log() == old(self).log().push(
                HostCall::FindKeys { key_prefix: key_prefix@ },
            ),
            p.key_prefix@ == key_prefix@,
            p.issued_at@ == old(self).yields(),
    ;

    /// Resolves a key scan: exactly the stored keys that carry the prefix,
    /// each once.
    fn wait_find_keys(&mut self, p: FindKeysPromise) -> (r: Vec<Vec<u8>>)
        requires
            old(self).inv(),
            old(self).yields() > p.issued_at@,
        ensures
            final(self).inv(),
            final(self).store() == old(self).store(),
            final(self).yields() == old(self).yields(),
            final(self).log() == old(self).log(),
            keys_view(r@).no_duplicates(),
            forall|k: Seq<u8>|
                #[trigger] keys_view(r@).contains(k) <==> (old(self).store().contains_key(k)
                    && is_prefix(p.key_prefix@, k)),
    ;

    /// Issues a scan for the key/value pairs under `key_prefix`.
    fn new_find_key_values(&mut self, key_prefix: &[u8]) -> (p: FindKeyValuesPromise)
        requires
            old(self).inv(),
        ensures
            final(self).inv(),
            final(self).store() == old(self).store(),
            final(self).yields() == old(self).yields(),
            final(self).log() == old(self).log().push(
                HostCall::FindKeyValues { key_prefix: key_prefix@ },
            ),
            p.key_prefix@ == key_prefix@,
            p.issued_at@ == old(self).yields(),
    ;

    /// Resolves a key/value scan: an association list, with no repeated key,
    /// that denotes exactly the stored pairs whose key carries the prefix.
    fn wait_find_key_values(&mut self, p: FindKeyValuesPromise) -> (r: Vec<(Vec<u8>, Vec<u8>)>)
        requires
            old(self).inv(),
            old(self).yields() > p.issued_at@,
        ensures
            final(self).inv(),
            final(self).store() == old(self).store(),
            final(self).yields() == old(self).yields(),
            final(self).log() == old(self).log(),
            uniq_keys(r@),
            entries_map(r@) == old(self).store().restrict(prefixed_keys(p.key_prefix@)),
    ;

    /// Submits a write batch: the host applies the operations in order, as a
    /// whole, with no suspension and no result beyond the call itself.
    fn write_batch(&mut self, operations: Vec<HostOperation>)
        requires
            old(self).inv(),
        ensures
            final(self).inv(),
            final(self).yields() == old(self).yields(),
            final(self).log() == old(self).log().push(
                HostCall::WriteBatch { operations: host_ops_view(operations@) },
            ),
            final(self).store() == apply_ops(old(self).store(), host_ops_view(operations@)),
    ;
}

} // verus!
