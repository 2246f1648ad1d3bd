//! An in-memory host: a fully verified implementation of the host capability
//! interface, backed by an association list.
//!
//! It services every primitive from its own store, so the adapter can be
//! exercised without a real sandboxed runtime, and it counts the calls and
//! suspensions it observes, so callers can check how many round trips an
//! operation cost.

use vstd::prelude::*;

use crate::batch::{host_ops_view, HostOperation};
use crate::bytes::{bytes_eq, clone_bytes, is_prefix_of};
use crate::host::{
    ContainsKeyPromise, FindKeyValuesPromise, FindKeysPromise, Host, ReadMultiValuesPromise,
    ReadValuePromise,
};
use crate::kv::{
    apply_ops, entries_map, is_prefix, keys_view, lemma_apply_ops_take_step,
    lemma_entries_map_absent, lemma_entries_map_index, lemma_entries_map_push,
    lemma_entries_map_remove_at, lookup, min_nat, opt_bytes, prefixed_keys, uniq_keys, HostCall,
};

verus! {

/// A host holding its store in memory.
///
/// The entries form an association list with no repeated key; the ghost
/// fields record the full call log and the exact number of suspensions,
/// while the two counters keep saturating executable tallies of both.
pub struct MemoryHost {
    entries: Vec<(Vec<u8>, Vec<u8>)>,
    calls_seen: u64,
    yields_seen: u64,
    call_log: Ghost<Seq<HostCall>>,
    yield_tally: Ghost<nat>,
}

/// Adds one, stopping at the counter's width.
fn bump(c: u64) -> (r: u64)
    ensures
        r as nat == min_nat(c as nat + 1, u64::MAX as nat),
{
    if c < u64::MAX {
        c + 1
    } else {
        c
    }
}

/// The position of the entry carrying `key`, if any.
fn find_entry(entries: &Vec<(Vec<u8>, Vec<u8>)>, key: &[u8]) -> (r: Option<usize>)
    ensures
        match r {
            Some(i) => i < entries@.len() && entries@[i as int].0@ == key@,
            None => forall|j: int| 0 <= j < entries@.len() ==> entries@[j].0@ != key@,
        },
{
    let n = entries.len();
    let mut i: usize = 0;
    while i < n
        invariant
            i <= n,
            n == entries@.len(),
            forall|j: int| 0 <= j < i ==> entries@[j].0@ != key@,
        decreases n - i,
    {
        if bytes_eq(entries[i].0.as_slice(), key) {
            return Some(i);
        }
        i = i + 1;
    }
    None
}

/// An owned copy of the value stored under `key`, if any.
fn get_value(entries: &Vec<(Vec<u8>, Vec<u8>)>, key: &[u8]) -> (r: Option<Vec<u8>>)
    requires
        uniq_keys(entries@),
    ensures
        opt_bytes(r) == lookup(entries_map(entries@), key@),
{
    match find_entry(entries, key) {
        Some(i) => {
            proof {
                lemma_entries_map_index(entries@, i as int);
            }
            Some(clone_bytes(&entries[i].1))
        },
        None => {
            proof {
                lemma_entries_map_absent(entries@, key@);
            }
            None
        },
    }
}

/// Drops the entry carrying `key`, if any.
fn remove_entry(entries: &mut Vec<(Vec<u8>, Vec<u8>)>, key: &[u8])
    requires
        uniq_keys(old(entries)@),
    ensures
        uniq_keys(final(entries)@),
        forall|j: int| 0 <= j < final(entries)@.len() ==> final(entries)@[j].0@ != key@,
        entries_map(final(entries)@) == entries_map(old(entries)@).remove(key@),
{
    match find_entry(entries, key) {
        Some(i) => {
            proof {
                lemma_entries_map_remove_at(entries@, i as int);
            }
            entries.remove(i);
        },
        None => {
            proof {
                lemma_entries_map_absent(entries@, key@);
                assert(entries_map(entries@) =~= entries_map(entries@).remove(key@));
            }
        },
    }
}

/// Stores `value` under `key`, replacing any previous value.
fn put_entry(entries: &mut Vec<(Vec<u8>, Vec<u8>)>, key: Vec<u8>, value: Vec<u8>)
    requires
        uniq_keys(old(entries)@),
    ensures
        uniq_keys(final(entries)@),
        entries_map(final(entries)@) == entries_map(old(entries)@).insert(key@, value@),
{
    remove_entry(entries, key.as_slice());
    proof {
        lemma_entries_map_push(entries@, (key, value));
        assert(entries_map(old(entries)@).remove(key@).insert(key@, value@) =~= entries_map(
            old(entries)@,
        ).insert(key@, value@));
    }
    entries.push((key, value));
}

/// Drops every entry whose key carries `prefix`.
fn remove_prefixed(entries: &mut Vec<(Vec<u8>, Vec<u8>)>, prefix: &[u8])
    requires
        uniq_keys(old(entries)@),
    ensures
        uniq_keys(final(entries)@),
        entries_map(final(entries)@) == entries_map(old(entries)@).remove_keys(
            prefixed_keys(prefix@),
        ),
{
    let ghost pset = prefixed_keys(prefix@);
    let ghost m0 = entries_map(old(entries)@);
    let mut i: usize = 0;
    while i < entries.len()
        invariant
            uniq_keys(entries@),
            i <= entries@.len(),
            pset == prefixed_keys(prefix@),
            m0 == entries_map(old(entries)@),
            forall|j: int| 0 <= j < i ==> !is_prefix(prefix@, entries@[j].0@),
            entries_map(entries@).remove_keys(pset) == m0.remove_keys(pset),
        decreases entries@.len() - i,
    {
        if is_prefix_of(prefix, entries[i].0.as_slice()) {
            let ghost s = entries@;
            proof {
                lemma_entries_map_remove_at(s, i as int);
                s.remove_ensures(i as int);
                assert(pset.contains(s[i as int].0@));
                assert(entries_map(s).remove(s[i as int].0@).remove_keys(pset) =~= entries_map(
                    s,
                ).remove_keys(pset));
            }
            entries.remove(i);
        } else {
            i = i + 1;
        }
    }
    proof {
        assert forall|k: Seq<u8>|
            entries_map(entries@).contains_key(k) implies !pset.contains(k) by {
            let j = choose|j: int| 0 <= j < entries@.len() && entries@[j].0@ == k;
        }
        assert(entries_map(entries@).remove_keys(pset) =~= entries_map(entries@));
    }
}

impl MemoryHost {
    /// A host with an empty store, an empty call log, and no suspensions.
    pub fn new() -> (r: MemoryHost)
        ensures
            r.inv(),
            r.store() == Map::<Seq<u8>, Seq<u8>>::empty(),
            r.log() == Seq::<HostCall>::empty(),
            r.yields() == 0,
    {
        let r = MemoryHost {
            entries: Vec::new(),
            calls_seen: 0,
            yields_seen: 0,
            call_log: Ghost(Seq::empty()),
            yield_tally: Ghost(0),
        };
        proof {
            assert(entries_map(r.entries@) =~= Map::<Seq<u8>, Seq<u8>>::empty());
        }
        r
    }

    /// How many host calls have been issued so far (saturating).
    pub fn call_count(&self) -> (r: u64)
        requires
            self.inv(),
        ensures
            r as nat == min_nat(self.log().len(), u64::MAX as nat),
    {
        self.calls_seen
    }

    /// How many suspensions have been taken so far (saturating).
    pub fn yield_count(&self) -> (r: u64)
        requires
            self.inv(),
        ensures
            r as nat == min_nat(self.yields(), u64::MAX as nat),
    {
        self.yields_seen
    }

    /// Records one issued host call.
    fn note_call(&mut self, Ghost(c): Ghost<HostCall>)
        requires
            old(self).inv(),
        ensures
            final(self).inv(),
            final(self).entries == old(self).entries,
            final(self).call_log@ == old(self).call_log@.push(c),
            final(self).yield_tally == old(self).yield_tally,
    {
        self.calls_seen = bump(self.calls_seen);
        proof {
            self.call_log@ = self.call_log@.push(c);
        }
    }
}

impl Host for MemoryHost {
    closed spec fn inv(&self) -> bool {
        &&& uniq_keys(self.entries@)
        &&& self.calls_seen as nat == min_nat(self.call_log@.len(), u64::MAX as nat)
        &&& self.yields_seen as nat == min_nat(self.yield_tally@, u64::MAX as nat)
    }

    closed spec fn store(&self) -> Map<Seq<u8>, Seq<u8>> {
        entries_map(self.entries@)
    }

    closed spec fn log(&self) -> Seq<HostCall> {
        self.call_log@
    }

    closed spec fn yields(&self) -> nat {
        self.yield_tally@
    }

    fn yield_once(&mut self) {
        self.yields_seen = bump(self.yields_seen);
        proof {
            self.yield_tally@ = self.yield_tally@ + 1;
        }
    }

    fn new_contains_key(&mut self, key: &[u8]) -> (p: ContainsKeyPromise) {
        self.note_call(Ghost(HostCall::ContainsKey { key: key@ }));
        ContainsKeyPromise { key: vstd::slice::slice_to_vec(key), issued_at: Ghost(self.yield_tally@) }
    }

    fn wait_contains_key(&mut self, p: ContainsKeyPromise) -> (r: bool) {
        match find_entry(&self.entries, p.key.as_slice()) {
            Some(i) => {
                proof {
                    lemma_entries_map_index(self.entries@, i as int);
                }
                true
            },
            None => {
                proof {
                    lemma_entries_map_absent(self.entries@, p.key@);
                }
                false
            },
        }
    }

    fn new_read_value(&mut self, key: &[u8]) -> (p: ReadValuePromise) {
        self.note_call(Ghost(HostCall::ReadValue { key: key@ }));
        ReadValuePromise { key: vstd::slice::slice_to_vec(key), issued_at: Ghost(self.yield_tally@) }
    }

    fn wait_read_value(&mut self, p: ReadValuePromise) -> (r: Option<Vec<u8>>) {
        get_value(&self.entries, p.key.as_slice())
    }

    fn new_read_multi_values(&mut self, keys: Vec<Vec<u8>>) -> (p: ReadMultiValuesPromise) {
        self.note_call(Ghost(HostCall::ReadMultiValues { keys: keys_view(keys@) }));
        ReadMultiValuesPromise { keys, issued_at: Ghost(self.yield_tally@) }
    }

    fn wait_read_multi_values(&mut self, p: ReadMultiValuesPromise) -> (r: Vec<Option<Vec<u8>>>) {
        let n = p.keys.len();
        let mut out: Vec<Option<Vec<u8>>> = Vec::new();
        let mut i: usize = 0;
        while i < n
            invariant
                *self == *old(self),
                self.inv(),
                i <= n,
                n == p.keys@.len(),
                out@.len() == i,
                forall|j: int|
                    0 <= j < i ==> opt_bytes(out@[j]) == lookup(
                        entries_map(self.entries@),
                        p.keys@[j]@,
                    ),
            decreases n - i,
        {
            out.push(get_value(&self.entries, p.keys[i].as_slice()));
            i = i + 1;
        }
        out
    }

    fn new_find_keys(&mut self, key_prefix: &[u8]) -> (p: FindKeysPromise) {
        self.note_call(Ghost(HostCall::FindKeys { key_prefix: key_prefix@ }));
        FindKeysPromise { key_prefix: vstd::slice::slice_to_vec(key_prefix), issued_at: Ghost(self.yield_tally@) }
    }

    fn wait_find_keys(&mut self, p: FindKeysPromise) -> (r: Vec<Vec<u8>>) {
        let n = self.entries.len();
        let mut out: Vec<Vec<u8>> = Vec::new();
        let mut i: usize = 0;
        while i < n
            invariant
                *self == *old(self),
                self.inv(),
                i <= n,
                n == self.entries@.len(),
                forall|a: int, b: int| 0 <= a < b < out@.len() ==> out@[a]@ != out@[b]@,
                forall|a: int|
                    0 <= a < out@.len() ==> exists|j: int|
                        0 <= j < i && self.entries@[j].0@ == #[trigger] out@[a]@ && is_prefix(
                            p.key_prefix@,
                            out@[a]@,
                        ),
                forall|j: int|
                    0 <= j < i && is_prefix(p.key_prefix@, #[trigger] self.entries@[j].0@)
                        ==> exists|a: int| 0 <= a < out@.len() && out@[a]@ == self.entries@[j].0@,
            decreases n - i,
        {
            let ghost prevout = out@;
            let matched = is_prefix_of(p.key_prefix.as_slice(), self.entries[i].0.as_slice());
            if matched {
                proof {
                    assert forall|a: int|
                        0 <= a < prevout.len() implies prevout[a]@ != self.entries@[i as int].0@ by {
                        let j = choose|j: int|
                            0 <= j < i && self.entries@[j].0@ == prevout[a]@ && is_prefix(
                                p.key_prefix@,
                                prevout[a]@,
                            );
                    }
                }
                out.push(clone_bytes(&self.entries[i].0));
            }
            proof {
                let ki = self.entries@[i as int].0@;
                if matched {
                    assert(out@ == prevout.push(out@[prevout.len() as int]));
                    assert(out@[prevout.len() as int]@ == ki);
                } else {
                    assert(out@ == prevout);
                }
                assert forall|a: int| 0 <= a < out@.len() implies exists|j: int|
                    0 <= j < i + 1 && self.entries@[j].0@ == #[trigger] out@[a]@ && is_prefix(
                        p.key_prefix@,
                        out@[a]@,
                    ) by {
                    if a < prevout.len() {
                        assert(out@[a] == prevout[a]);
                        let j = choose|j: int|
                            0 <= j < i && self.entries@[j].0@ == prevout[a]@ && is_prefix(
                                p.key_prefix@,
                                prevout[a]@,
                            );
                        assert(0 <= j < i + 1 && self.entries@[j].0@ == out@[a]@ && is_prefix(
                            p.key_prefix@,
                            out@[a]@,
                        ));
                    } else {
                        assert(out@[a]@ == ki);
                        assert(0 <= (i as int) < i + 1 && self.entries@[i as int].0@ == out@[a]@
                            && is_prefix(p.key_prefix@, out@[a]@));
                    }
                }
                assert forall|j: int|
                    0 <= j < i + 1 && is_prefix(
                        p.key_prefix@,
                        #[trigger] self.entries@[j].0@,
                    ) implies exists|a: int|
                    0 <= a < out@.len() && out@[a]@ == self.entries@[j].0@ by {
                    if j < i {
                        let a = choose|a: int|
                            0 <= a < prevout.len() && prevout[a]@ == self.entries@[j].0@;
                        assert(out@[a]@ == self.entries@[j].0@);
                    } else {
                        assert(out@[prevout.len() as int]@ == self.entries@[j].0@);
                    }
                }
            }
            i = i + 1;
        }
        proof {
            assert forall|a: int, b: int|
                0 <= a < b < keys_view(out@).len() implies keys_view(out@)[a] != keys_view(
                out@,
            )[b] by {
                assert(keys_view(out@)[a] == out@[a]@);
                assert(keys_view(out@)[b] == out@[b]@);
            }
            assert(keys_view(out@).no_duplicates());
            assert forall|k: Seq<u8>| #[trigger]
                keys_view(out@).contains(k) implies (entries_map(self.entries@).contains_key(k)
                && is_prefix(p.key_prefix@, k)) by {
                let a = choose|a: int|
                    0 <= a < keys_view(out@).len() && keys_view(out@)[a] == k;
                assert(out@[a]@ == k);
                let j = choose|j: int|
                    0 <= j < self.entries@.len() && self.entries@[j].0@ == out@[a]@ && is_prefix(
                        p.key_prefix@,
                        out@[a]@,
                    );
                lemma_entries_map_index(self.entries@, j);
            }
            assert forall|k: Seq<u8>|
                entries_map(self.entries@).contains_key(k) && is_prefix(
                    p.key_prefix@,
                    k,
                ) implies #[trigger] keys_view(out@).contains(k) by {
                let j = choose|j: int| 0 <= j < self.entries@.len() && self.entries@[j].0@ == k;
                let a = choose|a: int| 0 <= a < out@.len() && out@[a]@ == self.entries@[j].0@;
                assert(keys_view(out@)[a] == k);
            }
        }
        out
    }

    fn new_find_key_values(&mut self, key_prefix: &[u8]) -> (p: FindKeyValuesPromise) {
        self.note_call(Ghost(HostCall::FindKeyValues { key_prefix: key_prefix@ }));
        FindKeyValuesPromise { key_prefix: vstd::slice::slice_to_vec(key_prefix), issued_at: Ghost(self.yield_tally@) }
    }

    fn wait_find_key_values(&mut self, p: FindKeyValuesPromise) -> (r: Vec<(Vec<u8>, Vec<u8>)>) {
        let n = self.entries.len();
        let mut out: Vec<(Vec<u8>, Vec<u8>)> = Vec::new();
        let mut i: usize = 0;
        while i < n
            invariant
                *self == *old(self),
                self.inv(),
                i <= n,
                n == self.entries@.len(),
                uniq_keys(out@),
                forall|a: int|
                    0 <= a < out@.len() ==> exists|j: int|
                        0 <= j < i && self.entries@[j].0@ == #[trigger] out@[a].0@
                            && self.entries@[j].1@ == out@[a].1@ && is_prefix(
                            p.key_prefix@,
                            out@[a].0@,
                        ),
                forall|j: int|
                    0 <= j < i && is_prefix(p.key_prefix@, #[trigger] self.entries@[j].0@)
                        ==> exists|a: int| 0 <= a < out@.len() && out@[a].0@ == self.entries@[j].0@,
            decreases n - i,
        {
            let ghost prevout = out@;
            let matched = is_prefix_of(p.key_prefix.as_slice(), self.entries[i].0.as_slice());
            if matched {
                proof {
                    assert forall|a: int|
                        0 <= a < prevout.len() implies prevout[a].0@
                        != self.entries@[i as int].0@ by {
                        let j = choose|j: int|
                            0 <= j < i && self.entries@[j].0@ == prevout[a].0@
                                && self.entries@[j].1@ == prevout[a].1@ && is_prefix(
                                p.key_prefix@,
                                prevout[a].0@,
                            );
                    }
                }
                out.push(
                    (clone_bytes(&self.entries[i].0), clone_bytes(&self.entries[i].1)),
                );
            }
            proof {
                let ki = self.entries@[i as int].0@;
                let vi = self.entries@[i as int].1@;
                if matched {
                    assert(out@ == prevout.push(out@[prevout.len() as int]));
                    assert(out@[prevout.len() as int].0@ == ki);
                    assert(out@[prevout.len() as int].1@ == vi);
                } else {
                    assert(out@ == prevout);
                }
                assert forall|a: int| 0 <= a < out@.len() implies exists|j: int|
                    0 <= j < i + 1 && self.entries@[j].0@ == #[trigger] out@[a].0@
                        && self.entries@[j].1@ == out@[a].1@ && is_prefix(
                        p.key_prefix@,
                        out@[a].0@,
                    ) by {
                    if a < prevout.len() {
                        assert(out@[a] == prevout[a]);
                        let j = choose|j: int|
                            0 <= j < i && self.entries@[j].0@ == prevout[a].0@
                                && self.entries@[j].1@ == prevout[a].1@ && is_prefix(
                                p.key_prefix@,
                                prevout[a].0@,
                            );
                        assert(0 <= j < i + 1 && self.entries@[j].0@ == out@[a].0@
                            && self.entries@[j].1@ == out@[a].1@ && is_prefix(
                            p.key_prefix@,
                            out@[a].0@,
                        ));
                    } else {
                        assert(0 <= (i as int) < i + 1 && self.entries@[i as int].0@ == out@[a].0@
                            && self.entries@[i as int].1@ == out@[a].1@ && is_prefix(
                            p.key_prefix@,
                            out@[a].0@,
                        ));
                    }
                }
                assert forall|j: int|
                    0 <= j < i + 1 && is_prefix(
                        p.key_prefix@,
                        #[trigger] self.entries@[j].0@,
                    ) implies exists|a: int|
                    0 <= a < out@.len() && out@[a].0@ == self.entries@[j].0@ by {
                    if j < i {
                        let a = choose|a: int|
                            0 <= a < prevout.len() && prevout[a].0@ == self.entries@[j].0@;
                        assert(out@[a].0@ == self.entries@[j].0@);
                    } else {
                        assert(out@[prevout.len() as int].0@ == self.entries@[j].0@);
                    }
                }
            }
            i = i + 1;
        }
        proof {
            let m1 = entries_map(out@);
            let m2 = entries_map(self.entries@).restrict(prefixed_keys(p.key_prefix@));
            assert forall|k: Seq<u8>| m1.contains_key(k) implies m2.contains_key(k) && m1[k]
                == m2[k] by {
                let a = choose|a: int| 0 <= a < out@.len() && out@[a].0@ == k;
                lemma_entries_map_index(out@, a);
                let j = choose|j: int|
                    0 <= j < self.entries@.len() && self.entries@[j].0@ == out@[a].0@
                        && self.entries@[j].1@ == out@[a].1@ && is_prefix(
                        p.key_prefix@,
                        out@[a].0@,
                    );
                lemma_entries_map_index(self.entries@, j);
                assert(prefixed_keys(p.key_prefix@).contains(k));
            }
            assert forall|k: Seq<u8>| m2.contains_key(k) implies m1.contains_key(k) by {
                let j = choose|j: int| 0 <= j < self.entries@.len() && self.entries@[j].0@ == k;
                assert(is_prefix(p.key_prefix@, self.entries@[j].0@));
                let a = choose|a: int| 0 <= a < out@.len() && out@[a].0@ == self.entries@[j].0@;
                lemma_entries_map_index(out@, a);
            }
            assert(m1 =~= m2);
        }
        out
    }

    fn write_batch(&mut self, operations: Vec<HostOperation>) {
        let ghost m0 = entries_map(self.entries@);
        let ghost opsv = host_ops_view(operations@);
        let n = operations.len();
        let mut i: usize = 0;
        proof {
            assert(opsv.take(0) =~= Seq::<crate::kv::OpView>::empty());
        }
        while i < n
            invariant
                i <= n,
                n == operations@.len(),
                uniq_keys(self.entries@),
                opsv == host_ops_view(operations@),
                m0 == entries_map(old(self).entries@),
                entries_map(self.entries@) == apply_ops(m0, opsv.take(i as int)),
                self.calls_seen == old(self).calls_seen,
                self.yields_seen == old(self).yields_seen,
                self.call_log == old(self).call_log,
                self.yield_tally == old(self).yield_tally,
                old(self).inv(),
            decreases n - i,
        {
            proof {
                lemma_apply_ops_take_step(m0, opsv, i as int);
                assert(opsv[i as int] == operations@[i as int]@);
            }
            match &operations[i] {
                HostOperation::Put { key, value } => {
                    put_entry(&mut self.entries, clone_bytes(key), clone_bytes(value));
                },
                HostOperation::Delete { key } => {
                    remove_entry(&mut self.entries, key.as_slice());
                },
                HostOperation::DeletePrefix { key_prefix } => {
                    remove_prefixed(&mut self.entries, key_prefix.as_slice());
                },
            }
            i = i + 1;
        }
        proof {
            assert(opsv.take(n as int) =~= opsv);
        }
        self.note_call(Ghost(HostCall::WriteBatch { operations: opsv }));
    }
}

} // verus!
