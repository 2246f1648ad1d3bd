//! The mathematical model of the host's store and of the calls made to it.
//!
//! The host's persistent state is modelled as a map from byte strings to byte
//! strings; write operations are modelled by their effect on that map, in
//! order; and every host round trip is recorded, oldest first, in a call log.

use vstd::prelude::*;

verus! {

/// `p` is a byte-prefix of `k`.
pub open spec fn is_prefix(p: Seq<u8>, k: Seq<u8>) -> bool {
    p.len() <= k.len() && k.subrange(0, p.len() as int) == p
}

/// All keys that start with the prefix `p`.
pub open spec fn prefixed_keys(p: Seq<u8>) -> Set<Seq<u8>> {
    Set::new(|k: Seq<u8>| is_prefix(p, k))
}

/// The value stored under `k`, if any.
pub open spec fn lookup(store: Map<Seq<u8>, Seq<u8>>, k: Seq<u8>) -> Option<Seq<u8>> {
    if store.contains_key(k) {
        Some(store[k])
    } else {
        None
    }
}

/// An optional byte string, seen abstractly.
pub open spec fn opt_bytes(o: Option<Vec<u8>>) -> Option<Seq<u8>> {
    match o {
        Some(v) => Some(v@),
        None => None,
    }
}

/// A sequence of byte strings, seen abstractly.
pub open spec fn keys_view(keys: Seq<Vec<u8>>) -> Seq<Seq<u8>> {
    keys.map_values(|k: Vec<u8>| k@)
}

/// One write operation, seen abstractly: the variant and the bytes it carries.
pub enum OpView {
    Put { key: Seq<u8>, value: Seq<u8> },
    Delete { key: Seq<u8> },
    DeletePrefix { key_prefix: Seq<u8> },
}

/// Whether the key or key-prefix an operation names fits the key budget.
pub open spec fn op_valid(op: OpView) -> bool {
    match op {
        OpView::Put { key, value } => crate::policy::valid_key(key),
        OpView::Delete { key } => crate::policy::valid_key(key),
        OpView::DeletePrefix { key_prefix } => crate::policy::valid_key(key_prefix),
    }
}

/// Whether every operation of a list fits the key budget.
pub open spec fn ops_valid(ops: Seq<OpView>) -> bool {
    forall|i: int| 0 <= i < ops.len() ==> op_valid(ops[i])
}

/// The effect of one write operation on a store.
pub open spec fn apply_op(store: Map<Seq<u8>, Seq<u8>>, op: OpView) -> Map<Seq<u8>, Seq<u8>> {
    match op {
        OpView::Put { key, value } => store.insert(key, value),
        OpView::Delete { key } => store.remove(key),
        OpView::DeletePrefix { key_prefix } => store.remove_keys(prefixed_keys(key_prefix)),
    }
}

/// The effect of an ordered operation list on a store, first to last.
///
/// The order matters: a later operation on a key overrides an earlier one.
pub open spec fn apply_ops(store: Map<Seq<u8>, Seq<u8>>, ops: Seq<OpView>) -> Map<Seq<u8>, Seq<u8>>
    decreases ops.len(),
{
    if ops.len() == 0 {
        store
    } else {
        apply_ops(apply_op(store, ops[0]), ops.drop_first())
    }
}

/// One host round trip, as recorded in a host's call log.
pub enum HostCall {
    ContainsKey { key: Seq<u8> },
    ReadValue { key: Seq<u8> },
    ReadMultiValues { keys: Seq<Seq<u8>> },
    FindKeys { key_prefix: Seq<u8> },
    FindKeyValues { key_prefix: Seq<u8> },
    WriteBatch { operations: Seq<OpView> },
}

/// Appending an operation to a list applies it last.
pub proof fn lemma_apply_ops_push(store: Map<Seq<u8>, Seq<u8>>, ops: Seq<OpView>, op: OpView)
    ensures
        apply_ops(store, ops.push(op)) == apply_op(apply_ops(store, ops), op),
    decreases ops.len(),
{
    let s1 = ops.push(op);
    if ops.len() == 0 {
        assert(s1[0] == op);
        assert(s1.drop_first() =~= Seq::<OpView>::empty());
        assert(apply_ops(store, s1) == apply_ops(apply_op(store, op), s1.drop_first()));
        assert(apply_ops(apply_op(store, op), s1.drop_first()) == apply_op(store, op));
        assert(apply_ops(store, ops) == store);
    } else {
        assert(s1[0] == ops[0]);
        assert(s1.drop_first() =~= ops.drop_first().push(op));
        lemma_apply_ops_push(apply_op(store, ops[0]), ops.drop_first(), op);
        assert(apply_ops(store, s1) == apply_ops(apply_op(store, ops[0]), s1.drop_first()));
        assert(apply_ops(store, ops) == apply_ops(apply_op(store, ops[0]), ops.drop_first()));
    }
}

/// Applying one more operation of a list extends the effect of its prefix.
pub proof fn lemma_apply_ops_take_step(store: Map<Seq<u8>, Seq<u8>>, ops: Seq<OpView>, i: int)
    requires
        0 <= i < ops.len(),
    ensures
        apply_ops(store, ops.take(i + 1)) == apply_op(apply_ops(store, ops.take(i)), ops[i]),
{
    assert(ops.take(i + 1) =~= ops.take(i).push(ops[i]));
    lemma_apply_ops_push(store, ops.take(i), ops[i]);
}

/// Operations in a batch are never commuted: putting a value under a key and
/// then deleting that key, in that order, leaves the key absent — never
/// present with the value.
pub proof fn lemma_put_then_delete(store: Map<Seq<u8>, Seq<u8>>, key: Seq<u8>, value: Seq<u8>)
    ensures
        apply_ops(
            store,
            seq![OpView::Put { key, value }, OpView::Delete { key }],
        ) == store.insert(key, value).remove(key),
        !apply_ops(
            store,
            seq![OpView::Put { key, value }, OpView::Delete { key }],
        ).contains_key(key),
{
    let ops = seq![OpView::Put { key, value }, OpView::Delete { key }];
    assert(ops[0] == OpView::Put { key, value });
    assert(ops.drop_first()[0] == OpView::Delete { key });
    assert(ops.drop_first().drop_first() =~= Seq::<OpView>::empty());
    assert(apply_ops(store, ops) == apply_ops(store.insert(key, value), ops.drop_first()));
    assert(apply_ops(store.insert(key, value), ops.drop_first()) == apply_ops(
        store.insert(key, value).remove(key),
        ops.drop_first().drop_first(),
    ));
}

/// Whether no two entries of an association list carry the same key.
pub open spec fn uniq_keys(s: Seq<(Vec<u8>, Vec<u8>)>) -> bool {
    forall|i: int, j: int| 0 <= i < j < s.len() ==> s[i].0@ != s[j].0@
}

/// The map an association list denotes (meaningful when [`uniq_keys`] holds).
pub open spec fn entries_map(s: Seq<(Vec<u8>, Vec<u8>)>) -> Map<Seq<u8>, Seq<u8>> {
    Map::new(
        |k: Seq<u8>| exists|i: int| 0 <= i < s.len() && s[i].0@ == k,
        |k: Seq<u8>| s[choose|i: int| 0 <= i < s.len() && s[i].0@ == k].1@,
    )
}

/// Each entry of an association list without repeated keys is in its map.
pub proof fn lemma_entries_map_index(s: Seq<(Vec<u8>, Vec<u8>)>, i: int)
    requires
        uniq_keys(s),
        0 <= i < s.len(),
    ensures
        entries_map(s).contains_key(s[i].0@),
        entries_map(s)[s[i].0@] == s[i].1@,
{
    let k = s[i].0@;
    assert(exists|j: int| 0 <= j < s.len() && s[j].0@ == k);
    let j = choose|j: int| 0 <= j < s.len() && s[j].0@ == k;
    if i < j {
        assert(s[i].0@ != s[j].0@);
    } else if j < i {
        assert(s[j].0@ != s[i].0@);
    }
}

/// A key no entry carries is not in the list's map.
pub proof fn lemma_entries_map_absent(s: Seq<(Vec<u8>, Vec<u8>)>, k: Seq<u8>)
    requires
        forall|i: int| 0 <= i < s.len() ==> s[i].0@ != k,
    ensures
        !entries_map(s).contains_key(k),
{
}

/// The smaller of two naturals.
pub open spec fn min_nat(a: nat, b: nat) -> nat {
    if a <= b {
        a
    } else {
        b
    }
}

/// Dropping the entry at `i` from an association list without repeated keys
/// removes exactly that entry's key from the map it denotes.
pub proof fn lemma_entries_map_remove_at(s: Seq<(Vec<u8>, Vec<u8>)>, i: int)
    requires
        uniq_keys(s),
        0 <= i < s.len(),
    ensures
        uniq_keys(s.remove(i)),
        forall|j: int| 0 <= j < s.remove(i).len() ==> s.remove(i)[j].0@ != s[i].0@,
        entries_map(s.remove(i)) == entries_map(s).remove(s[i].0@),
{
    let t = s.remove(i);
    let k0 = s[i].0@;
    s.remove_ensures(i);
    assert forall|a: int, b: int| 0 <= a < b < t.len() implies t[a].0@ != t[b].0@ by {
        let a2: int = if a < i { a } else { a + 1 };
        let b2: int = if b < i { b } else { b + 1 };
        assert(t[a] == s[a2]);
        assert(t[b] == s[b2]);
    }
    assert forall|j: int| 0 <= j < t.len() implies t[j].0@ != k0 by {
        let j2: int = if j < i { j } else { j + 1 };
        assert(t[j] == s[j2]);
    }
    let m1 = entries_map(t);
    let m2 = entries_map(s).remove(k0);
    assert forall|k: Seq<u8>| m1.contains_key(k) implies m2.contains_key(k) && m1[k] == m2[k] by {
        let j = choose|j: int| 0 <= j < t.len() && t[j].0@ == k;
        let j2: int = if j < i { j } else { j + 1 };
        assert(t[j] == s[j2]);
        assert(k != k0);
        lemma_entries_map_index(t, j);
        lemma_entries_map_index(s, j2);
    }
    assert forall|k: Seq<u8>| m2.contains_key(k) implies m1.contains_key(k) by {
        let j = choose|j: int| 0 <= j < s.len() && s[j].0@ == k;
        assert(j != i);
        let j2: int = if j < i { j } else { j - 1 };
        assert(t[j2] == s[j]);
    }
    assert(m1 =~= m2);
}

/// Appending an entry whose key no entry carries inserts that pair into the
/// map an association list denotes.
pub proof fn lemma_entries_map_push(s: Seq<(Vec<u8>, Vec<u8>)>, kv: (Vec<u8>, Vec<u8>))
    requires
        uniq_keys(s),
        forall|j: int| 0 <= j < s.len() ==> s[j].0@ != kv.0@,
    ensures
        uniq_keys(s.push(kv)),
        entries_map(s.push(kv)) == entries_map(s).insert(kv.0@, kv.1@),
{
    let t = s.push(kv);
    let n = s.len() as int;
    assert forall|a: int, b: int| 0 <= a < b < t.len() implies t[a].0@ != t[b].0@ by {
        assert(t[a] == s[a]);
        if b < n {
            assert(t[b] == s[b]);
        } else {
            assert(t[b] == kv);
        }
    }
    let m1 = entries_map(t);
    let m2 = entries_map(s).insert(kv.0@, kv.1@);
    assert forall|k: Seq<u8>| m1.contains_key(k) implies m2.contains_key(k) && m1[k] == m2[k] by {
        let j = choose|j: int| 0 <= j < t.len() && t[j].0@ == k;
        lemma_entries_map_index(t, j);
        if j < n {
            assert(t[j] == s[j]);
            assert(k != kv.0@);
            lemma_entries_map_index(s, j);
        } else {
            assert(t[j] == kv);
        }
    }
    assert forall|k: Seq<u8>| m2.contains_key(k) implies m1.contains_key(k) by {
        if k == kv.0@ {
            assert(t[n] == kv);
        } else {
            let j = choose|j: int| 0 <= j < s.len() && s[j].0@ == k;
            assert(t[j] == s[j]);
        }
    }
    assert(m1 =~= m2);
}

} // verus!
