//! Abstract write batches and their translation to the host's operation list.

use vstd::prelude::*;

use crate::bytes::clone_bytes;
use crate::kv::{op_valid, ops_valid, OpView};
use crate::policy::{ViewError, MAX_KEY_SIZE};

verus! {

/// One abstract write operation, as a caller hands it in.
#[derive(Clone, Debug, PartialEq, Eq)]
pub enum WriteOperation {
    Put { key: Vec<u8>, value: Vec<u8> },
    Delete { key: Vec<u8> },
    DeletePrefix { key_prefix: Vec<u8> },
}

impl View for WriteOperation {
    type V = OpView;

    open spec fn view(&self) -> OpView {
        match self {
            WriteOperation::Put { key, value } => OpView::Put { key: key@, value: value@ },
            WriteOperation::Delete { key } => OpView::Delete { key: key@ },
            WriteOperation::DeletePrefix { key_prefix } => OpView::DeletePrefix {
                key_prefix: key_prefix@,
            },
        }
    }
}

/// An ordered list of write operations.
///
/// The host applies a batch as a whole and in the given order: a later
/// operation on a key overrides an earlier one touching it.
#[derive(Clone, Debug, PartialEq, Eq, Default)]
pub struct Batch {
    pub operations: Vec<WriteOperation>,
}

/// One write operation in the form the host's write primitive takes.
#[derive(Clone, Debug, PartialEq, Eq)]
pub enum HostOperation {
    Put { key: Vec<u8>, value: Vec<u8> },
    Delete { key: Vec<u8> },
    DeletePrefix { key_prefix: Vec<u8> },
}

impl View for HostOperation {
    type V = OpView;

    open spec fn view(&self) -> OpView {
        match self {
            HostOperation::Put { key, value } => OpView::Put { key: key@, value: value@ },
            HostOperation::Delete { key } => OpView::Delete { key: key@ },
            HostOperation::DeletePrefix { key_prefix } => OpView::DeletePrefix {
                key_prefix: key_prefix@,
            },
        }
    }
}

/// An abstract operation list, seen abstractly.
pub open spec fn ops_view(ops: Seq<WriteOperation>) -> Seq<OpView> {
    ops.map_values(|op: WriteOperation| op@)
}

/// A host operation list, seen abstractly.
pub open spec fn host_ops_view(ops: Seq<HostOperation>) -> Seq<OpView> {
    ops.map_values(|op: HostOperation| op@)
}

/// Batch translator: maps each abstract operation to the host's operation,
/// preserving the input order, and rejects the whole batch on the first
/// oversized key or key-prefix.
///
/// This is a pure, total-or-nothing transform: it performs no host call, and
/// on failure none of the batch is to be submitted.
pub fn translate_batch(batch: &Batch) -> (r: Result<Vec<HostOperation>, ViewError>)
    ensures
        match r {
            Ok(ops) => ops_valid(ops_view(batch.operations@)) && host_ops_view(ops@)
                == ops_view(batch.operations@),
            Err(e) => e == ViewError::KeyTooLong && !ops_valid(ops_view(batch.operations@)),
        },
{
    let mut out: Vec<HostOperation> = Vec::new();
    let n = batch.operations.len();
    let mut i: usize = 0;
    while i < n
        invariant
            i <= n,
            n == batch.operations@.len(),
            out@.len() == i,
            host_ops_view(out@) =~= ops_view(batch.operations@.take(i as int)),
            forall|j: int| 0 <= j < i ==> op_valid(ops_view(batch.operations@)[j]),
        decreases n - i,
    {
        let ghost prev = out@;
        match &batch.operations[i] {
            WriteOperation::Put { key, value } => {
                if key.len() > MAX_KEY_SIZE {
                    proof {
                        assert(!op_valid(ops_view(batch.operations@)[i as int]));
                    }
                    return Err(ViewError::KeyTooLong);
                }
                out.push(
                    HostOperation::Put { key: clone_bytes(key), value: clone_bytes(value) },
                );
            },
            WriteOperation::Delete { key } => {
                if key.len() > MAX_KEY_SIZE {
                    proof {
                        assert(!op_valid(ops_view(batch.operations@)[i as int]));
                    }
                    return Err(ViewError::KeyTooLong);
                }
                out.push(HostOperation::Delete { key: clone_bytes(key) });
            },
            WriteOperation::DeletePrefix { key_prefix } => {
                if key_prefix.len() > MAX_KEY_SIZE {
                    proof {
                        assert(!op_valid(ops_view(batch.operations@)[i as int]));
                    }
                    return Err(ViewError::KeyTooLong);
                }
                out.push(HostOperation::DeletePrefix { key_prefix: clone_bytes(key_prefix) });
            },
        }
        proof {
            assert(out@ =~= prev.push(out@[i as int]));
            assert(out@[i as int]@ == batch.operations@[i as int]@);
            assert forall|j: int| 0 <= j < out@.len() implies host_ops_view(out@)[j] == ops_view(
                batch.operations@.take(i + 1),
            )[j] by {
                assert(host_ops_view(out@)[j] == out@[j]@);
                assert(ops_view(batch.operations@.take(i + 1))[j] == batch.operations@[j]@);
                if j < i {
                    assert(out@[j] == prev[j]);
                    assert(host_ops_view(prev)[j] == prev[j]@);
                    assert(ops_view(batch.operations@.take(i as int))[j] == batch.operations@[j]@);
                }
            }
            assert(host_ops_view(out@) =~= ops_view(batch.operations@.take(i + 1)));
        }
        i = i + 1;
    }
    proof {
        assert(batch.operations@.take(n as int) =~= batch.operations@);
    }
    Ok(out)
}

} // verus!
