//! Key-size policy: the one invariant this layer enforces before any host call.

use vstd::prelude::*;

verus! {

/// Largest key length, in bytes, that the adapter accepts.
///
/// Chosen to stay safely below the smallest key-length limit across the
/// backing storage engines the host might use (1024 bytes), after subtracting
/// the host's value-splitting overhead (4 bytes) and headroom for a base-key
/// prefix.
pub const MAX_KEY_SIZE: usize = 900;

/// Whether a key or key-prefix fits the host's key budget.
pub open spec fn valid_key(key: Seq<u8>) -> bool {
    key.len() <= MAX_KEY_SIZE
}

/// The one error this layer raises itself: a key or key-prefix longer than
/// [`MAX_KEY_SIZE`].  It is always raised before any host call, and is not
/// retryable: the caller must shorten the key.
#[derive(Clone, Copy, Debug, PartialEq, Eq, Structural)]
pub enum ViewError {
    KeyTooLong,
}

/// Accepts a key or key-prefix only when it fits the host's key budget.
///
/// Every public read or write entry point runs this check on every key it is
/// given before issuing any host call, so that no round trip is wasted on an
/// input that cannot succeed.
pub fn check_key_size(key: &[u8]) -> (r: Result<(), ViewError>)
    ensures
        r is Ok <==> valid_key(key@),
        r is Err ==> r == Err::<(), ViewError>(ViewError::KeyTooLong),
{
    if key.len() <= MAX_KEY_SIZE {
        Ok(())
    } else {
        Err(ViewError::KeyTooLong)
    }
}

} // verus!
