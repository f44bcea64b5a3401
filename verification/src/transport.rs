//! Byte sink on the target: write-only, and allowed to be lossy — a sink
//! that cannot take the bytes drops them, and the codec's self-synchronization
//! absorbs the gap.

use vstd::prelude::*;

verus! {

/// A transport the target writes encoded packets to.
pub trait Transport {
    fn write(&mut self, buf: &[u8]);
}

} // verus!
