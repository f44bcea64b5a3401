//! Low-overhead function-tracing toolkit: a self-synchronizing wire codec for
//! `(id, delta_t)` packets, per-site tracer emission logic, a streaming host
//! parser that reconstructs absolute timestamps, recovery of trace-point
//! metadata from a linked binary's symbol and debug-info tables, and the
//! event-classification logic of the trace-viewer sink.

use vstd::prelude::*;

pub mod codec;
pub mod trace_point;
pub mod tracer;
pub mod stream_parser;
pub mod elf_parser;
pub mod chrometracing;
pub mod instrument;
pub mod transport;

verus! {

/// Largest number of distinct trace points a binary may carry; the runtime id
/// 255 is reserved.
pub const MAX_TRACE_POINTS: usize = 255;

/// Name of the binary section that holds the zero-byte trace-point symbols.
pub const TRACE_POINT_SECTION_NAME: &'static str = ".utrace_trace_points";

/// Bytes a session emits before any tracer runs: the reset marker, the
/// encoding of the packet `(id = 0, delta_t = 0)`.
pub fn init() -> (out: Vec<u8>)
    ensures
        out@ == codec::spec_encode(0, 0),
        out@ == seq![0x00u8, 0x80u8],
{
    proof {
        codec::lemma_reset_marker_bytes();
    }
    codec::encode(codec::TracePoint { delta_t: 0, id: 0 })
}

} // verus!
