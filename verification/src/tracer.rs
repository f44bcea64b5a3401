//! Per-site tracer logic: a scoped object whose construction optionally emits
//! an enter packet and whose end of scope optionally emits an exit packet,
//! with optional every-N-th-activation sampling.
//!
//! Emission itself — reading the clock and handing the encoded bytes to the
//! transport — happens outside, under the caller's interrupt exclusion; this
//! module decides what to emit and computes the bytes.

use vstd::prelude::*;
use crate::codec;

verus! {

/// Sampling policy of one site: emit every activation, or only every N-th.
#[derive(PartialEq, Eq, Structural, Debug, Clone, Copy)]
pub enum SkipConfig {
    NoSkip,
    Skip { counter: u32, limit: u32 },
}

/// A live trace scope; holds the id to emit when the scope ends.
#[derive(PartialEq, Eq, Structural, Debug, Clone, Copy)]
pub struct Tracer {
    pub exit_id: Option<u8>,
}

/// Whether the current activation is emitted: always without sampling, and
/// exactly when the incremented counter reaches the limit with it.
pub open spec fn spec_skip_emits(sc: SkipConfig) -> bool {
    match sc {
        SkipConfig::NoSkip => true,
        SkipConfig::Skip { counter, limit } => counter + 1 >= limit,
    }
}

/// The sampling state after one activation: the counter advances, and resets
/// to zero on the activation that is emitted.
pub open spec fn spec_skip_next(sc: SkipConfig) -> SkipConfig {
    match sc {
        SkipConfig::NoSkip => SkipConfig::NoSkip,
        SkipConfig::Skip { counter, limit } => if counter + 1 >= limit {
            SkipConfig::Skip { counter: 0, limit }
        } else {
            SkipConfig::Skip { counter: (counter + 1) as u32, limit }
        },
    }
}

impl Tracer {
    /// Enter an instrumented region. Advances the sampling state; on an
    /// emitted activation returns the tracer for the scope together with the
    /// entry id to emit (if the entry side is enabled), on a skipped one
    /// returns neither.
    pub fn new(entry_id: Option<u8>, exit_id: Option<u8>, skip_config: &mut SkipConfig) -> (r: (
        Option<Tracer>,
        Option<u8>,
    ))
        requires
            *old(skip_config) matches SkipConfig::Skip { counter, .. } ==> counter < u32::MAX,
        ensures
            *final(skip_config) == spec_skip_next(*old(skip_config)),
            spec_skip_emits(*old(skip_config)) ==> r == (
                Some(Tracer { exit_id }),
                entry_id,
            ),
            !spec_skip_emits(*old(skip_config)) ==> r == (None::<Tracer>, None::<u8>),
    {
        match skip_config {
            SkipConfig::NoSkip => (Some(Tracer { exit_id }), entry_id),
            SkipConfig::Skip { counter, limit } => {
                let c: u32 = *counter + 1;
                let l: u32 = *limit;
                if c >= l {
                    *skip_config = SkipConfig::Skip { counter: 0, limit: l };
                    (Some(Tracer { exit_id }), entry_id)
                } else {
                    *skip_config = SkipConfig::Skip { counter: c, limit: l };
                    (None, None)
                }
            },
        }
    }

    /// Leave the scope: the id to emit on exit, if the exit side is enabled.
    pub fn finish(self) -> (r: Option<u8>)
        ensures
            r == self.exit_id,
    {
        self.exit_id
    }
}

/// Matched pairs: with both sides of a pair enabled, one activation emits its
/// enter exactly when it hands out the tracer whose end of scope emits the
/// matching exit — enter and exit packets always come in pairs.
pub proof fn lemma_matched_pairs(
    sc: SkipConfig,
    enter: u8,
    exit: u8,
    r: (Option<Tracer>, Option<u8>),
)
    requires
        spec_skip_emits(sc) ==> r == (Some(Tracer { exit_id: Some(exit) }), Some(enter)),
        !spec_skip_emits(sc) ==> r == (None::<Tracer>, None::<u8>),
    ensures
        (r.1 is Some) <==> (r.0 matches Some(t) && t.exit_id is Some),
{
}

/// Delta computation of the timestamp source: microseconds since the last
/// emission, truncated to 32 bits, and the new last-timestamp. The clock is
/// monotonic, so the current tick count is never behind the stored one.
pub fn timestamp_delta(last: u64, now: u64) -> (r: (u32, u64))
    requires
        last <= now,
    ensures
        r.0 == (now - last) % 0x1_0000_0000,
        r.1 == now,
{
    (((now - last) % 0x1_0000_0000) as u32, now)
}

/// One emission: compute the delta since the last emission, advance the
/// last-timestamp, and encode the packet. The caller runs this under its
/// interrupt exclusion and hands the bytes to the transport.
pub fn emit_packet(id: u8, last: u64, now: u64) -> (r: (Vec<u8>, u64))
    requires
        last <= now,
    ensures
        r.0@ == codec::spec_encode(id, (((now - last) % 0x1_0000_0000) as u32)),
        r.1 == now,
{
    let (delta, new_last) = timestamp_delta(last, now);
    let bytes = codec::encode(codec::TracePoint { delta_t: delta, id });
    (bytes, new_last)
}

} // verus!
