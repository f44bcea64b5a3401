//! Streaming host parser: feeds bytes through the wire decoder, accumulates
//! deltas into absolute timestamps, resolves runtime ids against the mapping
//! recovered from the binary, and yields reset and point events.

use vstd::prelude::*;
use std::collections::HashMap;
use crate::codec;
use crate::codec::{Decoder, TracePoint};
use crate::trace_point::{TracePointDataWithLocation, TracePointId};

verus! {

broadcast use vstd::std_specs::hash::group_hash_axioms;

/// One event of the parsed stream: a timestamped, metadata-resolved trace
/// point, or a session reset.
#[derive(PartialEq, Eq, Debug)]
pub enum TimestampedTracepoint {
    Point { timestamp: u64, tracepoint: TracePointDataWithLocation },
    Reset,
}

impl Clone for TimestampedTracepoint {
    fn clone(&self) -> (r: Self)
        ensures
            r == *self,
    {
        match self {
            TimestampedTracepoint::Point { timestamp, tracepoint } => TimestampedTracepoint::Point {
                timestamp: *timestamp,
                tracepoint: tracepoint.clone(),
            },
            TimestampedTracepoint::Reset => TimestampedTracepoint::Reset,
        }
    }
}

/// What one decoded packet does to the parser: the reset marker yields
/// `Reset` and leaves the accumulated timestamp unchanged; any other packet
/// advances the timestamp by its delta (saturating) and yields a `Point` when
/// its id is known, nothing when it is not.
pub open spec fn spec_event_step(
    map: Map<TracePointId, TracePointDataWithLocation>,
    t: u64,
    p: TracePoint,
) -> (u64, Option<TimestampedTracepoint>) {
    if p.id == 0 && p.delta_t == 0 {
        (t, Some(TimestampedTracepoint::Reset))
    } else {
        let t2 = t.saturating_add(p.delta_t as u64);
        if map.contains_key(p.id) {
            (t2, Some(TimestampedTracepoint::Point { timestamp: t2, tracepoint: map[p.id] }))
        } else {
            (t2, None)
        }
    }
}

/// The parser run over a byte sequence: the final decoder buffer, the final
/// accumulated timestamp, and the events yielded, in order.
pub open spec fn spec_parse_stream(
    map: Map<TracePointId, TracePointDataWithLocation>,
    queue: Seq<u8>,
    t: u64,
    bytes: Seq<u8>,
) -> (Seq<u8>, u64, Seq<TimestampedTracepoint>)
    decreases bytes.len(),
{
    if bytes.len() == 0 {
        (queue, t, Seq::<TimestampedTracepoint>::empty())
    } else {
        let stepped = codec::spec_step(queue, bytes[0]);
        match stepped.1 {
            Some(p) => {
                let ev = spec_event_step(map, t, p);
                let rest = spec_parse_stream(map, stepped.0, ev.0, bytes.skip(1));
                (
                    rest.0,
                    rest.1,
                    match ev.1 {
                        Some(e) => seq![e] + rest.2,
                        None => rest.2,
                    },
                )
            },
            None => spec_parse_stream(map, stepped.0, t, bytes.skip(1)),
        }
    }
}

/// Reset semantics: the two bytes `0x00 0x80` decode to the packet
/// `(0, 0)`, which the parser surfaces as `Reset`, not as a `Point`, leaving
/// the accumulated timestamp unchanged.
pub proof fn lemma_reset_semantics(map: Map<TracePointId, TracePointDataWithLocation>, t: u64)
    ensures
        spec_parse_stream(map, Seq::<u8>::empty(), t, seq![0x00u8, 0x80u8]) == (
            Seq::<u8>::empty(),
            t,
            seq![TimestampedTracepoint::Reset],
        ),
{
    let bytes = seq![0x00u8, 0x80u8];
    let q1 = codec::spec_step(Seq::<u8>::empty(), 0x00u8).0;
    assert(!codec::spec_closes(Seq::<u8>::empty(), 0x00u8));
    assert(q1 =~= seq![0x00u8]);
    assert(bytes.skip(1) =~= seq![0x80u8]);
    assert(codec::spec_closes(q1, 0x80u8));
    let p = codec::spec_packet_of(q1.push(0x80u8));
    assert(q1.push(0x80u8).skip(1) =~= seq![0x80u8]);
    assert(seq![0x80u8].skip(1) =~= Seq::<u8>::empty());
    assert(codec::spec_delta_value(Seq::<u8>::empty()) == 0);
    assert(codec::spec_delta_value(seq![0x80u8]) == 0);
    assert(p == codec::TracePoint { delta_t: 0, id: 0 });
    assert(seq![0x80u8].skip(1) =~= Seq::<u8>::empty());
    assert(spec_parse_stream(map, Seq::<u8>::empty(), t, Seq::<u8>::empty()).2
        == Seq::<TimestampedTracepoint>::empty());
    assert(spec_parse_stream(map, q1, t, seq![0x80u8]).2 =~= seq![TimestampedTracepoint::Reset]);
    assert(spec_parse_stream(map, Seq::<u8>::empty(), t, bytes).2 =~= seq![
        TimestampedTracepoint::Reset,
    ]);
}

/// Every `Point` event in `events` carries a timestamp between `lo` and
/// `hi`, and the timestamps appear in non-decreasing order.
pub open spec fn spec_points_monotonic(
    events: Seq<TimestampedTracepoint>,
    lo: u64,
    hi: u64,
) -> bool {
    &&& forall|i: int|
        0 <= i < events.len() ==> (#[trigger] events[i] matches TimestampedTracepoint::Point {
            timestamp,
            ..
        } ==> lo <= timestamp <= hi)
    &&& forall|i: int, j: int|
        #![trigger events[i], events[j]]
        0 <= i < j < events.len() ==> (events[i] matches TimestampedTracepoint::Point {
            timestamp: ti,
            ..
        } ==> (events[j] matches TimestampedTracepoint::Point { timestamp: tj, .. } ==> ti <= tj))
}

/// Timestamp monotonicity: the parser's accumulated timestamp never
/// decreases, and the `Point` events of any run carry non-decreasing
/// timestamps, all between the starting and the final accumulated time.
pub proof fn lemma_timestamps_monotonic(
    map: Map<TracePointId, TracePointDataWithLocation>,
    queue: Seq<u8>,
    t: u64,
    bytes: Seq<u8>,
)
    ensures
        t <= spec_parse_stream(map, queue, t, bytes).1,
        spec_points_monotonic(
            spec_parse_stream(map, queue, t, bytes).2,
            t,
            spec_parse_stream(map, queue, t, bytes).1,
        ),
    decreases bytes.len(),
{
    if bytes.len() == 0 {
    } else {
        let stepped = codec::spec_step(queue, bytes[0]);
        match stepped.1 {
            Some(p) => {
                let ev = spec_event_step(map, t, p);
                lemma_timestamps_monotonic(map, stepped.0, ev.0, bytes.skip(1));
                let rest = spec_parse_stream(map, stepped.0, ev.0, bytes.skip(1));
                assert(t <= ev.0);
                match ev.1 {
                    Some(e) => {
                        let out = seq![e] + rest.2;
                        assert(forall|i: int| 1 <= i < out.len() ==> out[i] == rest.2[i - 1]);
                        assert(out[0] == e);
                    },
                    None => {},
                }
            },
            None => {
                lemma_timestamps_monotonic(map, stepped.0, t, bytes.skip(1));
            },
        }
    }
}

/// Stateful pull parser over one session's byte stream.
pub struct StreamParser {
    id_mapping: HashMap<TracePointId, TracePointDataWithLocation>,
    decoder_queue: Decoder,
    timestamp: u64,
}

impl StreamParser {
    /// The id-to-metadata mapping the parser resolves packets against.
    pub closed spec fn id_map(self) -> Map<TracePointId, TracePointDataWithLocation> {
        self.id_mapping@
    }

    /// The bytes buffered in the wire decoder.
    pub closed spec fn buffered(self) -> Seq<u8> {
        self.decoder_queue@
    }

    /// The accumulated absolute timestamp, in microseconds.
    pub closed spec fn time(self) -> u64 {
        self.timestamp
    }

    pub closed spec fn inv(self) -> bool {
        self.decoder_queue.inv()
    }

    pub fn new(id_mapping: HashMap<TracePointId, TracePointDataWithLocation>) -> (r: StreamParser)
        ensures
            r.id_map() == id_mapping@,
            r.buffered() == Seq::<u8>::empty(),
            r.time() == 0,
            r.inv(),
    {
        StreamParser { id_mapping, decoder_queue: Decoder::new(), timestamp: 0 }
    }

    /// Feed a chunk of bytes and take the events they complete, as a
    /// single-use iterator. The parser's buffer, timestamp and events are
    /// exactly those of [`spec_parse_stream`] over the chunk.
    pub fn push_and_parse(&mut self, data: &[u8]) -> (it: StreamParserIter)
        requires
            old(self).inv(),
        ensures
            final(self).inv(),
            final(self).id_map() == old(self).id_map(),
            ({
                let r = spec_parse_stream(
                    old(self).id_map(),
                    old(self).buffered(),
                    old(self).time(),
                    data@,
                );
                &&& final(self).buffered() == r.0
                &&& final(self).time() == r.1
                &&& it@ == r.2
            }),
    {
        let ghost map = self.id_mapping@;
        let ghost q0 = self.decoder_queue@;
        let ghost t0 = self.timestamp;
        let mut events: Vec<TimestampedTracepoint> = Vec::new();
        proof {
            assert(data@.skip(0) =~= data@);
            assert(events@ + spec_parse_stream(map, q0, t0, data@).2 =~= spec_parse_stream(
                map,
                q0,
                t0,
                data@,
            ).2);
        }
        let mut i: usize = 0;
        while i < data.len()
            invariant
                i <= data.len(),
                self.inv(),
                self.id_mapping@ == map,
                ({
                    let full = spec_parse_stream(map, q0, t0, data@);
                    let rem = spec_parse_stream(
                        map,
                        self.decoder_queue@,
                        self.timestamp,
                        data@.skip(i as int),
                    );
                    &&& full.0 == rem.0
                    &&& full.1 == rem.1
                    &&& full.2 == events@ + rem.2
                }),
            decreases data.len() - i,
        {
            let ghost qi = self.decoder_queue@;
            let ghost ti = self.timestamp;
            let b = data[i];
            proof {
                assert(data@.skip(i as int)[0] == data@[i as int]);
                assert(data@.skip(i as int).skip(1) =~= data@.skip(i as int + 1));
            }
            if let Some(p) = self.decoder_queue.push_byte(b) {
                if p.id == 0 && p.delta_t == 0 {
                    events.push(TimestampedTracepoint::Reset);
                } else {
                    self.timestamp = self.timestamp.saturating_add(p.delta_t as u64);
                    match self.id_mapping.get(&p.id) {
                        Some(data_rec) => {
                            events.push(
                                TimestampedTracepoint::Point {
                                    timestamp: self.timestamp,
                                    tracepoint: data_rec.clone(),
                                },
                            );
                        },
                        None => {},
                    }
                }
                proof {
                    let ev = spec_event_step(map, ti, p);
                    assert(self.timestamp == ev.0);
                    let rem_old = spec_parse_stream(map, qi, ti, data@.skip(i as int));
                    let rem_new = spec_parse_stream(
                        map,
                        self.decoder_queue@,
                        self.timestamp,
                        data@.skip(i as int + 1),
                    );
                    assert(rem_old.2 == match ev.1 {
                        Some(e) => seq![e] + rem_new.2,
                        None => rem_new.2,
                    });
                    match ev.1 {
                        Some(e) => {
                            assert(events@ + rem_old.2 =~= (events@ + seq![e]) + rem_new.2);
                        },
                        None => {},
                    }
                }
            }
            i = i + 1;
        }
        proof {
            assert(data@.skip(data@.len() as int) =~= Seq::<u8>::empty());
            assert(spec_parse_stream(map, q0, t0, data@).2 =~= events@);
        }
        StreamParserIter::new(events)
    }
}

/// Single-use iterator over the events one chunk of bytes completed; its view
/// is the sequence of events not yet taken.
pub struct StreamParserIter {
    events: Vec<TimestampedTracepoint>,
    pos: usize,
}

impl View for StreamParserIter {
    type V = Seq<TimestampedTracepoint>;

    closed spec fn view(&self) -> Seq<TimestampedTracepoint> {
        if self.pos <= self.events.len() {
            self.events@.skip(self.pos as int)
        } else {
            Seq::<TimestampedTracepoint>::empty()
        }
    }
}

impl StreamParserIter {
    fn new(events: Vec<TimestampedTracepoint>) -> (r: StreamParserIter)
        ensures
            r@ == events@,
    {
        let r = StreamParserIter { events, pos: 0 };
        proof {
            assert(r@ =~= r.events@);
        }
        r
    }

    /// The next event, oldest first; `None` once all are taken.
    pub fn next(&mut self) -> (r: Option<TimestampedTracepoint>)
        ensures
            old(self)@.len() == 0 ==> r is None && final(self)@ == old(self)@,
            old(self)@.len() > 0 ==> r == Some(old(self)@[0]) && final(self)@ == old(self)@.skip(1),
    {
        if self.pos < self.events.len() {
            let e = self.events[self.pos].clone();
            self.pos = self.pos + 1;
            proof {
                assert(final(self)@ =~= old(self)@.skip(1));
            }
            Some(e)
        } else {
            None
        }
    }
}

} // verus!
