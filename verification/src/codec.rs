//! Comma-free, self-synchronizing wire codec for `(id, delta_t)` packets.
//!
//! The high bit of each byte is a continuation/terminator flag: clear means
//! more bytes follow, set means the byte ends its packet. Byte 0 of a packet
//! carries the id; the following bytes carry `delta_t` seven bits at a time,
//! least-significant group first. A packet is between 2 and 6 bytes long.

use vstd::prelude::*;

verus! {

/// Longest legal packet: one id byte plus five 7-bit groups of a 32-bit delta.
pub const MAX_PACKET_LENGTH: usize = 6;

/// One logical unit of the wire stream.
#[derive(Clone, Copy, PartialEq, Eq, Structural, Debug)]
pub struct TracePoint {
    pub delta_t: u32,
    pub id: u8,
}

/// The delta bytes of a packet: 7-bit groups of `dt`, least-significant group
/// first, as few groups as possible but at least one; the last group carries
/// the terminator bit.
pub open spec fn spec_delta_bytes(dt: nat) -> Seq<u8>
    decreases dt,
{
    if dt < 0x80 {
        seq![(dt + 0x80) as u8]
    } else {
        seq![(dt % 0x80) as u8] + spec_delta_bytes(dt / 0x80)
    }
}

/// The encoding of a packet: the id byte followed by the delta bytes.
pub open spec fn spec_encode(id: u8, delta_t: u32) -> Seq<u8> {
    seq![id] + spec_delta_bytes(delta_t as nat)
}

/// The value carried by a sequence of delta bytes: each byte contributes its
/// low seven bits, least-significant group first.
pub open spec fn spec_delta_value(bytes: Seq<u8>) -> nat
    decreases bytes.len(),
{
    if bytes.len() == 0 {
        0
    } else {
        (bytes[0] % 0x80) as nat + 0x80 * spec_delta_value(bytes.skip(1))
    }
}

/// Minimal-length encoding of a packet.
pub fn encode(tp: TracePoint) -> (out: Vec<u8>)
    ensures
        out@ == spec_encode(tp.id, tp.delta_t),
{
    let mut out: Vec<u8> = Vec::new();
    out.push(tp.id);
    let mut dt: u32 = tp.delta_t;
    while dt >= 0x80
        invariant
            out@ + spec_delta_bytes(dt as nat) == spec_encode(tp.id, tp.delta_t),
        decreases dt,
    {
        proof {
            assert(dt & 0x7f == dt % 0x80) by (bit_vector);
            assert(dt >> 7 == dt / 0x80) by (bit_vector);
        }
        out.push((dt & 0x7f) as u8);
        dt = dt >> 7;
        proof {
            assert(out@ + spec_delta_bytes(dt as nat) == spec_encode(tp.id, tp.delta_t));
        }
    }
    proof {
        assert((dt | 0x80) == dt + 0x80) by (bit_vector)
            requires
                dt < 0x80,
        ;
    }
    out.push((dt as u8) | 0x80);
    proof {
        assert(out@ =~= spec_encode(tp.id, tp.delta_t));
    }
    out
}

/// Whether pushing `byte` onto a decoder holding `queue` completes a packet:
/// the transition from a clear high bit to a set high bit marks the boundary.
pub open spec fn spec_closes(queue: Seq<u8>, byte: u8) -> bool {
    queue.len() > 0 && queue.last() < 0x80 && byte >= 0x80
}

/// The packet read out of a drained decoder buffer: the first byte is the id,
/// the rest carry the delta, truncated to 32 bits.
pub open spec fn spec_packet_of(buf: Seq<u8>) -> TracePoint {
    TracePoint {
        id: buf[0],
        delta_t: (spec_delta_value(buf.skip(1)) % 0x1_0000_0000) as u32,
    }
}

/// The decoder buffer after a byte that does not complete a packet: the byte
/// is appended and, if the buffer would outgrow the longest legal packet, the
/// oldest byte is dropped.
pub open spec fn spec_push_bounded(queue: Seq<u8>, byte: u8) -> Seq<u8> {
    let grown = queue.push(byte);
    if grown.len() > MAX_PACKET_LENGTH {
        grown.skip(1)
    } else {
        grown
    }
}

/// One step of the decoder: the buffer after the byte, and the packet the
/// byte completed, if any.
pub open spec fn spec_step(queue: Seq<u8>, byte: u8) -> (Seq<u8>, Option<TracePoint>) {
    if spec_closes(queue, byte) {
        (Seq::<u8>::empty(), Some(spec_packet_of(queue.push(byte))))
    } else {
        (spec_push_bounded(queue, byte), None)
    }
}

/// Streaming decoder: accumulates bytes until a terminator byte follows a
/// non-terminator byte, then yields the packet held by the buffer.
pub struct Decoder {
    queue: Vec<u8>,
}

impl View for Decoder {
    type V = Seq<u8>;

    closed spec fn view(&self) -> Seq<u8> {
        self.queue@
    }
}

impl Decoder {
    /// The decoder buffer never outgrows the longest legal packet.
    pub open spec fn inv(self) -> bool {
        self@.len() <= MAX_PACKET_LENGTH
    }

    pub fn new() -> (r: Decoder)
        ensures
            r@ == Seq::<u8>::empty(),
            r.inv(),
    {
        Decoder { queue: Vec::new() }
    }

    /// Feed one byte; the buffer and the result are exactly those of
    /// [`spec_step`] on the old buffer.
    ///
    /// A terminator byte that follows a non-terminator completes a packet:
    /// the whole buffer is read out and cleared. Any other byte is buffered,
    /// dropping the oldest byte once the buffer outgrows the longest legal
    /// packet.
    pub fn push_byte(&mut self, byte: u8) -> (r: Option<TracePoint>)
        requires
            old(self).inv(),
        ensures
            final(self).inv(),
            (final(self)@, r) == spec_step(old(self)@, byte),
    {
        let n = self.queue.len();
        if n > 0 && self.queue[n - 1] < 0x80 && byte >= 0x80 {
            let id = self.queue[0];
            let mut delta: u32 = (byte & 0x7f) as u32;
            proof {
                assert(byte & 0x7f == byte % 0x80) by (bit_vector);
                assert(seq![byte].skip(1) =~= Seq::<u8>::empty());
                assert(spec_delta_value(Seq::<u8>::empty()) == 0);
                assert(spec_delta_value(seq![byte]) == (byte % 0x80) as nat);
                assert(old(self)@.subrange(n as int, n as int).push(byte) =~= seq![byte]);
            }
            let mut i: usize = n;
            while i > 1
                invariant
                    1 <= i <= n,
                    n == self.queue.len(),
                    self.queue@ == old(self)@,
                    delta as nat == spec_delta_value(
                        old(self)@.subrange(i as int, n as int).push(byte),
                    ) % 0x1_0000_0000,
                decreases i,
            {
                i = i - 1;
                let b = self.queue[i];
                proof {
                    lemma_accumulate_step(delta, b, old(self)@.subrange(i + 1, n as int).push(byte));
                    assert(old(self)@.subrange(i as int, n as int).push(byte).skip(1)
                        =~= old(self)@.subrange(i + 1, n as int).push(byte));
                    assert(old(self)@.subrange(i as int, n as int).push(byte)[0] == old(self)@[i as int]);
                }
                delta = (delta << 7) | ((b & 0x7f) as u32);
            }
            proof {
                assert(old(self)@.subrange(1, n as int).push(byte) =~= old(self)@.push(byte).skip(1));
            }
            self.queue.clear();
            Some(TracePoint { id, delta_t: delta })
        } else {
            self.queue.push(byte);
            if self.queue.len() > MAX_PACKET_LENGTH {
                self.queue.remove(0);
                proof {
                    assert(final(self)@ =~= spec_push_bounded(old(self)@, byte));
                }
            }
            None
        }
    }
}

/// Accumulating one more low byte: shifting the running value left by seven
/// bits and or-ing in the byte's low seven bits extends the little-endian
/// 7-bit-group value, modulo 2^32.
proof fn lemma_accumulate_step(delta: u32, b: u8, tail: Seq<u8>)
    requires
        delta as nat == spec_delta_value(tail) % 0x1_0000_0000,
    ensures
        ((delta << 7) | ((b & 0x7f) as u32)) as nat == ((b % 0x80) as nat + 0x80 * spec_delta_value(
            tail,
        )) % 0x1_0000_0000,
{
    let v = spec_delta_value(tail) as int;
    let m = 0x1_0000_0000 as int;
    assert(((delta << 7) | ((b & 0x7f) as u32)) as u64 == (((b as u64) % 0x80) + 0x80 * (
    delta as u64)) % 0x1_0000_0000) by (bit_vector);
    assert(delta == v % m);
    vstd::arithmetic::div_mod::lemma_mul_mod_noop_right(0x80, v, m);
    assert((0x80 * (v % m)) % m == (0x80 * v) % m);
    vstd::arithmetic::div_mod::lemma_small_mod((b % 0x80) as nat, m as nat);
    vstd::arithmetic::div_mod::lemma_add_mod_noop((b % 0x80) as int, 0x80 * (v % m), m);
    vstd::arithmetic::div_mod::lemma_add_mod_noop((b % 0x80) as int, 0x80 * v, m);
    assert(((b % 0x80) as int + 0x80 * (v % m)) % m == ((b % 0x80) as int + 0x80 * v) % m);
}

impl Default for Decoder {
    fn default() -> (r: Decoder)
        ensures
            r@ == Seq::<u8>::empty(),
            r.inv(),
    {
        Decoder::new()
    }
}

/// The reset marker `(0, 0)` encodes as exactly the two bytes `0x00 0x80`.
pub proof fn lemma_reset_marker_bytes()
    ensures
        spec_encode(0, 0) == seq![0x00u8, 0x80u8],
{
    assert(spec_delta_bytes(0) == seq![0x80u8]);
    assert(spec_encode(0, 0) =~= seq![0x00u8, 0x80u8]);
}

/// A packet survives decoding whenever its first wire byte cannot be mistaken
/// for a terminator: either the id has a clear high bit, or the delta spans
/// at least two bytes.
pub open spec fn spec_packet_wf(p: TracePoint) -> bool {
    p.id < 0x80 || p.delta_t >= 0x80
}

/// The decoder run over a whole byte sequence: the final buffer and the
/// packets yielded, in order.
pub open spec fn spec_decode_stream(queue: Seq<u8>, bytes: Seq<u8>) -> (Seq<u8>, Seq<TracePoint>)
    decreases bytes.len(),
{
    if bytes.len() == 0 {
        (queue, Seq::<TracePoint>::empty())
    } else {
        let stepped = spec_step(queue, bytes[0]);
        let rest = spec_decode_stream(stepped.0, bytes.skip(1));
        (
            rest.0,
            match stepped.1 {
                Some(p) => seq![p] + rest.1,
                None => rest.1,
            },
        )
    }
}

/// The concatenated encoding of a packet sequence.
pub open spec fn spec_encode_stream(ps: Seq<TracePoint>) -> Seq<u8>
    decreases ps.len(),
{
    if ps.len() == 0 {
        Seq::<u8>::empty()
    } else {
        spec_encode(ps[0].id, ps[0].delta_t) + spec_encode_stream(ps.skip(1))
    }
}

/// The delta bytes decode back to the delta they were built from.
pub proof fn lemma_delta_bytes_value(d: nat)
    ensures
        spec_delta_value(spec_delta_bytes(d)) == d,
    decreases d,
{
    if d < 0x80 {
        let s = spec_delta_bytes(d);
        assert(s == seq![(d + 0x80) as u8]);
        assert(s.skip(1) =~= Seq::<u8>::empty());
        assert(spec_delta_value(Seq::<u8>::empty()) == 0);
        assert(((d + 0x80) as u8) % 0x80 == d);
    } else {
        lemma_delta_bytes_value(d / 0x80);
        let s = spec_delta_bytes(d);
        assert(s == seq![(d % 0x80) as u8] + spec_delta_bytes(d / 0x80));
        assert(s.skip(1) =~= spec_delta_bytes(d / 0x80));
        assert(s[0] == (d % 0x80) as u8);
        assert((d % 0x80) as nat + 0x80 * (d / 0x80) == d) by {
            vstd::arithmetic::div_mod::lemma_fundamental_div_mod(d as int, 0x80);
        }
    }
}

/// How many delta bytes a delta takes: one group, plus one for each power
/// 2^7, 2^14, 2^21, 2^28 that the delta reaches.
pub open spec fn spec_threshold_count(dt: u32) -> int {
    (if dt >= 0x80 { 1int } else { 0int }) + (if dt >= 0x4000 { 1int } else { 0int }) + (if dt
        >= 0x200000 { 1int } else { 0int }) + (if dt >= 0x10000000 { 1int } else { 0int })
}

proof fn lemma_delta_bytes_len(d: nat)
    requires
        d < 0x1_0000_0000,
    ensures
        spec_delta_bytes(d).len() == 1 + spec_threshold_count(d as u32),
    decreases d,
{
    if d < 0x80 {
    } else {
        lemma_delta_bytes_len(d / 0x80);
        assert(spec_delta_bytes(d).len() == 1 + spec_delta_bytes(d / 0x80).len());
    }
}

/// Packet length law: an encoded packet is two bytes long, plus one byte for
/// each of the powers 2^7, 2^14, 2^21, 2^28 that the delta meets or exceeds.
pub proof fn lemma_encode_length(id: u8, delta_t: u32)
    ensures
        spec_encode(id, delta_t).len() == 2 + spec_threshold_count(delta_t),
        2 <= spec_encode(id, delta_t).len() <= MAX_PACKET_LENGTH,
{
    lemma_delta_bytes_len(delta_t as nat);
}

proof fn lemma_delta_bytes_top_bits(d: nat)
    ensures
        forall|i: int| 0 <= i < spec_delta_bytes(d).len() - 1 ==> spec_delta_bytes(d)[i] < 0x80,
        spec_delta_bytes(d).last() >= 0x80,
    decreases d,
{
    if d < 0x80 {
    } else {
        lemma_delta_bytes_top_bits(d / 0x80);
        let s = spec_delta_bytes(d);
        let rest = spec_delta_bytes(d / 0x80);
        assert(s == seq![(d % 0x80) as u8] + rest);
        assert(forall|i: int| 0 <= i < s.len() - 1 ==> s[i] < 0x80) by {
            assert(forall|i: int| 1 <= i < s.len() ==> s[i] == rest[i - 1]);
        }
        assert(s.last() == rest.last());
    }
}

/// Top-bit invariant: in the encoding of a packet whose id has a clear high
/// bit, only the final byte carries a set high bit.
pub proof fn lemma_encode_top_bits(id: u8, delta_t: u32)
    requires
        id < 0x80,
    ensures
        forall|i: int|
            0 <= i < spec_encode(id, delta_t).len() - 1 ==> spec_encode(id, delta_t)[i] < 0x80,
        spec_encode(id, delta_t).last() >= 0x80,
{
    lemma_delta_bytes_top_bits(delta_t as nat);
    let e = spec_encode(id, delta_t);
    let rest = spec_delta_bytes(delta_t as nat);
    assert(forall|i: int| 1 <= i < e.len() ==> e[i] == rest[i - 1]);
    assert(e.last() == rest.last());
}

/// Decoding a concatenation runs the decoder through the first part, then the
/// second from the buffer the first part left behind.
pub proof fn lemma_decode_stream_append(queue: Seq<u8>, a: Seq<u8>, b: Seq<u8>)
    ensures
        spec_decode_stream(queue, a + b).0 == spec_decode_stream(
            spec_decode_stream(queue, a).0,
            b,
        ).0,
        spec_decode_stream(queue, a + b).1 == spec_decode_stream(queue, a).1 + spec_decode_stream(
            spec_decode_stream(queue, a).0,
            b,
        ).1,
    decreases a.len(),
{
    if a.len() == 0 {
        assert(a + b =~= b);
        assert(spec_decode_stream(queue, a).1 + spec_decode_stream(queue, b).1 =~= spec_decode_stream(
            queue,
            b,
        ).1);
    } else {
        let stepped = spec_step(queue, a[0]);
        lemma_decode_stream_append(stepped.0, a.skip(1), b);
        assert((a + b).skip(1) =~= a.skip(1) + b);
        assert((a + b)[0] == a[0]);
        match stepped.1 {
            Some(p) => {
                assert(seq![p] + (spec_decode_stream(stepped.0, a.skip(1)).1 + spec_decode_stream(
                    spec_decode_stream(stepped.0, a.skip(1)).0,
                    b,
                ).1) =~= (seq![p] + spec_decode_stream(stepped.0, a.skip(1)).1)
                    + spec_decode_stream(spec_decode_stream(stepped.0, a.skip(1)).0, b).1);
            },
            None => {},
        }
    }
}

/// Feeding the delta bytes of `d` into a decoder holding a non-empty buffer
/// that cannot close early drains the buffer into exactly one packet: the
/// buffer and the delta bytes together.
proof fn lemma_feed_delta(queue: Seq<u8>, d: nat)
    requires
        1 <= queue.len(),
        queue.len() + spec_delta_bytes(d).len() <= MAX_PACKET_LENGTH + 1,
        queue.last() < 0x80 || d >= 0x80,
    ensures
        spec_decode_stream(queue, spec_delta_bytes(d)) == (
            Seq::<u8>::empty(),
            seq![spec_packet_of(queue + spec_delta_bytes(d))],
        ),
    decreases d,
{
    let s = spec_delta_bytes(d);
    if d < 0x80 {
        let t = (d + 0x80) as u8;
        assert(s == seq![t]);
        assert(spec_closes(queue, t));
        assert(s.skip(1) =~= Seq::<u8>::empty());
        assert(spec_decode_stream(Seq::<u8>::empty(), Seq::<u8>::empty()).0 == Seq::<u8>::empty());
        assert(spec_decode_stream(Seq::<u8>::empty(), Seq::<u8>::empty()).1
            == Seq::<TracePoint>::empty());
        assert(spec_decode_stream(queue, s).0 == spec_decode_stream(
            spec_step(queue, t).0,
            s.skip(1),
        ).0);
        assert(spec_decode_stream(queue, s).1 == seq![spec_packet_of(queue.push(t))]
            + spec_decode_stream(spec_step(queue, t).0, s.skip(1)).1);
        assert(queue.push(t) =~= queue + s);
        assert(spec_decode_stream(queue, s).1 =~= seq![spec_packet_of(queue + s)]);
        assert(spec_decode_stream(queue, s) == (
            Seq::<u8>::empty(),
            seq![spec_packet_of(queue + s)],
        ));
    } else {
        let x = (d % 0x80) as u8;
        let rest = spec_delta_bytes(d / 0x80);
        assert(s == seq![x] + rest);
        assert(s[0] == x && x < 0x80);
        assert(!spec_closes(queue, x));
        assert(spec_push_bounded(queue, x) == queue.push(x)) by {
            assert(rest.len() >= 1);
        }
        lemma_feed_delta(queue.push(x), d / 0x80);
        assert(s.skip(1) =~= rest);
        assert(queue.push(x) + rest =~= queue + s);
        assert(spec_decode_stream(queue, s) =~= (
            Seq::<u8>::empty(),
            seq![spec_packet_of(queue + s)],
        ));
    }
}

/// Round trip: from an empty buffer, the encoding of a well-formed packet
/// decodes to exactly that packet and leaves the buffer empty.
pub proof fn lemma_round_trip(p: TracePoint)
    requires
        spec_packet_wf(p),
    ensures
        spec_decode_stream(Seq::<u8>::empty(), spec_encode(p.id, p.delta_t)) == (
            Seq::<u8>::empty(),
            seq![p],
        ),
{
    let e = spec_encode(p.id, p.delta_t);
    let sdb = spec_delta_bytes(p.delta_t as nat);
    lemma_delta_bytes_len(p.delta_t as nat);
    assert(!spec_closes(Seq::<u8>::empty(), p.id));
    assert(spec_push_bounded(Seq::<u8>::empty(), p.id) =~= seq![p.id]);
    assert(e[0] == p.id);
    assert(e.skip(1) =~= sdb);
    if p.delta_t < 0x80 {
        assert(p.id < 0x80);
        assert(seq![p.id].last() == p.id);
    }
    lemma_feed_delta(seq![p.id], p.delta_t as nat);
    let buf = seq![p.id] + sdb;
    assert(buf[0] == p.id);
    assert(buf.skip(1) =~= sdb);
    lemma_delta_bytes_value(p.delta_t as nat);
    vstd::arithmetic::div_mod::lemma_small_mod(p.delta_t as nat, 0x1_0000_0000);
    assert(spec_packet_of(buf) == p);
    assert(spec_decode_stream(Seq::<u8>::empty(), e) =~= (Seq::<u8>::empty(), seq![p]));
}

/// Concatenation: from an empty buffer, the concatenated encodings of
/// well-formed packets decode back to exactly those packets, in order.
pub proof fn lemma_decode_concat(ps: Seq<TracePoint>)
    requires
        forall|i: int| 0 <= i < ps.len() ==> spec_packet_wf(#[trigger] ps[i]),
    ensures
        spec_decode_stream(Seq::<u8>::empty(), spec_encode_stream(ps)) == (
            Seq::<u8>::empty(),
            ps,
        ),
    decreases ps.len(),
{
    if ps.len() == 0 {
        assert(spec_decode_stream(Seq::<u8>::empty(), spec_encode_stream(ps)) =~= (
            Seq::<u8>::empty(),
            ps,
        ));
    } else {
        lemma_round_trip(ps[0]);
        lemma_decode_stream_append(
            Seq::<u8>::empty(),
            spec_encode(ps[0].id, ps[0].delta_t),
            spec_encode_stream(ps.skip(1)),
        );
        lemma_decode_concat(ps.skip(1));
        assert(seq![ps[0]] + ps.skip(1) =~= ps);
    }
}

/// The decoder buffer stays bounded by the longest legal packet.
pub proof fn lemma_queue_bounded(queue: Seq<u8>, bytes: Seq<u8>)
    requires
        queue.len() <= MAX_PACKET_LENGTH,
    ensures
        spec_decode_stream(queue, bytes).0.len() <= MAX_PACKET_LENGTH,
    decreases bytes.len(),
{
    if bytes.len() > 0 {
        lemma_queue_bounded(spec_step(queue, bytes[0]).0, bytes.skip(1));
    }
}

/// Feeding the delta bytes of `d` into any bounded non-empty buffer that
/// cannot close early leaves the buffer empty, whatever packet comes out.
proof fn lemma_feed_delta_empties(queue: Seq<u8>, d: nat)
    requires
        1 <= queue.len() <= MAX_PACKET_LENGTH,
        queue.last() < 0x80 || d >= 0x80,
    ensures
        spec_decode_stream(queue, spec_delta_bytes(d)).0 == Seq::<u8>::empty(),
    decreases d,
{
    let s = spec_delta_bytes(d);
    if d < 0x80 {
        let t = (d + 0x80) as u8;
        assert(s == seq![t]);
        assert(spec_closes(queue, t));
        assert(s.skip(1) =~= Seq::<u8>::empty());
        assert(spec_decode_stream(Seq::<u8>::empty(), Seq::<u8>::empty()).0 == Seq::<u8>::empty());
        assert(spec_decode_stream(queue, s).0 == spec_decode_stream(
            spec_step(queue, t).0,
            s.skip(1),
        ).0);
    } else {
        let x = (d % 0x80) as u8;
        assert(s == seq![x] + spec_delta_bytes(d / 0x80));
        assert(s[0] == x && x < 0x80);
        assert(!spec_closes(queue, x));
        let q2 = spec_push_bounded(queue, x);
        assert(1 <= q2.len() <= MAX_PACKET_LENGTH && q2.last() == x);
        lemma_feed_delta_empties(q2, d / 0x80);
        assert(s.skip(1) =~= spec_delta_bytes(d / 0x80));
        assert(spec_decode_stream(queue, s).0 == spec_decode_stream(q2, s.skip(1)).0);
    }
}

/// Resynchronization kernel: after any bounded buffer contents, the encoding
/// of a well-formed packet drains the decoder completely.
pub proof fn lemma_packet_resets_queue(queue: Seq<u8>, p: TracePoint)
    requires
        queue.len() <= MAX_PACKET_LENGTH,
        spec_packet_wf(p),
    ensures
        spec_decode_stream(queue, spec_encode(p.id, p.delta_t)).0 == Seq::<u8>::empty(),
{
    let e = spec_encode(p.id, p.delta_t);
    let sdb = spec_delta_bytes(p.delta_t as nat);
    assert(e[0] == p.id);
    assert(e.skip(1) =~= sdb);
    let q1 = spec_step(queue, p.id).0;
    assert(spec_decode_stream(queue, e).0 == spec_decode_stream(q1, e.skip(1)).0);
    if spec_closes(queue, p.id) {
        assert(p.id >= 0x80 && p.delta_t >= 0x80);
        assert(q1 == Seq::<u8>::empty());
        let x = (p.delta_t as nat % 0x80) as u8;
        assert(sdb == seq![x] + spec_delta_bytes(p.delta_t as nat / 0x80));
        assert(sdb[0] == x && x < 0x80);
        assert(!spec_closes(Seq::<u8>::empty(), x));
        assert(spec_push_bounded(Seq::<u8>::empty(), x) =~= seq![x]);
        lemma_feed_delta_empties(seq![x], p.delta_t as nat / 0x80);
        assert(sdb.skip(1) =~= spec_delta_bytes(p.delta_t as nat / 0x80));
        assert(spec_decode_stream(q1, sdb).0 == spec_decode_stream(seq![x], sdb.skip(1)).0);
    } else {
        let q2 = spec_push_bounded(queue, p.id);
        assert(q1 == q2);
        assert(1 <= q2.len() <= MAX_PACKET_LENGTH && q2.last() == p.id);
        if p.id >= 0x80 {
            assert(p.delta_t >= 0x80);
        }
        lemma_feed_delta_empties(q2, p.delta_t as nat);
    }
}

/// Resynchronization: whatever bytes precede it, a stream of well-formed
/// packets is decoded such that every packet after the first is yielded
/// exactly, in order, at the tail of the output; the first packet is consumed
/// together with the preceding bytes.
pub proof fn lemma_resync(junk: Seq<u8>, ps: Seq<TracePoint>)
    requires
        ps.len() >= 1,
        forall|i: int| 0 <= i < ps.len() ==> spec_packet_wf(#[trigger] ps[i]),
    ensures
        spec_decode_stream(Seq::<u8>::empty(), junk + spec_encode_stream(ps)).1
            == spec_decode_stream(
            Seq::<u8>::empty(),
            junk + spec_encode(ps[0].id, ps[0].delta_t),
        ).1 + ps.skip(1),
        spec_decode_stream(Seq::<u8>::empty(), junk + spec_encode_stream(ps)).0
            == Seq::<u8>::empty(),
{
    let head = spec_encode(ps[0].id, ps[0].delta_t);
    let tail = spec_encode_stream(ps.skip(1));
    assert(spec_encode_stream(ps) == head + tail);
    assert(junk + spec_encode_stream(ps) =~= (junk + head) + tail);
    lemma_decode_stream_append(Seq::<u8>::empty(), junk + head, tail);
    lemma_decode_stream_append(Seq::<u8>::empty(), junk, head);
    lemma_queue_bounded(Seq::<u8>::empty(), junk);
    lemma_packet_resets_queue(spec_decode_stream(Seq::<u8>::empty(), junk).0, ps[0]);
    assert(spec_decode_stream(Seq::<u8>::empty(), junk + head).0 == Seq::<u8>::empty());
    lemma_decode_concat(ps.skip(1));
}

} // verus!
