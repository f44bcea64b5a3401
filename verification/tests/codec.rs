use utrace::codec::{encode, Decoder, TracePoint};

fn encode_to(stream: &mut Vec<u8>, tp: TracePoint) {
    let bytes = encode(tp);
    stream.extend_from_slice(&bytes);
}

#[test]
fn test_enc_dec() {
    let in_packets = [
        TracePoint {
            id: 10,
            delta_t: 130,
        },
        TracePoint {
            id: 10,
            delta_t: 1030,
        },
        TracePoint {
            id: 10,
            delta_t: 20,
        },
        TracePoint { id: 10, delta_t: 0 },
        TracePoint {
            id: 10,
            delta_t: 130430,
        },
        TracePoint {
            id: 10,
            delta_t: 0x00_20_00_00,
        },
    ];

    let mut serialized: Vec<u8> = Vec::new();

    for p in in_packets {
        encode_to(&mut serialized, p);
    }

    let mut deserialized: Vec<TracePoint> = Vec::new();

    let mut dec = Decoder::new();

    for b in serialized {
        let data = dec.push_byte(b);

        if let Some(data) = data {
            deserialized.push(data);
        }
    }

    assert_eq!(deserialized.len(), in_packets.len());

    for (out, inp) in deserialized.iter().zip(in_packets.iter()) {
        assert_eq!(out, inp);
    }
}

#[test]
fn encoding_test_enc_dec() {
    let in_packets = [
        TracePoint {
            id: 10,
            delta_t: 130,
        },
        TracePoint {
            id: 10,
            delta_t: 1030,
        },
        TracePoint {
            id: 10,
            delta_t: 20,
        },
        TracePoint { id: 10, delta_t: 0 },
        TracePoint {
            id: 10,
            delta_t: 130430,
        },
    ];

    let mut serialized: Vec<u8> = Vec::new();

    for p in in_packets {
        encode_to(&mut serialized, p);
    }

    let mut deserialized: Vec<TracePoint> = Vec::new();

    let mut dec = Decoder::new();

    for b in serialized {
        let data = dec.push_byte(b);

        if let Some(data) = data {
            deserialized.push(data);
        }
    }

    assert_eq!(deserialized.len(), in_packets.len());

    for (out, inp) in deserialized.iter().zip(in_packets.iter()) {
        assert_eq!(out, inp);
    }
}

#[test]
fn encode_small_delta() {
    assert_eq!(
        encode(TracePoint { id: 10, delta_t: 130 }),
        vec![0x0A, 0x02, 0x81]
    );
}

#[test]
fn encode_zero_delta_is_minimal() {
    assert_eq!(encode(TracePoint { id: 10, delta_t: 0 }), vec![0x0A, 0x80]);
}

#[test]
fn encode_length_follows_thresholds() {
    assert_eq!(encode(TracePoint { id: 10, delta_t: 0x0020_0000 }).len(), 5);
    assert_eq!(encode(TracePoint { id: 10, delta_t: 0 }).len(), 2);
    assert_eq!(encode(TracePoint { id: 10, delta_t: 0x7F }).len(), 2);
    assert_eq!(encode(TracePoint { id: 10, delta_t: 0x80 }).len(), 3);
    assert_eq!(encode(TracePoint { id: 10, delta_t: 0x3FFF }).len(), 3);
    assert_eq!(encode(TracePoint { id: 10, delta_t: 0x4000 }).len(), 4);
    assert_eq!(encode(TracePoint { id: 10, delta_t: 0x001F_FFFF }).len(), 4);
    assert_eq!(encode(TracePoint { id: 10, delta_t: 0x0FFF_FFFF }).len(), 5);
    assert_eq!(encode(TracePoint { id: 10, delta_t: 0x1000_0000 }).len(), 6);
    assert_eq!(encode(TracePoint { id: 10, delta_t: u32::MAX }).len(), 6);
}

#[test]
fn encode_top_bits() {
    for &dt in &[0u32, 1, 127, 128, 1 << 14, 1 << 21, 1 << 28, u32::MAX] {
        let bytes = encode(TracePoint { id: 0x2A, delta_t: dt });
        let (last, head) = bytes.split_last().unwrap();
        assert!(*last & 0x80 != 0);
        for b in head {
            assert!(b & 0x80 == 0);
        }
    }
}

#[test]
fn round_trip_samples() {
    let samples = [
        (0u8, 0u32),
        (1, 1),
        (127, 127),
        (10, 1030),
        (200, 128),
        (255, u32::MAX),
        (42, 1 << 28),
    ];
    for &(id, delta_t) in &samples {
        let mut dec = Decoder::new();
        let mut got = None;
        for b in encode(TracePoint { id, delta_t }) {
            got = dec.push_byte(b);
        }
        assert_eq!(got, Some(TracePoint { id, delta_t }));
    }
}

#[test]
fn concatenation_keeps_order() {
    let packets = [
        TracePoint { id: 3, delta_t: 7 },
        TracePoint { id: 9, delta_t: 99999 },
        TracePoint { id: 0, delta_t: 0 },
        TracePoint { id: 77, delta_t: 1 << 22 },
    ];
    let mut stream = Vec::new();
    for &p in &packets {
        encode_to(&mut stream, p);
    }
    let mut dec = Decoder::new();
    let mut out = Vec::new();
    for b in stream {
        if let Some(p) = dec.push_byte(b) {
            out.push(p);
        }
    }
    assert_eq!(out, packets);
}

#[test]
fn resync_after_junk() {
    // Junk that ends in a terminator byte is consumed as one spurious packet;
    // everything after it decodes exactly.
    let mut stream = vec![0x13u8, 0x99];
    encode_to(&mut stream, TracePoint { id: 10, delta_t: 130 });
    encode_to(&mut stream, TracePoint { id: 5, delta_t: 1000 });
    let mut dec = Decoder::new();
    let mut out = Vec::new();
    for b in stream {
        if let Some(p) = dec.push_byte(b) {
            out.push(p);
        }
    }
    assert_eq!(out.len(), 3);
    assert_eq!(out[0], TracePoint { id: 0x13, delta_t: 0x19 });
    assert_eq!(out[1], TracePoint { id: 10, delta_t: 130 });
    assert_eq!(out[2], TracePoint { id: 5, delta_t: 1000 });
}

#[test]
fn junk_ending_in_clear_byte_merges_into_first_packet() {
    // A junk byte with a clear high bit cannot be told apart from the start
    // of a packet: it is absorbed into the first packet read afterwards, and
    // only that one is corrupted.
    let mut dec = Decoder::new();
    let mut out = Vec::new();
    for b in [0xFFu8, 0x7F, 0x0A, 0x02, 0x81] {
        if let Some(p) = dec.push_byte(b) {
            out.push(p);
        }
    }
    assert_eq!(out.len(), 1);
    let merged = out[0];
    assert_eq!(merged.id, 0xFF);
    // The next packet decodes exactly again.
    let mut last = None;
    for b in encode(TracePoint { id: 10, delta_t: 130 }) {
        last = dec.push_byte(b);
    }
    assert_eq!(last, Some(TracePoint { id: 10, delta_t: 130 }));
}

#[test]
fn buffer_is_bounded() {
    // Ten junk bytes followed by a terminator: the decoder keeps only the
    // last six, so the spurious packet is read out of those alone.
    let mut dec = Decoder::new();
    let mut got = None;
    for _ in 0..10 {
        assert_eq!(dec.push_byte(0x01), None);
    }
    got = dec.push_byte(0x81);
    let expected_delta: u64 =
        1 + 128 + 128u64.pow(2) + 128u64.pow(3) + 128u64.pow(4) + 128u64.pow(5);
    assert_eq!(
        got,
        Some(TracePoint {
            id: 1,
            delta_t: (expected_delta % (1u64 << 32)) as u32,
        })
    );
    // The buffer is empty again: the next packet decodes exactly.
    let mut last = None;
    for b in encode(TracePoint { id: 7, delta_t: 3 }) {
        last = dec.push_byte(b);
    }
    assert_eq!(last, Some(TracePoint { id: 7, delta_t: 3 }));
}
