use std::collections::HashMap;
use utrace::codec::{encode, TracePoint};
use utrace::stream_parser::{StreamParser, TimestampedTracepoint};
use utrace::trace_point::{TracePointDataWithLocation, TracePointInfo, TracePointKind};

fn record(id: u64, name: &str) -> TracePointDataWithLocation {
    TracePointDataWithLocation {
        info: TracePointInfo {
            kind: TracePointKind::SyncEnter,
            name: Some(name.to_owned()),
            comment: None,
            skip: None,
            id,
        },
        path: None,
        file_name: None,
        line: None,
    }
}

fn drain(parser: &mut StreamParser, bytes: &[u8]) -> Vec<TimestampedTracepoint> {
    let mut it = parser.push_and_parse(bytes);
    let mut out = Vec::new();
    while let Some(e) = it.next() {
        out.push(e);
    }
    out
}

#[test]
fn reset_then_point() {
    let mut mapping = HashMap::new();
    mapping.insert(5u8, record(500, "five"));
    let expected = record(500, "five");
    let mut parser = StreamParser::new(mapping);

    let mut stream = vec![0x00u8, 0x80];
    stream.extend_from_slice(&encode(TracePoint {
        id: 5,
        delta_t: 1000,
    }));

    let events = drain(&mut parser, &stream);
    assert_eq!(events.len(), 2);
    assert_eq!(events[0], TimestampedTracepoint::Reset);
    assert_eq!(
        events[1],
        TimestampedTracepoint::Point {
            timestamp: 1000,
            tracepoint: expected,
        }
    );
}

#[test]
fn timestamps_accumulate() {
    let mut mapping = HashMap::new();
    mapping.insert(1u8, record(100, "a"));
    mapping.insert(2u8, record(200, "b"));
    let mut parser = StreamParser::new(mapping);

    let mut stream = Vec::new();
    stream.extend_from_slice(&encode(TracePoint { id: 1, delta_t: 10 }));
    stream.extend_from_slice(&encode(TracePoint { id: 2, delta_t: 32 }));
    stream.extend_from_slice(&encode(TracePoint { id: 1, delta_t: 0 }));

    let events = drain(&mut parser, &stream);
    let stamps: Vec<u64> = events
        .iter()
        .map(|e| match e {
            TimestampedTracepoint::Point { timestamp, .. } => *timestamp,
            TimestampedTracepoint::Reset => panic!("unexpected reset"),
        })
        .collect();
    assert_eq!(stamps, vec![10, 42, 42]);
}

#[test]
fn unknown_id_is_skipped_but_advances_time() {
    let mut mapping = HashMap::new();
    mapping.insert(1u8, record(100, "a"));
    let mut parser = StreamParser::new(mapping);

    let mut stream = Vec::new();
    stream.extend_from_slice(&encode(TracePoint { id: 9, delta_t: 40 }));
    stream.extend_from_slice(&encode(TracePoint { id: 1, delta_t: 2 }));

    let events = drain(&mut parser, &stream);
    assert_eq!(events.len(), 1);
    match &events[0] {
        TimestampedTracepoint::Point { timestamp, .. } => assert_eq!(*timestamp, 42),
        TimestampedTracepoint::Reset => panic!("unexpected reset"),
    }
}

#[test]
fn reset_keeps_accumulated_time() {
    let mut mapping = HashMap::new();
    mapping.insert(1u8, record(100, "a"));
    let mut parser = StreamParser::new(mapping);

    let mut stream = Vec::new();
    stream.extend_from_slice(&encode(TracePoint { id: 1, delta_t: 7 }));
    stream.push(0x00);
    stream.push(0x80);
    stream.extend_from_slice(&encode(TracePoint { id: 1, delta_t: 1 }));

    let events = drain(&mut parser, &stream);
    assert_eq!(events.len(), 3);
    assert_eq!(events[1], TimestampedTracepoint::Reset);
    match &events[2] {
        TimestampedTracepoint::Point { timestamp, .. } => assert_eq!(*timestamp, 8),
        TimestampedTracepoint::Reset => panic!("unexpected reset"),
    }
}

#[test]
fn chunk_boundaries_do_not_matter() {
    let mut mapping = HashMap::new();
    mapping.insert(1u8, record(100, "a"));
    let mut parser = StreamParser::new(mapping);

    let stream = encode(TracePoint {
        id: 1,
        delta_t: 999999,
    });
    let (first, second) = stream.split_at(2);
    assert_eq!(drain(&mut parser, first).len(), 0);
    let events = drain(&mut parser, second);
    assert_eq!(events.len(), 1);
    match &events[0] {
        TimestampedTracepoint::Point { timestamp, .. } => assert_eq!(*timestamp, 999999),
        TimestampedTracepoint::Reset => panic!("unexpected reset"),
    }
}

#[test]
fn iterator_is_exhausted_once() {
    let mapping = HashMap::new();
    let mut parser = StreamParser::new(mapping);
    let mut it = parser.push_and_parse(&[0x00, 0x80]);
    assert_eq!(it.next(), Some(TimestampedTracepoint::Reset));
    assert_eq!(it.next(), None);
    assert_eq!(it.next(), None);
}
