use utrace::codec::{encode, TracePoint};
use utrace::init;
use utrace::tracer::{emit_packet, timestamp_delta, SkipConfig, Tracer};

#[test]
fn init_emits_reset_marker() {
    assert_eq!(init(), vec![0x00, 0x80]);
}

#[test]
fn no_skip_emits_every_time() {
    let mut cfg = SkipConfig::NoSkip;
    let (tracer, enter) = Tracer::new(Some(4), Some(5), &mut cfg);
    assert_eq!(enter, Some(4));
    let tracer = tracer.unwrap();
    assert_eq!(tracer.finish(), Some(5));
    assert_eq!(cfg, SkipConfig::NoSkip);
}

#[test]
fn suppressed_sides_emit_nothing() {
    let mut cfg = SkipConfig::NoSkip;
    let (tracer, enter) = Tracer::new(None, None, &mut cfg);
    assert_eq!(enter, None);
    assert_eq!(tracer.unwrap().finish(), None);
}

#[test]
fn skip_emits_every_nth() {
    let mut cfg = SkipConfig::Skip {
        counter: 0,
        limit: 3,
    };
    let mut emitted = Vec::new();
    for _ in 0..7 {
        let (tracer, enter) = Tracer::new(Some(1), Some(2), &mut cfg);
        assert_eq!(tracer.is_some(), enter.is_some());
        emitted.push(enter.is_some());
        if let Some(t) = tracer {
            assert_eq!(t.finish(), Some(2));
        }
    }
    assert_eq!(emitted, vec![false, false, true, false, false, true, false]);
    assert_eq!(
        cfg,
        SkipConfig::Skip {
            counter: 1,
            limit: 3,
        }
    );
}

#[test]
fn skip_counter_resets_on_emission() {
    let mut cfg = SkipConfig::Skip {
        counter: 41,
        limit: 42,
    };
    let (tracer, enter) = Tracer::new(Some(1), None, &mut cfg);
    assert!(tracer.is_some());
    assert_eq!(enter, Some(1));
    assert_eq!(
        cfg,
        SkipConfig::Skip {
            counter: 0,
            limit: 42,
        }
    );
}

#[test]
fn delta_is_truncated_to_32_bits() {
    assert_eq!(timestamp_delta(0, 1000), (1000, 1000));
    assert_eq!(timestamp_delta(500, 1500), (1000, 1500));
    let wide = (1u64 << 32) + 7;
    assert_eq!(timestamp_delta(0, wide), (7, wide));
}

#[test]
fn emit_packet_encodes_delta() {
    let (bytes, new_last) = emit_packet(9, 100, 1130);
    assert_eq!(bytes, encode(TracePoint { id: 9, delta_t: 1030 }));
    assert_eq!(new_last, 1130);
}
