use std::collections::HashMap;
use utrace::chrometracing::{ArrowType, EventType, SinkState, Store};
use utrace::trace_point::{TracePointDataWithLocation, TracePointInfo, TracePointKind};

fn record(id: u64, name: &str, kind: TracePointKind) -> TracePointDataWithLocation {
    TracePointDataWithLocation {
        info: TracePointInfo {
            kind,
            name: Some(name.to_owned()),
            comment: None,
            skip: None,
            id,
        },
        path: None,
        file_name: None,
        line: None,
    }
}

fn paired_store() -> Store {
    // One site whose enter and exit share hash id 100: drawn as a span.
    // One lone site with hash id 200: drawn as an instant.
    let mut m = HashMap::new();
    m.insert(1u8, record(100, "f", TracePointKind::SyncEnter));
    m.insert(2u8, record(100, "f", TracePointKind::SyncExit));
    m.insert(3u8, record(200, "lone", TracePointKind::GenericEnter));
    m.insert(4u8, record(300, "inst", TracePointKind::AsyncEnter));
    Store::new(&m)
}

#[test]
fn paired_site_draws_as_span() {
    let store = paired_store();
    let mut state = SinkState::new();
    let info = record(100, "f", TracePointKind::SyncEnter).info;
    let (event, arrow) = store.store_event(&mut state, 10, &info);
    assert_eq!(event.ty, EventType::SpanBegin);
    assert_eq!(event.name, "f");
    assert_eq!(event.cat, "SyncEnter");
    assert_eq!(event.ts, 10);
    // A new task begins: the span begin still carries its arrow start.
    let arrow = arrow.unwrap();
    assert_eq!(arrow.ty, ArrowType::ArrowStart);
    assert_eq!(arrow.id, 0);

    let exit = record(100, "f", TracePointKind::SyncExit).info;
    let (event, arrow) = store.store_event(&mut state, 25, &exit);
    assert_eq!(event.ty, EventType::SpanEnd);
    let arrow = arrow.unwrap();
    assert_eq!(arrow.ty, ArrowType::ArrowStep);
    assert_eq!(arrow.id, 0);
}

#[test]
fn lone_site_draws_as_instant() {
    let store = paired_store();
    let mut state = SinkState::new();
    let info = record(200, "lone", TracePointKind::GenericEnter).info;
    let (event, arrow) = store.store_event(&mut state, 5, &info);
    assert_eq!(event.ty, EventType::Instant);
    assert!(arrow.is_some());
}

#[test]
fn async_instantiation_is_always_instant() {
    let store = paired_store();
    let mut state = SinkState::new();
    let info = record(300, "inst", TracePointKind::AsyncEnter).info;
    let (event, arrow) = store.store_event(&mut state, 5, &info);
    assert_eq!(event.ty, EventType::Instant);
    assert_eq!(arrow.unwrap().ty, ArrowType::ArrowStart);
}

#[test]
fn unknown_hash_id_draws_as_instant() {
    let store = paired_store();
    let mut state = SinkState::new();
    let info = record(999, "ghost", TracePointKind::SyncEnter).info;
    let (event, _) = store.store_event(&mut state, 5, &info);
    assert_eq!(event.ty, EventType::Instant);
}

#[test]
fn distinct_names_get_distinct_arrow_ids() {
    let store = paired_store();
    let mut state = SinkState::new();
    let a = record(100, "f", TracePointKind::SyncEnter).info;
    let mut b = record(200, "lone", TracePointKind::GenericEnter).info;
    b.name = Some("g".to_owned());
    let (_, arrow_a) = store.store_event(&mut state, 1, &a);
    let (_, arrow_b) = store.store_event(&mut state, 2, &b);
    assert_eq!(arrow_a.unwrap().id, 0);
    assert_eq!(arrow_b.unwrap().id, 1);
}

#[test]
fn exit_without_enter_borrows_next_arrow_id() {
    let store = paired_store();
    let mut state = SinkState::new();
    let exit = record(100, "f", TracePointKind::SyncExit).info;
    let (event, arrow) = store.store_event(&mut state, 3, &exit);
    assert_eq!(event.ty, EventType::SpanEnd);
    assert_eq!(arrow.unwrap().id, 1);
}

#[test]
fn poll_reenter_keeps_the_name() {
    // A poll enter of a live name does not drop it: the arrow id stays.
    let store = paired_store();
    let mut state = SinkState::new();
    let poll = record(400, "p", TracePointKind::AsyncPollEnter).info;
    let (_, arrow1) = store.store_event(&mut state, 1, &poll);
    let (_, arrow2) = store.store_event(&mut state, 2, &poll);
    assert_eq!(arrow1.unwrap().id, 0);
    assert_eq!(arrow2.unwrap().id, 0);
    // Any other enter kind restarts the name under a fresh arrow id.
    let sync = record(100, "p", TracePointKind::SyncEnter).info;
    let (_, arrow3) = store.store_event(&mut state, 3, &sync);
    assert_eq!(arrow3.unwrap().id, 1);
}

#[test]
fn async_exit_drops_the_name() {
    let store = paired_store();
    let mut state = SinkState::new();
    let enter = record(300, "inst", TracePointKind::AsyncEnter).info;
    let exit = record(300, "inst", TracePointKind::AsyncExit).info;
    store.store_event(&mut state, 1, &enter);
    let (event, _) = store.store_event(&mut state, 2, &exit);
    assert_eq!(event.ty, EventType::Instant);
    // The name was dropped: a fresh enter registers anew with a new arrow id.
    let (_, arrow) = store.store_event(&mut state, 3, &enter);
    assert_eq!(arrow.unwrap().id, 1);
}
