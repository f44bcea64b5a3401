//! Trace-viewer sink logic: classify each site as a span or an instant, and
//! turn every parsed point into one viewer event plus, where a new task
//! begins or an async instantiation is referenced, a correlation arrow event.
//!
//! Writing the event log to disk happens outside; this module holds the
//! classification and the per-event state machine.

use vstd::prelude::*;
use std::collections::HashMap;
use crate::trace_point::{
    TracePointDataWithLocation, TracePointId, TracePointInfo, TracePointKind, spec_is_enter,
    spec_kind_label,
};

verus! {

broadcast use vstd::std_specs::hash::group_hash_axioms;

/// How one viewer event is drawn.
#[derive(PartialEq, Eq, Structural, Debug, Clone, Copy)]
pub enum EventType {
    SpanBegin,
    SpanEnd,
    Instant,
}

/// How a site is drawn: a bracketed duration or a point in time.
#[derive(PartialEq, Eq, Structural, Debug, Clone, Copy)]
pub enum DrawingType {
    Span,
    Instant,
}

/// Kind of a correlation arrow event.
#[derive(PartialEq, Eq, Structural, Debug, Clone, Copy)]
pub enum ArrowType {
    ArrowStart,
    ArrowStep,
}

/// One viewer event.
#[derive(PartialEq, Eq, Debug)]
pub struct Event {
    pub name: String,
    pub cat: String,
    pub ty: EventType,
    pub pid: u32,
    pub tid: u32,
    pub ts: u64,
}

/// One correlation arrow event.
#[derive(PartialEq, Eq, Debug)]
pub struct ArrowEvent {
    pub name: String,
    pub cat: String,
    pub ty: ArrowType,
    pub pid: u32,
    pub tid: u32,
    pub ts: u64,
    pub id: u32,
    pub bp: String,
}

/// Per-name bookkeeping of the sink: when the name was last seen, and the
/// arrow id that correlates its events.
#[derive(PartialEq, Eq, Structural, Debug, Clone, Copy)]
pub struct TraceEntry {
    pub last_timestamp: u64,
    pub unique_id: u32,
}

/// Mutable sink state: the live names, oldest first, and the next arrow id.
#[derive(Debug)]
pub struct SinkState {
    pub events: Vec<(String, TraceEntry)>,
    pub unique_id_counter: u32,
}

/// Whether a kind marks async instantiation, which is drawn as an instant
/// and never contributes a span.
pub open spec fn spec_is_async_inst(k: TracePointKind) -> bool {
    k == TracePointKind::AsyncEnter || k == TracePointKind::AsyncExit
}

/// Whether the trace point at section address `k` contributes a span/instant
/// classification for hash id `hid`.
pub open spec fn spec_contributes(
    m: Map<TracePointId, TracePointDataWithLocation>,
    k: int,
    hid: u64,
) -> bool {
    &&& 0 <= k < 256
    &&& m.contains_key(k as u8)
    &&& m[k as u8].info.id == hid
    &&& !spec_is_async_inst(m[k as u8].info.kind)
}

/// The classification built from the trace points at section addresses below
/// `n`, scanned in address order: a hash id seen once is an instant, seen
/// again it becomes a span.
pub open spec fn spec_classify_upto(
    m: Map<TracePointId, TracePointDataWithLocation>,
    n: int,
) -> Map<u64, DrawingType>
    decreases n,
{
    if n <= 0 {
        Map::<u64, DrawingType>::empty()
    } else {
        let prev = spec_classify_upto(m, n - 1);
        if spec_contributes(m, n - 1, m[(n - 1) as u8].info.id) {
            let hid = m[(n - 1) as u8].info.id;
            if prev.contains_key(hid) {
                prev.insert(hid, DrawingType::Span)
            } else {
                prev.insert(hid, DrawingType::Instant)
            }
        } else {
            prev
        }
    }
}

/// The classification of a whole id mapping.
pub open spec fn spec_classification(m: Map<TracePointId, TracePointDataWithLocation>) -> Map<
    u64,
    DrawingType,
> {
    spec_classify_upto(m, 256)
}

/// What the classification says: a hash id is classified exactly when some
/// non-instantiation trace point carries it, and it is a span exactly when
/// two distinct trace points carry it.
pub proof fn lemma_classification_characterized(
    m: Map<TracePointId, TracePointDataWithLocation>,
    n: int,
)
    requires
        0 <= n <= 256,
    ensures
        forall|hid: u64|
            #![trigger spec_classify_upto(m, n).contains_key(hid)]
            spec_classify_upto(m, n).contains_key(hid) <==> exists|k: int|
                0 <= k < n && spec_contributes(m, k, hid),
        forall|hid: u64|
            #![trigger spec_classify_upto(m, n).index(hid)]
            spec_classify_upto(m, n).contains_key(hid) ==> ((spec_classify_upto(m, n)[hid]
                == DrawingType::Span) <==> exists|k1: int, k2: int|
                0 <= k1 < k2 < n && spec_contributes(m, k1, hid) && spec_contributes(m, k2, hid)),
    decreases n,
{
    if n > 0 {
        lemma_classification_characterized(m, n - 1);
        let prev = spec_classify_upto(m, n - 1);
        let cur = spec_classify_upto(m, n);
        if spec_contributes(m, n - 1, m[(n - 1) as u8].info.id) {
            let hid0 = m[(n - 1) as u8].info.id;
            assert(spec_contributes(m, n - 1, hid0));
            if prev.contains_key(hid0) {
                let kw = choose|k: int| 0 <= k < n - 1 && spec_contributes(m, k, hid0);
                assert(spec_contributes(m, kw, hid0) && spec_contributes(m, n - 1, hid0) && kw < n
                    - 1);
            }
        }
    }
}

/// First index in the live-name table holding `name`, if any.
pub open spec fn spec_find(s: Seq<(String, TraceEntry)>, name: Seq<char>) -> Option<TraceEntry>
    decreases s.len(),
{
    if s.len() == 0 {
        None
    } else if s[0].0@ == name {
        Some(s[0].1)
    } else {
        spec_find(s.skip(1), name)
    }
}

/// The table with the first entry named `name` removed.
pub open spec fn spec_remove(s: Seq<(String, TraceEntry)>, name: Seq<char>) -> Seq<
    (String, TraceEntry),
>
    decreases s.len(),
{
    if s.len() == 0 {
        s
    } else if s[0].0@ == name {
        s.skip(1)
    } else {
        seq![s[0]] + spec_remove(s.skip(1), name)
    }
}

/// The table with the first entry named `name` stamped with `ts`.
pub open spec fn spec_stamp(s: Seq<(String, TraceEntry)>, name: Seq<char>, ts: u64) -> Seq<
    (String, TraceEntry),
>
    decreases s.len(),
{
    if s.len() == 0 {
        s
    } else if s[0].0@ == name {
        s.update(0, (s[0].0, TraceEntry { last_timestamp: ts, unique_id: s[0].1.unique_id }))
    } else {
        seq![s[0]] + spec_stamp(s.skip(1), name, ts)
    }
}

/// First index of `name` in the table, with what the table operations on the
/// first match amount to.
fn find_index(events: &Vec<(String, TraceEntry)>, name: &String) -> (r: Option<usize>)
    ensures
        match r {
            Some(idx) => {
                &&& idx < events@.len()
                &&& events@[idx as int].0@ == name@
                &&& spec_find(events@, name@) == Some(events@[idx as int].1)
                &&& spec_remove(events@, name@) == events@.remove(idx as int)
                &&& forall|ts: u64|
                    #[trigger] spec_stamp(events@, name@, ts) == events@.update(
                        idx as int,
                        (
                            events@[idx as int].0,
                            TraceEntry {
                                last_timestamp: ts,
                                unique_id: events@[idx as int].1.unique_id,
                            },
                        ),
                    )
            },
            None => {
                &&& spec_find(events@, name@) is None
                &&& spec_remove(events@, name@) == events@
                &&& forall|ts: u64| #[trigger] spec_stamp(events@, name@, ts) == events@
            },
        },
{
    let ghost s = events@;
    let mut i: usize = 0;
    proof {
        assert(s.skip(0) =~= s);
    }
    while i < events.len()
        invariant
            i <= s.len(),
            s == events@,
            spec_find(s, name@) == spec_find(s.skip(i as int), name@),
            spec_remove(s, name@) =~= s.take(i as int) + spec_remove(s.skip(i as int), name@),
            forall|ts: u64|
                #[trigger] spec_stamp(s, name@, ts) =~= s.take(i as int) + spec_stamp(
                    s.skip(i as int),
                    name@,
                    ts,
                ),
        decreases s.len() - i,
    {
        proof {
            assert(s.skip(i as int)[0] == s[i as int]);
            assert(s.skip(i as int).skip(1) =~= s.skip(i as int + 1));
        }
        if events[i].0 == *name {
            proof {
                let tail = s.skip(i as int);
                assert(spec_find(tail, name@) == Some(tail[0].1));
                assert(spec_remove(s, name@) =~= s.remove(i as int)) by {
                    assert(spec_remove(tail, name@) == tail.skip(1));
                    assert(s.take(i as int) + s.skip(i as int + 1) =~= s.remove(i as int));
                }
                assert forall|ts: u64| #[trigger] spec_stamp(s, name@, ts) =~= s.update(
                    i as int,
                    (s[i as int].0, TraceEntry { last_timestamp: ts, unique_id: s[i as int].1.unique_id }),
                ) by {
                    assert(spec_stamp(tail, name@, ts) == tail.update(
                        0,
                        (tail[0].0, TraceEntry { last_timestamp: ts, unique_id: tail[0].1.unique_id }),
                    ));
                    assert(s.take(i as int) + tail.update(
                        0,
                        (tail[0].0, TraceEntry { last_timestamp: ts, unique_id: tail[0].1.unique_id }),
                    ) =~= s.update(
                        i as int,
                        (s[i as int].0, TraceEntry { last_timestamp: ts, unique_id: s[i as int].1.unique_id }),
                    ));
                }
            }
            return Some(i);
        }
        proof {
            let tail = s.skip(i as int);
            assert(spec_find(tail, name@) == spec_find(tail.skip(1), name@));
            assert(spec_remove(tail, name@) == seq![tail[0]] + spec_remove(tail.skip(1), name@));
            assert(s.take(i as int) + (seq![s[i as int]] + spec_remove(s.skip(i as int + 1), name@))
                =~= s.take(i as int + 1) + spec_remove(s.skip(i as int + 1), name@));
            assert forall|ts: u64| #[trigger] spec_stamp(s, name@, ts) =~= s.take(i as int + 1)
                + spec_stamp(s.skip(i as int + 1), name@, ts) by {
                assert(spec_stamp(tail, name@, ts) == seq![tail[0]] + spec_stamp(
                    tail.skip(1),
                    name@,
                    ts,
                ));
                assert(s.take(i as int) + (seq![s[i as int]] + spec_stamp(
                    s.skip(i as int + 1),
                    name@,
                    ts,
                )) =~= s.take(i as int + 1) + spec_stamp(s.skip(i as int + 1), name@, ts));
            }
        }
        i = i + 1;
    }
    proof {
        assert(s.skip(s.len() as int) =~= Seq::<(String, TraceEntry)>::empty());
        assert(s.take(s.len() as int) =~= s);
        assert(forall|ts: u64|
            #[trigger] spec_stamp(s, name@, ts) =~= s.take(s.len() as int) + spec_stamp(
                s.skip(s.len() as int),
                name@,
                ts,
            ));
    }
    None
}

/// How an enter point of `kind` with hash id `hid` is drawn: async
/// instantiation always as an instant, otherwise per the classification.
pub open spec fn spec_enter_event_type(
    hm: Map<u64, DrawingType>,
    kind: TracePointKind,
    hid: u64,
) -> EventType {
    if kind == TracePointKind::AsyncEnter {
        EventType::Instant
    } else if hm.contains_key(hid) && hm[hid] == DrawingType::Span {
        EventType::SpanBegin
    } else {
        EventType::Instant
    }
}

/// How an exit point of `kind` with hash id `hid` is drawn.
pub open spec fn spec_exit_event_type(
    hm: Map<u64, DrawingType>,
    kind: TracePointKind,
    hid: u64,
) -> EventType {
    if kind == TracePointKind::AsyncExit {
        EventType::Instant
    } else if hm.contains_key(hid) && hm[hid] == DrawingType::Span {
        EventType::SpanEnd
    } else {
        EventType::Instant
    }
}

/// What an enter point does to the sink state: a stale entry of the same
/// name is dropped (except under poll re-entry), then the name is stamped if
/// live or registered fresh under the next arrow id. Yields the new table,
/// the new arrow-id counter, the arrow id of the name, and whether the name
/// was registered fresh.
pub open spec fn spec_enter_transition(
    s0: Seq<(String, TraceEntry)>,
    name: String,
    kind: TracePointKind,
    ts: u64,
    counter: u32,
) -> (Seq<(String, TraceEntry)>, u32, u32, bool) {
    let s1 = if spec_find(s0, name@) is Some && kind != TracePointKind::AsyncPollEnter {
        spec_remove(s0, name@)
    } else {
        s0
    };
    match spec_find(s1, name@) {
        Some(entry) => (spec_stamp(s1, name@, ts), counter, entry.unique_id, false),
        None => (
            s1.push((name, TraceEntry { last_timestamp: ts, unique_id: counter })),
            (counter + 1) as u32,
            counter,
            true,
        ),
    }
}

/// What an exit point does to the sink state: a live name is stamped (and
/// dropped on async-instantiation exit) and keeps its arrow id; an exit
/// without a live name borrows the next arrow id without claiming it.
/// Yields the new table and the arrow id.
pub open spec fn spec_exit_transition(
    s0: Seq<(String, TraceEntry)>,
    name: String,
    kind: TracePointKind,
    ts: u64,
    counter: u32,
) -> (Seq<(String, TraceEntry)>, u32) {
    match spec_find(s0, name@) {
        Some(entry) => {
            let s1 = spec_stamp(s0, name@, ts);
            (
                if kind == TracePointKind::AsyncExit {
                    spec_remove(s1, name@)
                } else {
                    s1
                },
                entry.unique_id,
            )
        },
        None => (s0, (counter + 1) as u32),
    }
}

/// The span/instant classification of one id mapping; drives how each event
/// is drawn.
pub struct Store {
    hm: HashMap<u64, DrawingType>,
}

impl Store {
    /// The classification held.
    pub closed spec fn classification(self) -> Map<u64, DrawingType> {
        self.hm@
    }

    /// Classify every site of the mapping: sites whose kind is not async
    /// instantiation contribute; a hash id contributed once draws as an
    /// instant, contributed again as a span.
    pub fn new(tp_map: &HashMap<TracePointId, TracePointDataWithLocation>) -> (r: Store)
        ensures
            r.classification() == spec_classification(tp_map@),
    {
        let mut hm: HashMap<u64, DrawingType> = HashMap::new();
        let mut i: usize = 0;
        proof {
            assert(hm@ =~= spec_classify_upto(tp_map@, 0));
        }
        while i < 256
            invariant
                i <= 256,
                hm@ == spec_classify_upto(tp_map@, i as int),
            decreases 256 - i,
        {
            let id: TracePointId = i as u8;
            match tp_map.get(&id) {
                Some(tp) => {
                    let kind = tp.info.kind;
                    if !(kind == TracePointKind::AsyncEnter || kind == TracePointKind::AsyncExit) {
                        let hid: u64 = tp.info.id;
                        if hm.contains_key(&hid) {
                            hm.insert(hid, DrawingType::Span);
                        } else {
                            hm.insert(hid, DrawingType::Instant);
                        }
                    }
                },
                None => {},
            }
            i = i + 1;
        }
        Store { hm }
    }

    /// Turn one parsed point into its viewer event and, where the point
    /// begins a task or references an async instantiation, a correlation
    /// arrow event; advances the sink state as the transitions say.
    pub fn store_event(&self, state: &mut SinkState, ts: u64, info: &TracePointInfo) -> (r: (
        Event,
        Option<ArrowEvent>,
    ))
        requires
            info.name is Some,
            old(state).unique_id_counter < u32::MAX,
        ensures
            r.0.name@ == info.name.unwrap()@,
            r.0.cat@ == spec_kind_label(info.kind),
            r.0.pid == 1 && r.0.tid == 1 && r.0.ts == ts,
            spec_is_enter(info.kind) ==> ({
                let tr = spec_enter_transition(
                    old(state).events@,
                    info.name.unwrap(),
                    info.kind,
                    ts,
                    old(state).unique_id_counter,
                );
                let et = spec_enter_event_type(self.classification(), info.kind, info.id);
                &&& final(state).events@ == tr.0
                &&& final(state).unique_id_counter == tr.1
                &&& r.0.ty == et
                &&& (r.1 is Some) <==> (et == EventType::Instant || tr.3)
                &&& (r.1 matches Some(a) ==> {
                    &&& a.name@ == info.name.unwrap()@
                    &&& a.cat@ == info.name.unwrap()@
                    &&& a.ty == (if tr.3 {
                        ArrowType::ArrowStart
                    } else {
                        ArrowType::ArrowStep
                    })
                    &&& a.pid == 1 && a.tid == 1 && a.ts == ts
                    &&& a.id == tr.2
                    &&& a.bp@ == "e"@
                })
            }),
            !spec_is_enter(info.kind) ==> ({
                let tr = spec_exit_transition(
                    old(state).events@,
                    info.name.unwrap(),
                    info.kind,
                    ts,
                    old(state).unique_id_counter,
                );
                &&& final(state).events@ == tr.0
                &&& final(state).unique_id_counter == old(state).unique_id_counter
                &&& r.0.ty == spec_exit_event_type(self.classification(), info.kind, info.id)
                &&& (r.1 matches Some(a) ==> {
                    &&& a.name@ == info.name.unwrap()@
                    &&& a.cat@ == info.name.unwrap()@
                    &&& a.ty == ArrowType::ArrowStep
                    &&& a.pid == 1 && a.tid == 1 && a.ts == ts
                    &&& a.id == tr.1
                    &&& a.bp@ == "e"@
                })
                &&& r.1 is Some
            }),
    {
        let name: String = match &info.name {
            Some(s) => s.clone(),
            None => vstd::pervasive::unreached(),
        };
        let kind = info.kind;
        let event_type: EventType;
        let mut arrow: Option<ArrowEvent> = None;
        if kind.is_enter() {
            if kind != TracePointKind::AsyncPollEnter {
                if let Some(idx) = find_index(&state.events, &name) {
                    state.events.remove(idx);
                }
            }
            let mut arrow_type = ArrowType::ArrowStep;
            let uid: u32;
            match find_index(&state.events, &name) {
                Some(idx) => {
                    uid = state.events[idx].1.unique_id;
                    let nm = state.events[idx].0.clone();
                    state.events[idx] = (nm, TraceEntry { last_timestamp: ts, unique_id: uid });
                },
                None => {
                    uid = state.unique_id_counter;
                    state.events.push(
                        (name.clone(), TraceEntry { last_timestamp: ts, unique_id: uid }),
                    );
                    arrow_type = ArrowType::ArrowStart;
                    state.unique_id_counter = state.unique_id_counter + 1;
                },
            }
            event_type = if kind == TracePointKind::AsyncEnter {
                EventType::Instant
            } else {
                match self.hm.get(&info.id) {
                    Some(dt) => if *dt == DrawingType::Span {
                        EventType::SpanBegin
                    } else {
                        EventType::Instant
                    },
                    None => EventType::Instant,
                }
            };
            if event_type == EventType::Instant || arrow_type == ArrowType::ArrowStart {
                arrow = Some(
                    ArrowEvent {
                        name: name.clone(),
                        cat: name.clone(),
                        ty: arrow_type,
                        pid: 1,
                        tid: 1,
                        ts,
                        id: uid,
                        bp: "e".to_owned(),
                    },
                );
            }
        } else {
            let end_id: u32;
            match find_index(&state.events, &name) {
                Some(idx) => {
                    end_id = state.events[idx].1.unique_id;
                    let nm = state.events[idx].0.clone();
                    state.events[idx] = (nm, TraceEntry { last_timestamp: ts, unique_id: end_id });
                },
                None => {
                    end_id = state.unique_id_counter + 1;
                },
            }
            arrow = Some(
                ArrowEvent {
                    name: name.clone(),
                    cat: name.clone(),
                    ty: ArrowType::ArrowStep,
                    pid: 1,
                    tid: 1,
                    ts,
                    id: end_id,
                    bp: "e".to_owned(),
                },
            );
            event_type = if kind == TracePointKind::AsyncExit {
                if let Some(idx) = find_index(&state.events, &name) {
                    state.events.remove(idx);
                }
                EventType::Instant
            } else {
                match self.hm.get(&info.id) {
                    Some(dt) => if *dt == DrawingType::Span {
                        EventType::SpanEnd
                    } else {
                        EventType::Instant
                    },
                    None => EventType::Instant,
                }
            };
        }
        let ev = Event { name, cat: kind.label(), ty: event_type, pid: 1, tid: 1, ts };
        (ev, arrow)
    }
}

impl SinkState {
    /// A fresh sink: no live names, arrow ids from zero.
    pub fn new() -> (r: SinkState)
        ensures
            r.events@ == Seq::<(String, TraceEntry)>::empty(),
            r.unique_id_counter == 0,
    {
        SinkState { events: Vec::new(), unique_id_counter: 0 }
    }
}

} // verus!
