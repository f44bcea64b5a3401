use utrace::trace_point::{
    escape, unescape, MetadataError, TracePointInfo, TracePointKind, TracePointPairKind,
};

#[test]
fn enter_exit_kinds() {
    assert!(TracePointKind::SyncEnter.is_enter());
    assert!(TracePointKind::AsyncEnter.is_enter());
    assert!(TracePointKind::AsyncPollEnter.is_enter());
    assert!(TracePointKind::GenericEnter.is_enter());
    assert!(TracePointKind::SyncExit.is_exit());
    assert!(TracePointKind::AsyncExit.is_exit());
    assert!(TracePointKind::AsyncPollExit.is_exit());
    assert!(TracePointKind::GenericExit.is_exit());
    assert!(!TracePointKind::SyncEnter.is_exit());
    assert!(!TracePointKind::SyncExit.is_enter());
}

#[test]
fn pair_points() {
    assert_eq!(
        TracePointPairKind::SyncCall.enter_point(),
        TracePointKind::SyncEnter
    );
    assert_eq!(
        TracePointPairKind::SyncCall.exit_point(),
        TracePointKind::SyncExit
    );
    assert_eq!(
        TracePointPairKind::AsyncInstantiation.enter_point(),
        TracePointKind::AsyncEnter
    );
    assert_eq!(
        TracePointPairKind::AsyncInstantiation.exit_point(),
        TracePointKind::AsyncExit
    );
    assert_eq!(
        TracePointPairKind::AsyncPoll.enter_point(),
        TracePointKind::AsyncPollEnter
    );
    assert_eq!(
        TracePointPairKind::AsyncPoll.exit_point(),
        TracePointKind::AsyncPollExit
    );
    assert_eq!(
        TracePointPairKind::Generic.enter_point(),
        TracePointKind::GenericEnter
    );
    assert_eq!(
        TracePointPairKind::Generic.exit_point(),
        TracePointKind::GenericExit
    );
}

#[test]
fn pair_of_kind() {
    assert_eq!(
        TracePointPairKind::from(TracePointKind::SyncExit),
        TracePointPairKind::SyncCall
    );
    assert_eq!(
        TracePointPairKind::from(TracePointKind::AsyncEnter),
        TracePointPairKind::AsyncInstantiation
    );
    assert_eq!(
        TracePointPairKind::from(TracePointKind::AsyncPollExit),
        TracePointPairKind::AsyncPoll
    );
    assert_eq!(
        TracePointPairKind::from(TracePointKind::GenericEnter),
        TracePointPairKind::Generic
    );
}

#[test]
fn kind_labels() {
    assert_eq!(TracePointKind::SyncEnter.label(), "SyncEnter");
    assert_eq!(TracePointKind::AsyncPollExit.label(), "AsyncPollExit");
    assert_eq!(TracePointKind::GenericExit.label(), "GenericExit");
}

#[test]
fn decode_symbol_name() {
    let s = r#"{"kind":"SyncEnter","name":"f","comment":null,"skip":null,"id":12345}"#;
    let info = TracePointInfo::from_mangled_string(s).unwrap();
    assert_eq!(info.kind, TracePointKind::SyncEnter);
    assert_eq!(info.name.as_deref(), Some("f"));
    assert_eq!(info.comment, None);
    assert_eq!(info.skip, None);
    assert_eq!(info.id, 12345);
}

#[test]
fn decode_symbol_name_full() {
    let s = r#"{"kind":"AsyncPollEnter","name":"task","comment":"hot loop","skip":3,"id":7}"#;
    let info = TracePointInfo::from_mangled_string(s).unwrap();
    assert_eq!(info.kind, TracePointKind::AsyncPollEnter);
    assert_eq!(info.name.as_deref(), Some("task"));
    assert_eq!(info.comment.as_deref(), Some("hot loop"));
    assert_eq!(info.skip, Some(3));
    assert_eq!(info.id, 7);
}

#[test]
fn decode_rejects_invalid_json() {
    assert_eq!(
        TracePointInfo::from_mangled_string("not json at all"),
        Err(MetadataError::Malformed)
    );
}

#[test]
fn decode_rejects_unknown_kind() {
    let s = r#"{"kind":"Quux","name":null,"comment":null,"skip":null,"id":1}"#;
    assert_eq!(
        TracePointInfo::from_mangled_string(s),
        Err(MetadataError::Malformed)
    );
}

#[test]
fn decode_rejects_missing_id() {
    let s = r#"{"kind":"SyncEnter","name":null,"comment":null,"skip":null}"#;
    assert_eq!(
        TracePointInfo::from_mangled_string(s),
        Err(MetadataError::Malformed)
    );
}

#[test]
fn serialize_symbol_name() {
    let info = TracePointInfo {
        kind: TracePointKind::SyncEnter,
        name: Some("f".to_owned()),
        comment: None,
        skip: None,
        id: 12345,
    };
    assert_eq!(
        info.to_escaped_string(),
        r#"{"kind":"SyncEnter","name":"f","comment":null,"skip":null,"id":12345}"#
    );
}

#[test]
fn serialize_escapes_like_json() {
    let info = TracePointInfo {
        kind: TracePointKind::GenericExit,
        name: Some("a\"b\\c\nd".to_owned()),
        comment: Some("tab\there \u{01} end".to_owned()),
        skip: Some(7),
        id: 0,
    };
    assert_eq!(
        info.to_escaped_string(),
        "{\"kind\":\"GenericExit\",\"name\":\"a\\\"b\\\\c\\nd\",\"comment\":\"tab\\there \\u0001 end\",\"skip\":7,\"id\":0}"
    );
}

#[test]
fn symbol_name_round_trip() {
    let infos = [
        TracePointInfo {
            kind: TracePointKind::AsyncPollEnter,
            name: Some("poll \"inner\" \\ loop\r\n".to_owned()),
            comment: Some("π and \u{08}\u{0c}\u{1f}".to_owned()),
            skip: Some(u32::MAX),
            id: u64::MAX,
        },
        TracePointInfo {
            kind: TracePointKind::AsyncExit,
            name: None,
            comment: None,
            skip: None,
            id: 0,
        },
    ];
    for info in infos {
        let mangled = info.to_escaped_string();
        let back = TracePointInfo::from_mangled_string(&mangled).unwrap();
        assert_eq!(back, info);
    }
}

#[test]
fn escaping_is_identity() {
    let s = r#"{"kind":"SyncEnter","id":1}"#;
    assert_eq!(escape(s), s);
    assert_eq!(unescape(s), s);
    assert_eq!(unescape(&escape(s)), s);
}
