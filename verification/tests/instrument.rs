use utrace::instrument::{
    site_points, trace_here_site, transform_async_fn, transform_sync_fn, AttributeError,
    FnAttributes, FreestandingAttributes,
};
use utrace::trace_point::{TracePointKind, TracePointPairKind};

fn plain_attrs() -> FnAttributes {
    FnAttributes {
        comment: None,
        noenter_fn: false,
        noexit_fn: false,
        noenter_poll: false,
        noexit_poll: false,
        skip: None,
        skip_poll: None,
    }
}

#[test]
fn sync_fn_gets_sync_pair() {
    let site = transform_sync_fn(Some("work".to_owned()), &plain_attrs())
        .unwrap()
        .unwrap();
    assert_eq!(site.pair_kind, TracePointPairKind::SyncCall);
    assert_eq!(site.name.as_deref(), Some("work"));
    assert!(site.enable_entry);
    assert!(site.enable_exit);
}

#[test]
fn sync_fn_rejects_async_only_attributes() {
    let mut attrs = plain_attrs();
    attrs.skip_poll = Some(2);
    assert_eq!(
        transform_sync_fn(None, &attrs),
        Err(AttributeError::AsyncOnlyAttribute)
    );
    let mut attrs = plain_attrs();
    attrs.noenter_poll = true;
    assert_eq!(
        transform_sync_fn(None, &attrs),
        Err(AttributeError::AsyncOnlyAttribute)
    );
}

#[test]
fn sync_fn_fully_suppressed_has_no_site() {
    let mut attrs = plain_attrs();
    attrs.noenter_fn = true;
    attrs.noexit_fn = true;
    assert_eq!(transform_sync_fn(None, &attrs), Ok(None));
}

#[test]
fn async_fn_gets_poll_and_instantiation_pairs() {
    let mut attrs = plain_attrs();
    attrs.skip = Some(4);
    attrs.skip_poll = Some(9);
    let (poll, inst) = transform_async_fn(Some("task".to_owned()), &attrs);
    let poll = poll.unwrap();
    let inst = inst.unwrap();
    assert_eq!(poll.pair_kind, TracePointPairKind::AsyncPoll);
    assert_eq!(poll.skip, Some(9));
    assert_eq!(inst.pair_kind, TracePointPairKind::AsyncInstantiation);
    assert_eq!(inst.skip, Some(4));
    assert_eq!(inst.name.as_deref(), Some("task"));
}

#[test]
fn async_fn_suppressed_sides() {
    let mut attrs = plain_attrs();
    attrs.noenter_poll = true;
    attrs.noexit_poll = true;
    attrs.noexit_fn = true;
    let (poll, inst) = transform_async_fn(None, &attrs);
    assert!(poll.is_none());
    let inst = inst.unwrap();
    assert!(inst.enable_entry);
    assert!(!inst.enable_exit);
}

#[test]
fn trace_here_is_generic() {
    let site = trace_here_site(&FreestandingAttributes {
        comment: Some("checkpoint".to_owned()),
        noenter: false,
        noexit: true,
        skip: None,
    });
    assert_eq!(site.pair_kind, TracePointPairKind::Generic);
    assert_eq!(site.name, None);
    assert!(site.enable_entry);
    assert!(!site.enable_exit);
}

#[test]
fn site_points_carry_pair_kinds() {
    let site = transform_sync_fn(Some("work".to_owned()), &plain_attrs())
        .unwrap()
        .unwrap();
    let (enter, exit) = site_points(&site, 0xABCD);
    let enter = enter.unwrap();
    let exit = exit.unwrap();
    assert_eq!(enter.kind, TracePointKind::SyncEnter);
    assert_eq!(exit.kind, TracePointKind::SyncExit);
    assert_eq!(enter.id, 0xABCD);
    assert_eq!(enter.name.as_deref(), Some("work"));
}

#[test]
fn suppressed_side_has_no_point() {
    let mut attrs = plain_attrs();
    attrs.noenter_fn = true;
    let site = transform_sync_fn(None, &attrs).unwrap().unwrap();
    let (enter, exit) = site_points(&site, 1);
    assert!(enter.is_none());
    assert!(exit.is_some());
}
