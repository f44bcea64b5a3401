//! Build-time instrumentation decisions: which tracer sites an instrumented
//! function receives, with which pair kind, which sides enabled and which
//! sampling policy, and which metadata records its trace points carry.
//!
//! The expansion of these decisions into code is the macro layer's business;
//! everything it decides is here.

use vstd::prelude::*;
use crate::trace_point::{
    TracePointInfo, TracePointPairKind, spec_enter_point, spec_exit_point,
};

verus! {

/// The attributes an instrumented function can carry.
#[derive(PartialEq, Eq, Debug)]
pub struct FnAttributes {
    pub comment: Option<String>,
    pub noenter_fn: bool,
    pub noexit_fn: bool,
    pub noenter_poll: bool,
    pub noexit_poll: bool,
    pub skip: Option<u32>,
    pub skip_poll: Option<u32>,
}

/// The attributes a free-standing instrumentation site can carry.
#[derive(PartialEq, Eq, Debug)]
pub struct FreestandingAttributes {
    pub comment: Option<String>,
    pub noenter: bool,
    pub noexit: bool,
    pub skip: Option<u32>,
}

/// One tracer instantiation site to generate.
#[derive(PartialEq, Eq, Debug)]
pub struct TracerSite {
    pub pair_kind: TracePointPairKind,
    pub name: Option<String>,
    pub comment: Option<String>,
    pub skip: Option<u32>,
    pub enable_entry: bool,
    pub enable_exit: bool,
}

/// Rejected attribute combinations; the build fails on them.
#[derive(PartialEq, Eq, Structural, Debug, Clone, Copy)]
pub enum AttributeError {
    /// An async-only attribute on a non-async function.
    AsyncOnlyAttribute,
}

fn clone_opt_string(o: &Option<String>) -> (r: Option<String>)
    ensures
        r == *o,
{
    match o {
        Some(s) => Some(s.clone()),
        None => None,
    }
}

/// Which trace points a site defines: for each enabled side, the metadata
/// record with the pair's enter or exit kind and the site's hash id.
pub fn site_points(site: &TracerSite, id: u64) -> (r: (
    Option<TracePointInfo>,
    Option<TracePointInfo>,
))
    ensures
        (r.0 is Some) <==> site.enable_entry,
        (r.1 is Some) <==> site.enable_exit,
        r.0 matches Some(info) ==> info == (TracePointInfo {
            kind: spec_enter_point(site.pair_kind),
            name: site.name,
            comment: site.comment,
            skip: site.skip,
            id,
        }),
        r.1 matches Some(info) ==> info == (TracePointInfo {
            kind: spec_exit_point(site.pair_kind),
            name: site.name,
            comment: site.comment,
            skip: site.skip,
            id,
        }),
{
    let enter = if site.enable_entry {
        Some(
            TracePointInfo {
                kind: site.pair_kind.enter_point(),
                name: clone_opt_string(&site.name),
                comment: clone_opt_string(&site.comment),
                skip: site.skip,
                id,
            },
        )
    } else {
        None
    };
    let exit = if site.enable_exit {
        Some(
            TracePointInfo {
                kind: site.pair_kind.exit_point(),
                name: clone_opt_string(&site.name),
                comment: clone_opt_string(&site.comment),
                skip: site.skip,
                id,
            },
        )
    } else {
        None
    };
    (enter, exit)
}

/// The sites an instrumented async fn receives: a poll pair bracketing each
/// poll unless both its sides are disabled, and an instantiation pair
/// bracketing the future's lifetime unless both its sides are disabled. The
/// `skip` sampling applies to instantiation, `skip_poll` to polls.
pub fn transform_async_fn(name: Option<String>, attrs: &FnAttributes) -> (r: (
    Option<TracerSite>,
    Option<TracerSite>,
))
    ensures
        (r.0 is Some) <==> (!attrs.noenter_poll || !attrs.noexit_poll),
        (r.1 is Some) <==> (!attrs.noenter_fn || !attrs.noexit_fn),
        r.0 matches Some(site) ==> site == (TracerSite {
            pair_kind: TracePointPairKind::AsyncPoll,
            name,
            comment: attrs.comment,
            skip: attrs.skip_poll,
            enable_entry: !attrs.noenter_poll,
            enable_exit: !attrs.noexit_poll,
        }),
        r.1 matches Some(site) ==> site == (TracerSite {
            pair_kind: TracePointPairKind::AsyncInstantiation,
            name,
            comment: attrs.comment,
            skip: attrs.skip,
            enable_entry: !attrs.noenter_fn,
            enable_exit: !attrs.noexit_fn,
        }),
{
    let poll = if !attrs.noenter_poll || !attrs.noexit_poll {
        Some(
            TracerSite {
                pair_kind: TracePointPairKind::AsyncPoll,
                name: clone_opt_string(&name),
                comment: clone_opt_string(&attrs.comment),
                skip: attrs.skip_poll,
                enable_entry: !attrs.noenter_poll,
                enable_exit: !attrs.noexit_poll,
            },
        )
    } else {
        None
    };
    let inst = if !attrs.noenter_fn || !attrs.noexit_fn {
        Some(
            TracerSite {
                pair_kind: TracePointPairKind::AsyncInstantiation,
                name,
                comment: clone_opt_string(&attrs.comment),
                skip: attrs.skip,
                enable_entry: !attrs.noenter_fn,
                enable_exit: !attrs.noexit_fn,
            },
        )
    } else {
        None
    };
    (poll, inst)
}

/// The site an instrumented synchronous fn receives: the sync-call pair,
/// unless both its sides are disabled. Async-only attributes are rejected.
pub fn transform_sync_fn(name: Option<String>, attrs: &FnAttributes) -> (r: Result<
    Option<TracerSite>,
    AttributeError,
>)
    ensures
        (r is Err) <==> (attrs.skip_poll is Some || attrs.noenter_poll || attrs.noexit_poll),
        r matches Ok(site_opt) ==> {
            &&& (site_opt is Some) <==> (!attrs.noenter_fn || !attrs.noexit_fn)
            &&& (site_opt matches Some(site) ==> site == (TracerSite {
                pair_kind: TracePointPairKind::SyncCall,
                name,
                comment: attrs.comment,
                skip: attrs.skip,
                enable_entry: !attrs.noenter_fn,
                enable_exit: !attrs.noexit_fn,
            }))
        },
{
    if attrs.skip_poll.is_some() || attrs.noenter_poll || attrs.noexit_poll {
        return Err(AttributeError::AsyncOnlyAttribute);
    }
    if !attrs.noenter_fn || !attrs.noexit_fn {
        Ok(
            Some(
                TracerSite {
                    pair_kind: TracePointPairKind::SyncCall,
                    name,
                    comment: clone_opt_string(&attrs.comment),
                    skip: attrs.skip,
                    enable_entry: !attrs.noenter_fn,
                    enable_exit: !attrs.noexit_fn,
                },
            ),
        )
    } else {
        Ok(None)
    }
}

/// The site a free-standing instrumentation point receives: the generic
/// pair, carrying no name.
pub fn trace_here_site(attrs: &FreestandingAttributes) -> (r: TracerSite)
    ensures
        r == (TracerSite {
            pair_kind: TracePointPairKind::Generic,
            name: None::<String>,
            comment: attrs.comment,
            skip: attrs.skip,
            enable_entry: !attrs.noenter,
            enable_exit: !attrs.noexit,
        }),
{
    TracerSite {
        pair_kind: TracePointPairKind::Generic,
        name: None,
        comment: clone_opt_string(&attrs.comment),
        skip: attrs.skip,
        enable_entry: !attrs.noenter,
        enable_exit: !attrs.noexit,
    }
}

} // verus!
