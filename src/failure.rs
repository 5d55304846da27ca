//! What a failure stops: the whole instance, the current pass or request,
//! or only the one item.

use vstd::prelude::*;

verus! {

/// The kinds of failure the mirror meets.
#[derive(Clone, Copy, Debug, PartialEq, Eq)]
pub enum FailureKind {
    /// The session could not be established or has expired.
    Auth,
    /// The remote service answered a catalog or location request with
    /// something malformed or unexpected.
    RemoteProtocol,
    /// The network or local I/O failed in the middle of a stream.
    Transfer,
    /// A directory or target file could not be created or opened.
    Filesystem,
}

/// Where a failure happened.
#[derive(Clone, Copy, Debug, PartialEq, Eq)]
pub enum FailureStage {
    /// While fetching the catalog at the start of a pass or a request.
    CatalogFetch,
    /// While handling one item: resolving its location or transferring it.
    Item,
}

/// What a failure stops.
#[derive(Clone, Copy, Debug, PartialEq, Eq)]
pub enum FailureEffect {
    /// No new work is accepted: there is no way to authenticate again.
    StopInstance,
    /// The current pass or on-demand request ends; the next interval or a
    /// new request tries again.
    AbortPass,
    /// The item stays absent and the pass goes on with the next one.
    SkipItem,
}

/// The effect of a failure of `kind` at `stage`: an authentication failure
/// stops the instance, a failure while fetching the catalog ends the pass,
/// and any other failure costs only the item it happened on.
pub open spec fn effect_of(kind: FailureKind, stage: FailureStage) -> FailureEffect {
    if kind == FailureKind::Auth {
        FailureEffect::StopInstance
    } else if stage == FailureStage::CatalogFetch {
        FailureEffect::AbortPass
    } else {
        FailureEffect::SkipItem
    }
}

/// The effect of a failure, as `effect_of` states it.
pub fn failure_effect(kind: FailureKind, stage: FailureStage) -> (r: FailureEffect)
    ensures
        r == effect_of(kind, stage),
{
    match kind {
        FailureKind::Auth => FailureEffect::StopInstance,
        _ => match stage {
            FailureStage::CatalogFetch => FailureEffect::AbortPass,
            FailureStage::Item => FailureEffect::SkipItem,
        },
    }
}

} // verus!
