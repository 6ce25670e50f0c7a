//! Source-routed escalation: an endangered goal's escalation goes to its
//! intent's own source. A dvalin-sourced one is sent over the bus; a
//! human-sourced one is pushed (a failed push is never fatal) and always
//! parked for the next login greeting; a regin-sourced one is only parked.
//! The sends and the parking are the caller's; this module decides.

use vstd::prelude::*;
use crate::intent::{intent_source_of, IntentSource};
use crate::text::{debug_quoted, keyword};

verus! {

/// The episode kind parked escalations are stored under.
pub const ESCALATION_EPISODE_KIND: &'static str = "intent_escalation";

/// A critical-push channel for a deployment with none configured: every
/// push fails.
pub struct NoPush;

/// Where an escalation goes.
#[derive(Debug, Clone, Copy, PartialEq, Eq, Structural)]
pub enum EscalationRoute {
    /// Over the bus to the supervisor; not parked.
    Bus,
    /// A critical push is attempted, and the escalation is parked whatever
    /// the push's result.
    PushAndPark,
    /// Parked only.
    Park,
}

/// The route for each source.
pub open spec fn route_of(source: IntentSource) -> EscalationRoute {
    match source {
        IntentSource::Dvalin => EscalationRoute::Bus,
        IntentSource::Human => EscalationRoute::PushAndPark,
        IntentSource::Regin => EscalationRoute::Park,
    }
}

/// Whether the route parks the escalation for the greeting.
pub open spec fn parks(r: EscalationRoute) -> bool {
    r == EscalationRoute::PushAndPark || r == EscalationRoute::Park
}

/// Routes an escalation by its source; an unknown source is an error.
pub fn route_escalation(source: &str) -> (r: Result<EscalationRoute, String>)
    ensures
        match intent_source_of(keyword(source@)) {
            Some(s) => r == Ok::<EscalationRoute, String>(route_of(s)),
            None => r matches Err(e) && e@ == "unknown intent source: "@ + debug_quoted(keyword(source@)),
        },
{
    match IntentSource::parse(source) {
        Ok(IntentSource::Dvalin) => Ok(EscalationRoute::Bus),
        Ok(IntentSource::Human) => Ok(EscalationRoute::PushAndPark),
        Ok(IntentSource::Regin) => Ok(EscalationRoute::Park),
        Err(e) => Err(e),
    }
}

/// An escalation is never lost: every source's route either reaches the
/// supervisor over the bus or parks it for the greeting, and parking never
/// waits on a push.
pub proof fn law_escalation_never_lost(source: IntentSource)
    ensures
        route_of(source) == EscalationRoute::Bus || parks(route_of(source)),
        source == IntentSource::Human ==> parks(route_of(source)),
        source == IntentSource::Dvalin ==> !parks(route_of(source)),
{
}

} // verus!
