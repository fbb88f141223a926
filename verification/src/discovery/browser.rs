//! What a browser of multicast DNS knows.
use crate::discovery::mdns::ParseError;
use crate::discovery::resolve::{
    is_service_outcome, service_info_from_mdns_resolved, without_scopes, ResolvedService,
};
use crate::discovery::service_info::ServiceInfo;
use crate::discovery::table::{are_services, ServiceTable};
use vstd::prelude::*;

verus! {

/// What multicast DNS reports.
#[derive(Debug, Clone)]
pub enum BrowseEvent {
    /// A service was resolved.
    Resolved(ResolvedService),
    /// The service with this full name is gone.
    Removed(String),
    /// Anything else.
    Other,
}

/// What who browses is told.
#[derive(Debug, Clone)]
pub enum DiscoveryEvent {
    /// A service was found.
    ServiceDiscovered(ServiceInfo),
    /// A service is gone.
    ServiceRemoved { instance_name: String },
}

/// The services that were found and are not gone, by full name.
pub struct BrowserState {
    services: ServiceTable,
}

impl View for BrowserState {
    type V = Map<Seq<char>, ServiceInfo>;

    closed spec fn view(&self) -> Map<Seq<char>, ServiceInfo> {
        self.services@
    }
}

/// What a report comes to, at the time `now`: what is known after it, and what who browses is
/// told.
pub open spec fn is_browse_outcome(
    before: Map<Seq<char>, ServiceInfo>,
    after: Map<Seq<char>, ServiceInfo>,
    event: BrowseEvent,
    now: u64,
    r: Result<Option<DiscoveryEvent>, ParseError>,
) -> bool {
    match event {
        BrowseEvent::Resolved(resolved) => match r {
            Ok(told) => {
                &&& told matches Some(DiscoveryEvent::ServiceDiscovered(info))
                &&& is_service_outcome(
                    Ok(info),
                    resolved.fullname@,
                    without_scopes(resolved.addresses@),
                    resolved.port,
                    resolved.properties@,
                    now,
                )
                &&& after == before.insert(resolved.fullname@, info)
            },
            Err(e) => {
                &&& is_service_outcome(
                    Err(e),
                    resolved.fullname@,
                    without_scopes(resolved.addresses@),
                    resolved.port,
                    resolved.properties@,
                    now,
                )
                &&& after == before
            },
        },
        BrowseEvent::Removed(fullname) => {
            &&& r matches Ok(Some(DiscoveryEvent::ServiceRemoved { instance_name }))
            &&& instance_name@ == fullname@
            &&& after == before.remove(fullname@)
        },
        BrowseEvent::Other => r matches Ok(None) && after == before,
    }
}

impl BrowserState {
    /// Nothing was found.
    pub fn new() -> (s: Self)
        ensures
            s@ == Map::<Seq<char>, ServiceInfo>::empty(),
    {
        BrowserState { services: ServiceTable::new() }
    }

    /// Takes a report, at the time `now`, and says what who browses is told. A service that
    /// cannot be made out changes nothing.
    pub fn handle(&mut self, event: BrowseEvent, now: u64) -> (r: Result<
        Option<DiscoveryEvent>,
        ParseError,
    >)
        ensures
            match event {
                BrowseEvent::Resolved(resolved) => match r {
                    Ok(told) => {
                        &&& told matches Some(DiscoveryEvent::ServiceDiscovered(info))
                        &&& is_service_outcome(
                            Ok(info),
                            resolved.fullname@,
                            without_scopes(resolved.addresses@),
                            resolved.port,
                            resolved.properties@,
                            now,
                        )
                        &&& final(self)@ == old(self)@.insert(resolved.fullname@, info)
                    },
                    Err(e) => {
                        &&& is_service_outcome(
                            Err(e),
                            resolved.fullname@,
                            without_scopes(resolved.addresses@),
                            resolved.port,
                            resolved.properties@,
                            now,
                        )
                        &&& final(self)@ == old(self)@
                    },
                },
                BrowseEvent::Removed(fullname) => {
                    &&& r matches Ok(Some(DiscoveryEvent::ServiceRemoved { instance_name }))
                    &&& instance_name@ == fullname@
                    &&& final(self)@ == old(self)@.remove(fullname@)
                },
                BrowseEvent::Other => r matches Ok(None) && final(self)@ == old(self)@,
            },
            is_browse_outcome(old(self)@, final(self)@, event, now, r),
    {
        match event {
            BrowseEvent::Resolved(resolved) => {
                match service_info_from_mdns_resolved(&resolved, now) {
                    Ok(info) => {
                        self.services.insert(resolved.fullname, info.clone());
                        Ok(Some(DiscoveryEvent::ServiceDiscovered(info)))
                    },
                    Err(e) => Err(e),
                }
            },
            BrowseEvent::Removed(fullname) => {
                self.services.remove(fullname.as_str());
                Ok(Some(DiscoveryEvent::ServiceRemoved { instance_name: fullname }))
            },
            BrowseEvent::Other => Ok(None),
        }
    }

    /// Every service that was found and is not gone.
    pub fn discovered_services(&self) -> (r: Vec<ServiceInfo>)
        ensures
            are_services(r@, self@),
    {
        self.services.services()
    }
}

} // verus!
