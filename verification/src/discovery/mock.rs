//! Discovery in memory, for tests: a registry of services, and a publisher that fills it.
use crate::discovery::error::DiscoveryError;
use crate::discovery::service_info::{IpAddress, PublishInfo, ServiceInfo, TxtRecords};
use crate::discovery::table::{are_services, ServiceTable};
use vstd::prelude::*;

verus! {

/// What browsers are told.
#[derive(Debug, Clone)]
pub enum BackendEvent {
    /// A service was published.
    ServicePublished(ServiceInfo),
    /// The service with this instance name was withdrawn.
    ServiceUnpublished(String),
}

/// Whether an event tells that a service was withdrawn.
pub open spec fn tells_unpublished(event: BackendEvent, instance_name: Seq<char>) -> bool {
    event matches BackendEvent::ServiceUnpublished(name) && name@ == instance_name
}

/// The registry of published services, by instance name.
pub struct MockBackend {
    services: ServiceTable,
}

impl View for MockBackend {
    type V = Map<Seq<char>, ServiceInfo>;

    closed spec fn view(&self) -> Map<Seq<char>, ServiceInfo> {
        self.services@
    }
}

impl MockBackend {
    /// Nothing is published.
    pub fn new() -> (b: Self)
        ensures
            b@ == Map::<Seq<char>, ServiceInfo>::empty(),
    {
        MockBackend { services: ServiceTable::new() }
    }

    /// Publishes a service under its instance name, in place of the one that was there.
    pub fn publish(&mut self, info: ServiceInfo) -> (event: BackendEvent)
        ensures
            final(self)@ == old(self)@.insert(info.instance_name@, info),
            event == BackendEvent::ServicePublished(info),
    {
        self.services.insert(info.instance_name.clone(), info.clone());
        BackendEvent::ServicePublished(info)
    }

    /// Withdraws a service. Browsers are told even if it was not there.
    pub fn unpublish(&mut self, instance_name: &str) -> (event: BackendEvent)
        ensures
            final(self)@ == old(self)@.remove(instance_name@),
            tells_unpublished(event, instance_name@),
            event matches BackendEvent::ServiceUnpublished(name) && name@ == instance_name@,
    {
        self.services.remove(instance_name);
        BackendEvent::ServiceUnpublished(instance_name.to_owned())
    }

    /// Every published service.
    pub fn get_services(&self) -> (r: Vec<ServiceInfo>)
        ensures
            are_services(r@, self@),
    {
        self.services.services()
    }

    /// The number of published services.
    pub fn service_count(&self) -> (n: usize)
        ensures
            n == self@.len(),
    {
        self.services.len()
    }

    /// Withdraws every service. Browsers are not told.
    pub fn clear(&mut self)
        ensures
            final(self)@ == Map::<Seq<char>, ServiceInfo>::empty(),
    {
        self.services.clear();
    }
}

impl Default for MockBackend {
    fn default() -> (b: Self)
        ensures
            b@ == Map::<Seq<char>, ServiceInfo>::empty(),
    {
        MockBackend::new()
    }
}

/// A publisher: it has published one service or none.
pub struct MockPublisher {
    current_service: Option<ServiceInfo>,
}

impl View for MockPublisher {
    type V = Option<ServiceInfo>;

    closed spec fn view(&self) -> Option<ServiceInfo> {
        self.current_service
    }
}

/// Whether a service is what is published of it. In memory every service is on this host.
pub open spec fn is_published_as(service: ServiceInfo, info: PublishInfo, now: u64) -> bool {
    &&& service.instance_name == info.display_name
    &&& service.display_name == info.display_name
    &&& service.ip_address matches IpAddress::V4(address)
    &&& address@ == seq![127u8, 0, 0, 1]
    &&& service.port == info.port
    &&& service.fingerprint == info.fingerprint
    &&& service.metadata_version == info.metadata_version
    &&& service.auth_token == info.auth_token
    &&& service.discovered_at == now
}

/// What becomes of a registry and a publisher when a service is published.
pub open spec fn is_publication(
    before: Map<Seq<char>, ServiceInfo>,
    after: Map<Seq<char>, ServiceInfo>,
    published: Option<ServiceInfo>,
    events: Seq<BackendEvent>,
    info: PublishInfo,
    now: u64,
) -> bool {
    &&& published matches Some(service)
    &&& is_published_as(service, info, now)
    &&& after == before.insert(service.instance_name@, service)
    &&& events == seq![BackendEvent::ServicePublished(service)]
}

/// What becomes of a registry when a publisher withdraws what it published.
pub open spec fn is_withdrawal(
    before: Map<Seq<char>, ServiceInfo>,
    after: Map<Seq<char>, ServiceInfo>,
    published: Option<ServiceInfo>,
    events: Seq<BackendEvent>,
) -> bool {
    match published {
        Some(service) => {
            &&& after == before.remove(service.instance_name@)
            &&& events.len() == 1
            &&& tells_unpublished(events[0], service.instance_name@)
        },
        None => after == before && events.len() == 0,
    }
}

/// What becomes of a registry and a publisher when the TXT records change.
pub open spec fn is_update(
    before: Map<Seq<char>, ServiceInfo>,
    after: Map<Seq<char>, ServiceInfo>,
    published: Option<ServiceInfo>,
    republished: Option<ServiceInfo>,
    events: Seq<BackendEvent>,
    version: u32,
) -> bool {
    match published {
        Some(service) => {
            let updated = ServiceInfo { metadata_version: version, ..service };
            &&& republished == Some(updated)
            &&& after == before.insert(updated.instance_name@, updated)
            &&& events.len() == 2
            &&& tells_unpublished(events[0], service.instance_name@)
            &&& events[1] == BackendEvent::ServicePublished(updated)
        },
        None => republished is None && after == before && events.len() == 0,
    }
}

impl MockPublisher {
    /// Nothing is published.
    pub fn new() -> (p: Self)
        ensures
            p@ is None,
    {
        MockPublisher { current_service: None }
    }

    /// Publishes a service, at the time `now`, and remembers it.
    pub fn publish(&mut self, backend: &mut MockBackend, info: PublishInfo, now: u64) -> (r: Result<
        Vec<BackendEvent>,
        DiscoveryError,
    >)
        ensures
            final(self)@ matches Some(service) && is_published_as(service, info, now) && final(
                backend
            )@ == old(backend)@.insert(service.instance_name@, service) && (r matches Ok(events)
                && events@ == seq![BackendEvent::ServicePublished(service)])
                && service.instance_name@ == info.display_name@ && service.display_name@
                == info.display_name@ && (service.ip_address matches IpAddress::V4(address)
                && address@ == seq![127u8, 0, 0, 1]) && service.port == info.port
                && service.fingerprint@ == info.fingerprint@ && service.metadata_version
                == info.metadata_version && service.auth_token@ == info.auth_token@
                && service.discovered_at == now,
            r matches Ok(events) && is_publication(
                old(backend)@,
                final(backend)@,
                final(self)@,
                events@,
                info,
                now,
            ),
    {
        let address: [u8; 4] = [127, 0, 0, 1];
        proof {
            assert(address@ =~= seq![127u8, 0, 0, 1]);
        }
        let service = ServiceInfo {
            instance_name: info.display_name.clone(),
            display_name: info.display_name,
            ip_address: IpAddress::V4(address),
            port: info.port,
            fingerprint: info.fingerprint,
            metadata_version: info.metadata_version,
            auth_token: info.auth_token,
            discovered_at: now,
        };
        let event = backend.publish(service.clone());
        let mut events: Vec<BackendEvent> = Vec::new();
        events.push(event);
        proof {
            assert(events@ =~= seq![BackendEvent::ServicePublished(service)]);
        }
        self.current_service = Some(service);
        Ok(events)
    }

    /// Withdraws the service that was published, if there is one.
    pub fn unpublish(&mut self, backend: &mut MockBackend) -> (r: Result<
        Vec<BackendEvent>,
        DiscoveryError,
    >)
        ensures
            final(self)@ is None,
            match old(self)@ {
                Some(service) => {
                    &&& final(backend)@ == old(backend)@.remove(service.instance_name@)
                    &&& r matches Ok(events)
                    &&& events@.len() == 1
                    &&& tells_unpublished(events@[0], service.instance_name@)
                    &&& events@[0] matches BackendEvent::ServiceUnpublished(name)
                    &&& name@ == service.instance_name@
                },
                None => {
                    &&& final(backend)@ == old(backend)@
                    &&& r matches Ok(events)
                    &&& events@.len() == 0
                },
            },
            r matches Ok(events) && is_withdrawal(
                old(backend)@,
                final(backend)@,
                old(self)@,
                events@,
            ),
    {
        let mut events: Vec<BackendEvent> = Vec::new();
        match self.current_service.take() {
            Some(service) => {
                events.push(backend.unpublish(service.instance_name.as_str()));
            },
            None => {},
        }
        Ok(events)
    }

    /// Changes the TXT records of the service that was published, if there is one: it is
    /// withdrawn and published again with the new metadata version. The fingerprint and the
    /// token stay.
    pub fn update_txt_records(&mut self, backend: &mut MockBackend, txt: TxtRecords) -> (r: Result<
        Vec<BackendEvent>,
        DiscoveryError,
    >)
        ensures
            match old(self)@ {
                Some(service) => {
                    let updated = ServiceInfo { metadata_version: txt.mv, ..service };
                    &&& final(self)@ == Some(updated)
                    &&& final(backend)@ == old(backend)@.insert(updated.instance_name@, updated)
                    &&& r matches Ok(events)
                    &&& events@.len() == 2
                    &&& tells_unpublished(events@[0], service.instance_name@)
                    &&& events@[0] matches BackendEvent::ServiceUnpublished(name)
                    &&& name@ == service.instance_name@
                    &&& events@[1] == BackendEvent::ServicePublished(updated)
                },
                None => {
                    &&& final(self)@ is None
                    &&& final(backend)@ == old(backend)@
                    &&& r matches Ok(events)
                    &&& events@.len() == 0
                },
            },
            r matches Ok(events) && is_update(
                old(backend)@,
                final(backend)@,
                old(self)@,
                final(self)@,
                events@,
                txt.mv,
            ),
    {
        let mut events: Vec<BackendEvent> = Vec::new();
        match self.current_service.take() {
            Some(mut service) => {
                events.push(backend.unpublish(service.instance_name.as_str()));
                service.metadata_version = txt.mv;
                events.push(backend.publish(service.clone()));
                proof {
                    let name = service.instance_name@;
                    assert(old(backend)@.remove(name).insert(name, service) =~= old(backend)@.insert(name, service));
                }
                self.current_service = Some(service);
            },
            None => {},
        }
        Ok(events)
    }
}

} // verus!
