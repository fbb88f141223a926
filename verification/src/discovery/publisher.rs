//! What a publisher in multicast DNS remembers.
use crate::discovery::error::DiscoveryError;
use vstd::prelude::*;

verus! {

/// The full name of the service that is registered, if there is one.
pub struct PublisherState {
    service_fullname: Option<String>,
}

impl View for PublisherState {
    type V = Option<Seq<char>>;

    closed spec fn view(&self) -> Option<Seq<char>> {
        match self.service_fullname {
            Some(fullname) => Some(fullname@),
            None => None,
        }
    }
}

impl PublisherState {
    /// Nothing is registered.
    pub fn new() -> (s: Self)
        ensures
            s@ is None,
    {
        PublisherState { service_fullname: None }
    }

    /// A service was registered.
    pub fn published(&mut self, fullname: String)
        ensures
            final(self)@ == Some(fullname@),
    {
        self.service_fullname = Some(fullname);
    }

    /// The service to withdraw, if there is one.
    pub fn registered(&self) -> (r: Option<&str>)
        ensures
            match r {
                Some(fullname) => self@ == Some(fullname@),
                None => self@ is None,
            },
    {
        match &self.service_fullname {
            Some(fullname) => Some(fullname.as_str()),
            None => None,
        }
    }

    /// The service was withdrawn.
    pub fn unpublished(&mut self)
        ensures
            final(self)@ is None,
    {
        self.service_fullname = None;
    }

    /// The records of a registered service cannot be changed: that would take what was
    /// published, which is not kept. Without a service there is nothing to change.
    pub fn update_txt_records(&self) -> (r: Result<(), DiscoveryError>)
        ensures
            match self@ {
                None => r is Ok,
                Some(_) => r matches Err(DiscoveryError::Other(text)) && text@
                    == "update_txt_records not fully implemented - requires caching PublishInfo"@,
            },
    {
        match &self.service_fullname {
            None => Ok(()),
            Some(_) => Err(
                DiscoveryError::Other(
                    "update_txt_records not fully implemented - requires caching PublishInfo".to_owned(),
                ),
            ),
        }
    }
}

} // verus!
