//! Why discovery failed.
use vstd::prelude::*;

verus! {

/// Why discovery failed.
#[derive(Debug, Clone)]
pub enum DiscoveryError {
    /// Browsing could not start.
    BrowseFailed(String),
    /// Browsing could not stop.
    StopBrowseFailed(String),
    /// A service could not be published.
    PublishFailed(String),
    /// A service could not be withdrawn.
    UnpublishFailed(String),
    /// Anything else.
    Other(String),
}

} // verus!
