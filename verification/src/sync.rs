//! Managed sync and relay ports.
//!
//! The foundation owns only the ports and their null implementations; a
//! managed relay or OAuth broker is supplied by whoever hosts the runtime.

use vstd::prelude::*;

verus! {

/// Where managed sync and its relay live, when configured.
#[derive(Debug, Clone)]
pub struct SyncConfig {
    pub endpoint: Option<String>,
    pub relay_url: Option<String>,
}

/// The message relay used by managed sync.
pub trait RelayTransport {
    fn send(&self, message: &str) -> Result<(), String>;

    fn receive(&self) -> Result<Vec<String>, String>;
}

/// The refusal every null relay operation answers with.
pub open spec fn relay_unavailable() -> Seq<char> {
    "managed relay is unavailable: no relay configured"@
}

/// The refusal a null OAuth broker answers `begin` and `refresh` with.
pub open spec fn oauth_unavailable() -> Seq<char> {
    "managed OAuth is unavailable: no broker configured"@
}

/// A relay that is not there: every operation is refused.
pub struct NullRelayTransport;

impl RelayTransport for NullRelayTransport {
    fn send(&self, message: &str) -> (r: Result<(), String>)
        ensures
            r matches Err(e) && e@ == relay_unavailable(),
    {
        Err("managed relay is unavailable: no relay configured".to_string())
    }

    fn receive(&self) -> (r: Result<Vec<String>, String>)
        ensures
            r matches Err(e) && e@ == relay_unavailable(),
    {
        Err("managed relay is unavailable: no relay configured".to_string())
    }
}

/// The OAuth broker used by managed connectors.
pub trait OAuthBroker {
    fn begin(&self, provider: &str) -> Result<String, String>;

    fn refresh(&self, provider: &str) -> Result<(), String>;

    fn disconnect(&self, provider: &str) -> Result<(), String>;
}

/// A broker that is not there: nothing can be authorized, and disconnecting
/// is trivially done.
pub struct NullOAuthBroker;

impl OAuthBroker for NullOAuthBroker {
    fn begin(&self, provider: &str) -> (r: Result<String, String>)
        ensures
            r matches Err(e) && e@ == oauth_unavailable(),
    {
        Err("managed OAuth is unavailable: no broker configured".to_string())
    }

    fn refresh(&self, provider: &str) -> (r: Result<(), String>)
        ensures
            r matches Err(e) && e@ == oauth_unavailable(),
    {
        Err("managed OAuth is unavailable: no broker configured".to_string())
    }

    fn disconnect(&self, provider: &str) -> (r: Result<(), String>)
        ensures
            r is Ok,
    {
        Ok(())
    }
}

} // verus!
