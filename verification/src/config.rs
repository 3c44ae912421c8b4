//! What the operator configures about the remote API.

use crate::endpoint::RoomMachinesEndpoint;
use vstd::prelude::*;
use vstd::string::*;

verus! {

/// The remote API and the rooms to watch.
pub struct ApiConfig {
    pub endpoints: Vec<RoomMachinesEndpoint>,
    pub proto: String,
    pub host: String,
    pub port: u16,
    pub user_agent: String,
}

impl ApiConfig {
    /// The scheme used where none is configured.
    pub fn default_api_proto() -> (proto: String)
        ensures
            proto@ == "https"@,
    {
        String::from_str("https")
    }

    /// The host used where none is configured.
    pub fn default_api_host() -> (host: String)
        ensures
            host@ == "mycscgo.com"@,
    {
        String::from_str("mycscgo.com")
    }

    /// The port used where none is configured.
    pub fn default_api_port() -> (port: u16)
        ensures
            port == 443,
    {
        443
    }

    /// The user agent used where none is configured.
    pub fn default_api_user_agent() -> (agent: String)
        ensures
            agent@ == "Hello World"@,
    {
        String::from_str("Hello World")
    }

    /// A configuration for `endpoints` with every other setting at its
    /// default.
    pub fn with_defaults(endpoints: Vec<RoomMachinesEndpoint>) -> (config: ApiConfig)
        ensures
            config.endpoints == endpoints,
            config.proto@ == "https"@,
            config.host@ == "mycscgo.com"@,
            config.port == 443,
            config.user_agent@ == "Hello World"@,
    {
        ApiConfig {
            endpoints,
            proto: Self::default_api_proto(),
            host: Self::default_api_host(),
            port: Self::default_api_port(),
            user_agent: Self::default_api_user_agent(),
        }
    }
}

} // verus!
