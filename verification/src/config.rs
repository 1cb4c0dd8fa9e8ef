//! The gateway's configuration.

use vstd::prelude::*;

verus! {

/// Where add-ons can be found for installation.
#[derive(Debug, Clone, PartialEq, Eq)]
pub struct AddonManager {
    pub list_urls: Vec<String>,
}

/// The ports: the public one, the two upstreams behind it, and the one that
/// add-ons connect to.
#[derive(Debug, Clone, Copy, PartialEq, Eq)]
pub struct Ports {
    pub api: u16,
    pub http: u16,
    pub ipc: u16,
    pub websocket: u16,
}

/// The configuration.
#[derive(Debug, Clone, PartialEq, Eq)]
pub struct Config {
    pub addon_manager: AddonManager,
    pub ports: Ports,
}

} // verus!
