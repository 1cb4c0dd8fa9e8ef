//! What a caller may set of an add-on.

use vstd::prelude::*;

verus! {

/// The part of an add-on's state that a caller may set: whether it is
/// enabled.
#[derive(Debug, Clone, Copy, PartialEq, Eq)]
pub struct AddonConfiguration {
    pub enabled: bool,
}

impl AddonConfiguration {
    /// The configuration with this flag.
    pub fn new(enabled: bool) -> (configuration: AddonConfiguration)
        ensures
            configuration.enabled == enabled,
    {
        Self { enabled }
    }
}

} // verus!
