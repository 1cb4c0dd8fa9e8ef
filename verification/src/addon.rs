//! Installed add-ons.

use crate::json::JsonValue;
use vstd::prelude::*;

verus! {

/// An add-on's manifest: the add-on's id, the command template that starts
/// it, and the whole document as JSON.
#[derive(Debug, Clone, PartialEq, Eq)]
pub struct Manifest {
    pub id: String,
    pub command: String,
    pub document: JsonValue,
}

/// An installed add-on: its manifest, its directory, and whether it is
/// enabled.
#[derive(Debug, Clone, PartialEq, Eq)]
pub struct Addon {
    pub manifest: Manifest,
    pub path: String,
    pub enabled: bool,
}

/// What the manager knows of an installed add-on.
pub struct AddonView {
    pub manifest: Manifest,
    pub path: Seq<char>,
    pub enabled: bool,
}

impl View for Addon {
    type V = AddonView;

    open spec fn view(&self) -> AddonView {
        AddonView { manifest: self.manifest, path: self.path@, enabled: self.enabled }
    }
}

impl Addon {
    /// The add-on with this manifest in this directory; it starts out
    /// disabled.
    pub fn new(manifest: Manifest, path: String) -> (addon: Addon)
        ensures
            addon == (Addon { manifest, path, enabled: false }),
    {
        Self { manifest, path, enabled: false }
    }

    /// The command template.
    pub fn command(&self) -> (command: &str)
        ensures
            command@ == self.manifest.command@,
    {
        self.manifest.command.as_str()
    }

    /// The add-on's id.
    pub fn id(&self) -> (id: &str)
        ensures
            id@ == self.manifest.id@,
    {
        self.manifest.id.as_str()
    }
}

} // verus!
