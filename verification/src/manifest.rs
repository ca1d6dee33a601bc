//! What a plugin declares about itself, and what the host granted it.
use vstd::prelude::*;
use crate::capability::Capability;

verus! {

/// A plugin's manifest.
#[derive(Debug, Clone)]
pub struct Manifest {
    pub plugin: ManifestPluginInfo,
    pub host: ManifestHost,
    pub entry: ManifestEntry,
    pub capabilities: ManifestCapabilities,
    pub contributes: ManifestContributes,
}

#[derive(Debug, Clone)]
pub struct ManifestPluginInfo {
    pub schema: u32,
    pub id: String,
    pub name: String,
    pub version: String,
    pub publisher: String,
}

#[derive(Debug, Clone)]
pub struct ManifestHost {
    pub api: String,
}

#[derive(Debug, Clone)]
pub struct ManifestEntry {
    /// The program to start (the manifest's `exec` key).
    pub exec_command: String,
}

#[derive(Debug, Clone, Default)]
pub struct ManifestCapabilities {
    pub required: Vec<Capability>,
    pub optional: Vec<Capability>,
}

#[derive(Debug, Clone, Default)]
pub struct ManifestContributes {
    pub publishes_topics: Vec<String>,
    pub channel_overlays: Vec<ChannelOverlayDecl>,
}

#[derive(Debug, Clone)]
pub struct ChannelOverlayDecl {
    pub slot: String,
    pub icon: String,
}

/// The capabilities the user granted a plugin.
#[derive(Debug, Clone, Default)]
pub struct PermissionsFile {
    pub plugin_id: String,
    pub granted: Vec<Capability>,
}

#[derive(Debug, Clone)]
pub struct PermissionsChangedParams {
    pub granted: Vec<Capability>,
}

/// Whether a capability is among those granted.
pub fn is_granted(granted: &Vec<Capability>, c: Capability) -> (r: bool)
    ensures
        r == granted@.contains(c),
{
    let mut i: usize = 0;
    while i < granted.len()
        invariant
            i <= granted@.len(),
            forall|j: int| 0 <= j < i ==> granted@[j] != c,
        decreases granted@.len() - i,
    {
        if granted[i] == c {
            return true;
        }
        i = i + 1;
    }
    false
}

} // verus!
