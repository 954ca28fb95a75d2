//! What a plugin declares about itself.
use vstd::prelude::*;

use crate::dispatch::{accepting, RuntimeConfig, QueueStrategy};
use crate::routing::HandlerSpec;
use crate::text::owned;

verus! {

/// A plugin's identity.
#[derive(Debug, Clone)]
pub struct PluginMetadata {
    pub id: String,
    pub name: String,
    pub description: String,
    pub version: String,
    pub author: String,
}

impl Default for PluginMetadata {
    /// Empty id, name and description; version `1.0.0`; author `Unknown`.
    fn default() -> (r: PluginMetadata)
        ensures
            r.id@ == Seq::<char>::empty(),
            r.name@ == Seq::<char>::empty(),
            r.description@ == Seq::<char>::empty(),
            r.version@ == "1.0.0"@,
            r.author@ == "Unknown"@,
    {
        PluginMetadata {
            id: String::new(),
            name: String::new(),
            description: String::new(),
            version: owned("1.0.0"),
            author: owned("Unknown"),
        }
    }
}

impl PluginMetadata {
    /// A copy with the same text in every field.
    pub fn duplicate(&self) -> (r: PluginMetadata)
        ensures
            r.id@ == self.id@,
            r.name@ == self.name@,
            r.description@ == self.description@,
            r.version@ == self.version@,
            r.author@ == self.author@,
    {
        PluginMetadata {
            id: self.id.clone(),
            name: self.name.clone(),
            description: self.description.clone(),
            version: self.version.clone(),
            author: self.author.clone(),
        }
    }
}

/// What a plugin may ask to do.
#[derive(Debug, Clone, Copy, PartialEq, Eq, Structural)]
pub enum Capability {
    /// Outbound HTTP requests.
    Network,
    /// Reading the local filesystem.
    FileSystem,
    /// Writing the local filesystem.
    FileSystemWrite,
    /// Sending messages through the adapter.
    SendMessage,
    /// Reading the shared application context.
    ReadAppContext,
}

/// A plugin's metadata, capabilities and runtime configuration.
#[derive(Debug, Clone)]
pub struct PluginManifest {
    pub metadata: PluginMetadata,
    pub capabilities: Vec<Capability>,
    pub runtime: RuntimeConfig,
}

/// The manifest a plugin has unless it says otherwise: its metadata, no capabilities, the
/// default runtime configuration.
pub fn default_manifest(metadata: &PluginMetadata) -> (r: PluginManifest)
    ensures
        r.metadata.id@ == metadata.id@,
        r.metadata.name@ == metadata.name@,
        r.metadata.description@ == metadata.description@,
        r.metadata.version@ == metadata.version@,
        r.metadata.author@ == metadata.author@,
        r.capabilities@ == Seq::<Capability>::empty(),
        r.runtime.concurrency == 64,
        r.runtime.timeout_ms == 5000,
        r.runtime.queue_strategy == QueueStrategy::DropNewest,
{
    PluginManifest {
        metadata: metadata.duplicate(),
        capabilities: Vec::new(),
        runtime: RuntimeConfig { concurrency: 64, timeout_ms: 5000, queue_strategy: QueueStrategy::DropNewest },
    }
}

/// Whether a plugin with these handlers wants a message with this plain text: some handler's
/// rule accepts it (a handler without a rule accepts all).
pub fn plugin_supports(handlers: &[HandlerSpec], text: &str) -> (r: bool)
    ensures
        r == (accepting(handlers@, text@).len() > 0),
{
    let picked = crate::dispatch::select_message_handlers(handlers, None, text);
    picked.len() > 0
}

} // verus!
