//! Building a plugin step by step: its metadata, capabilities, runtime settings and handlers.
use vstd::prelude::*;

use crate::dispatch::{QueueStrategy, RuntimeConfig};
use crate::plugin::{Capability, PluginMetadata};
use crate::routing::{EventHandlerSpec, HandlerSpec, RouteView};
use crate::rule::{MatchList, Rule};
use crate::text::owned;

verus! {

/// A plugin under construction. Each handler takes the time limit set when it is added.
#[derive(Debug)]
pub struct PluginBuilder {
    pub metadata: PluginMetadata,
    pub message_handlers: Vec<HandlerSpec>,
    pub event_handlers: Vec<EventHandlerSpec>,
    pub default_timeout_ms: u64,
    pub capabilities: Vec<Capability>,
    pub concurrency: usize,
    pub queue_strategy: QueueStrategy,
}

/// A finished plugin: what `PluginBuilder::build` gives.
#[derive(Debug)]
pub struct BuiltPlugin {
    pub metadata: PluginMetadata,
    pub message_handlers: Vec<HandlerSpec>,
    pub event_handlers: Vec<EventHandlerSpec>,
    pub capabilities: Vec<Capability>,
    pub runtime: RuntimeConfig,
}

fn single(s: &str) -> (r: MatchList)
    ensures
        r.0@.len() == 1,
        r.0@[0]@ == s@,
{
    let mut v: Vec<String> = Vec::new();
    v.push(owned(s));
    MatchList(v)
}

/// Everything but the message handlers is unchanged.
pub open spec fn same_but_handlers(a: PluginBuilder, b: PluginBuilder) -> bool {
    &&& a.metadata == b.metadata
    &&& a.event_handlers == b.event_handlers
    &&& a.default_timeout_ms == b.default_timeout_ms
    &&& a.capabilities == b.capabilities
    &&& a.concurrency == b.concurrency
    &&& a.queue_strategy == b.queue_strategy
}

/// One message handler was added at the end, with the builder's current time limit.
pub open spec fn added_handler(a: PluginBuilder, b: PluginBuilder, id: Seq<char>, route: RouteView) -> bool {
    &&& same_but_handlers(a, b)
    &&& b.message_handlers@.len() == a.message_handlers@.len() + 1
    &&& b.message_handlers@.drop_last() == a.message_handlers@
    &&& b.message_handlers@.last().id@ == id
    &&& b.message_handlers@.last().route@ == route
    &&& b.message_handlers@.last().timeout_ms == a.default_timeout_ms
}

impl PluginBuilder {
    /// A plugin with this id and name, default metadata otherwise, no handlers, a 5-second
    /// time limit, 64 concurrent runs and `DropNewest`.
    pub fn new(id: &str, name: &str) -> (r: PluginBuilder)
        ensures
            r.metadata.id@ == id@,
            r.metadata.name@ == name@,
            r.metadata.description@ == Seq::<char>::empty(),
            r.metadata.version@ == "1.0.0"@,
            r.metadata.author@ == "Unknown"@,
            r.message_handlers@.len() == 0,
            r.event_handlers@.len() == 0,
            r.default_timeout_ms == 5000,
            r.capabilities@.len() == 0,
            r.concurrency == 64,
            r.queue_strategy == QueueStrategy::DropNewest,
    {
        PluginBuilder {
            metadata: PluginMetadata {
                id: owned(id),
                name: owned(name),
                description: String::new(),
                version: owned("1.0.0"),
                author: owned("Unknown"),
            },
            message_handlers: Vec::new(),
            event_handlers: Vec::new(),
            default_timeout_ms: 5000,
            capabilities: Vec::new(),
            concurrency: 64,
            queue_strategy: QueueStrategy::DropNewest,
        }
    }

    pub fn description(self, desc: &str) -> (r: PluginBuilder)
        ensures
            r.metadata.description@ == desc@,
            r.metadata.id == self.metadata.id,
            r.metadata.name == self.metadata.name,
            r.metadata.version == self.metadata.version,
            r.metadata.author == self.metadata.author,
            r.message_handlers == self.message_handlers,
            r.event_handlers == self.event_handlers,
            r.default_timeout_ms == self.default_timeout_ms,
            r.capabilities == self.capabilities,
            r.concurrency == self.concurrency,
            r.queue_strategy == self.queue_strategy,
    {
        let mut s = self;
        s.metadata.description = owned(desc);
        s
    }

    pub fn version(self, v: &str) -> (r: PluginBuilder)
        ensures
            r.metadata.version@ == v@,
            r.metadata.id == self.metadata.id,
            r.metadata.name == self.metadata.name,
            r.metadata.description == self.metadata.description,
            r.metadata.author == self.metadata.author,
            r.message_handlers == self.message_handlers,
            r.event_handlers == self.event_handlers,
            r.default_timeout_ms == self.default_timeout_ms,
            r.capabilities == self.capabilities,
            r.concurrency == self.concurrency,
            r.queue_strategy == self.queue_strategy,
    {
        let mut s = self;
        s.metadata.version = owned(v);
        s
    }

    pub fn author(self, a: &str) -> (r: PluginBuilder)
        ensures
            r.metadata.author@ == a@,
            r.metadata.id == self.metadata.id,
            r.metadata.name == self.metadata.name,
            r.metadata.description == self.metadata.description,
            r.metadata.version == self.metadata.version,
            r.message_handlers == self.message_handlers,
            r.event_handlers == self.event_handlers,
            r.default_timeout_ms == self.default_timeout_ms,
            r.capabilities == self.capabilities,
            r.concurrency == self.concurrency,
            r.queue_strategy == self.queue_strategy,
    {
        let mut s = self;
        s.metadata.author = owned(a);
        s
    }

    /// Sets the time limit of the handlers added from now on.
    pub fn timeout_ms(self, ms: u64) -> (r: PluginBuilder)
        ensures
            r.default_timeout_ms == ms,
            r.metadata == self.metadata,
            r.message_handlers == self.message_handlers,
            r.event_handlers == self.event_handlers,
            r.capabilities == self.capabilities,
            r.concurrency == self.concurrency,
            r.queue_strategy == self.queue_strategy,
    {
        let mut s = self;
        s.default_timeout_ms = ms;
        s
    }

    /// Declares a capability.
    pub fn capability(self, cap: Capability) -> (r: PluginBuilder)
        ensures
            r.capabilities@ == self.capabilities@.push(cap),
            r.metadata == self.metadata,
            r.message_handlers == self.message_handlers,
            r.event_handlers == self.event_handlers,
            r.default_timeout_ms == self.default_timeout_ms,
            r.concurrency == self.concurrency,
            r.queue_strategy == self.queue_strategy,
    {
        let mut s = self;
        s.capabilities.push(cap);
        s
    }

    pub fn concurrency(self, n: usize) -> (r: PluginBuilder)
        ensures
            r.concurrency == n,
            r.metadata == self.metadata,
            r.message_handlers == self.message_handlers,
            r.event_handlers == self.event_handlers,
            r.default_timeout_ms == self.default_timeout_ms,
            r.capabilities == self.capabilities,
            r.queue_strategy == self.queue_strategy,
    {
        let mut s = self;
        s.concurrency = n;
        s
    }

    pub fn queue_strategy(self, q: QueueStrategy) -> (r: PluginBuilder)
        ensures
            r.queue_strategy == q,
            r.metadata == self.metadata,
            r.message_handlers == self.message_handlers,
            r.event_handlers == self.event_handlers,
            r.default_timeout_ms == self.default_timeout_ms,
            r.capabilities == self.capabilities,
            r.concurrency == self.concurrency,
    {
        let mut s = self;
        s.queue_strategy = q;
        s
    }

    fn add(self, h: HandlerSpec) -> (r: PluginBuilder)
        ensures
            same_but_handlers(self, r),
            r.message_handlers@ == self.message_handlers@.push(
                HandlerSpec { timeout_ms: self.default_timeout_ms, ..h },
            ),
    {
        let mut s = self;
        let mut h = h;
        h.timeout_ms = s.default_timeout_ms;
        s.message_handlers.push(h);
        s
    }

    /// Adds a handler for messages whose trimmed text is `pattern`.
    pub fn command(self, id: &str, pattern: &str) -> (r: PluginBuilder)
        ensures
            added_handler(self, r, id@, RouteView::Exact(seq![pattern@])),
            r.message_handlers@.last().rule matches Some(Rule::FullMatch(ps)) && ps@.len() == 1 && ps@[0]@ == pattern@,
    {
        let ml = single(pattern);
        assert(crate::routing::strings_view(ml.0@) =~= seq![pattern@]);
        let r = self.add(HandlerSpec::exact(id, ml));
        assert(r.message_handlers@.drop_last() =~= self.message_handlers@);
        r
    }

    /// Adds a handler for messages that start with `prefix`.
    pub fn prefix(self, id: &str, prefix: &str) -> (r: PluginBuilder)
        ensures
            added_handler(self, r, id@, RouteView::Prefix(seq![prefix@])),
            r.message_handlers@.last().rule matches Some(Rule::StartsWith(ps)) && ps@.len() == 1 && ps@[0]@ == prefix@,
    {
        let ml = single(prefix);
        assert(crate::routing::strings_view(ml.0@) =~= seq![prefix@]);
        let r = self.add(HandlerSpec::prefix(id, ml));
        assert(r.message_handlers@.drop_last() =~= self.message_handlers@);
        r
    }

    /// Adds a handler for messages that contain `keyword`.
    pub fn keyword(self, id: &str, keyword: &str) -> (r: PluginBuilder)
        ensures
            added_handler(self, r, id@, RouteView::Keyword(seq![keyword@])),
            r.message_handlers@.last().rule matches Some(Rule::Keywords(ps)) && ps@.len() == 1 && ps@[0]@ == keyword@,
    {
        let ml = single(keyword);
        assert(crate::routing::strings_view(ml.0@) =~= seq![keyword@]);
        let r = self.add(HandlerSpec::keyword(id, ml));
        assert(r.message_handlers@.drop_last() =~= self.message_handlers@);
        r
    }

    /// Adds a handler for messages that the regular expression matches.
    pub fn regex(self, id: &str, pattern: &str) -> (r: PluginBuilder)
        ensures
            added_handler(self, r, id@, RouteView::Regex),
            r.message_handlers@.last().rule matches Some(Rule::Regex(p)) && p@ == pattern@,
    {
        let r = self.add(HandlerSpec::regex(id, pattern));
        assert(r.message_handlers@.drop_last() =~= self.message_handlers@);
        r
    }

    /// Adds a handler for every message.
    pub fn fallback(self, id: &str) -> (r: PluginBuilder)
        ensures
            added_handler(self, r, id@, RouteView::Fallback),
            r.message_handlers@.last().rule is None,
    {
        let r = self.add(HandlerSpec::fallback(id));
        assert(r.message_handlers@.drop_last() =~= self.message_handlers@);
        r
    }

    /// Adds a handler for system events of `event_type`.
    pub fn on_event(self, event_type: &str, handler_id: &str) -> (r: PluginBuilder)
        ensures
            r.event_handlers@.len() == self.event_handlers@.len() + 1,
            r.event_handlers@.drop_last() == self.event_handlers@,
            r.event_handlers@.last().event_type@ == event_type@,
            r.event_handlers@.last().id@ == handler_id@,
            r.metadata == self.metadata,
            r.message_handlers == self.message_handlers,
            r.default_timeout_ms == self.default_timeout_ms,
            r.capabilities == self.capabilities,
            r.concurrency == self.concurrency,
            r.queue_strategy == self.queue_strategy,
    {
        let mut s = self;
        s.event_handlers.push(EventHandlerSpec::new(event_type, handler_id));
        assert(s.event_handlers@.drop_last() =~= self.event_handlers@);
        s
    }

    /// The finished plugin: its runtime configuration from the builder's settings.
    pub fn build(self) -> (r: BuiltPlugin)
        ensures
            r.metadata == self.metadata,
            r.message_handlers == self.message_handlers,
            r.event_handlers == self.event_handlers,
            r.capabilities == self.capabilities,
            r.runtime.concurrency == self.concurrency,
            r.runtime.timeout_ms == self.default_timeout_ms,
            r.runtime.queue_strategy == self.queue_strategy,
    {
        BuiltPlugin {
            metadata: self.metadata,
            message_handlers: self.message_handlers,
            event_handlers: self.event_handlers,
            capabilities: self.capabilities,
            runtime: RuntimeConfig {
                concurrency: self.concurrency,
                timeout_ms: self.default_timeout_ms,
                queue_strategy: self.queue_strategy,
            },
        }
    }
}

} // verus!
