//! The echo plugin: it answers `/echo` with the text of the message, and declares handlers
//! for the order events.
use vstd::prelude::*;

use crate::plugin::PluginMetadata;
use crate::routing::{EventHandlerSpec, HandlerSpec, RouteView};
use crate::rule::{MatchList, Rule};
use crate::text::{owned, push_str, trim, trim_seq};

verus! {

/// The echo plugin's declaration: its metadata, its message handler and its event handlers.
#[derive(Debug)]
pub struct EchoPlugin {
    pub metadata: PluginMetadata,
    pub handlers: Vec<HandlerSpec>,
    pub event_handlers: Vec<EventHandlerSpec>,
}

/// What the echo plugin answers to a message with this text.
pub open spec fn echo_reply_spec(text: Seq<char>) -> Seq<char> {
    "Echo: "@ + trim_seq(text)
}

/// The answer of the echo handler: `Echo: ` and the trimmed text.
pub fn echo_reply(text: &str) -> (r: String)
    ensures
        r@ == echo_reply_spec(text@),
{
    let mut r = owned("Echo: ");
    let t = trim(text);
    push_str(&mut r, t.as_str());
    r
}

impl EchoPlugin {
    /// The echo plugin: `/echo` answered by [`echo_reply`]; `order_create` and
    /// `item_purchased` handled.
    pub fn new() -> (r: EchoPlugin)
        ensures
            r.metadata.id@ == "echo"@,
            r.metadata.name@ == "回声插件"@,
            r.metadata.description@ == "一个简单的回声插件，用于演示自动回复功能"@,
            r.metadata.version@ == "1.0.0"@,
            r.metadata.author@ == "Kaguya233qwq"@,
            r.handlers@.len() == 1,
            r.handlers@[0].id@ == "echo"@,
            r.handlers@[0].route@ == RouteView::Exact(seq!["/echo"@]),
            r.handlers@[0].rule matches Some(Rule::FullMatch(ps)) && crate::rule::string_views(ps@) == seq!["/echo"@],
            r.event_handlers@.len() == 2,
            r.event_handlers@[0].event_type@ == "order_create"@,
            r.event_handlers@[0].id@ == "order_notify"@,
            r.event_handlers@[1].event_type@ == "item_purchased"@,
            r.event_handlers@[1].id@ == "purchase_notify"@,
    {
        let metadata = PluginMetadata {
            id: owned("echo"),
            name: owned("回声插件"),
            description: owned("一个简单的回声插件，用于演示自动回复功能"),
            version: owned("1.0.0"),
            author: owned("Kaguya233qwq"),
        };
        let ml = MatchList::one("/echo");
        assert(crate::routing::strings_view(ml.0@) =~= seq!["/echo"@]);
        let mut handlers: Vec<HandlerSpec> = Vec::new();
        handlers.push(HandlerSpec::exact("echo", ml));
        let mut event_handlers: Vec<EventHandlerSpec> = Vec::new();
        event_handlers.push(EventHandlerSpec::new("order_create", "order_notify"));
        event_handlers.push(EventHandlerSpec::new("item_purchased", "purchase_notify"));
        EchoPlugin { metadata, handlers, event_handlers }
    }

    pub fn metadata(&self) -> (r: &PluginMetadata)
        ensures
            r == &self.metadata,
    {
        &self.metadata
    }

    pub fn message_handlers(&self) -> (r: &[HandlerSpec])
        ensures
            r@ == self.handlers@,
    {
        self.handlers.as_slice()
    }

    pub fn event_handlers(&self) -> (r: &[EventHandlerSpec])
        ensures
            r@ == self.event_handlers@,
    {
        self.event_handlers.as_slice()
    }
}

impl Default for EchoPlugin {
    fn default() -> (r: EchoPlugin)
        ensures
            r.metadata.id@ == "echo"@,
            r.handlers@.len() == 1,
            r.event_handlers@.len() == 2,
    {
        EchoPlugin::new()
    }
}

} // verus!
