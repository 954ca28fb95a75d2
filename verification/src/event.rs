//! Events that an adapter hands to the runtime.
use vstd::prelude::*;

use crate::json::{Json, JsonView};
use crate::message::{chain_summary, is_image, plain_text_spec, MessageChain, SegmentView};
use crate::text::owned;

verus! {

/// A non-chat event (an order placed, an item bought, a notice).
#[derive(Debug)]
pub struct SystemEvent {
    pub event_type: String,
    pub payload: Json,
}

impl SystemEvent {
    pub fn new(event_type: &str, payload: Json) -> (r: SystemEvent)
        ensures
            r.event_type@ == event_type@,
            r.payload == payload,
    {
        SystemEvent { event_type: owned(event_type), payload }
    }

    /// A copy with the same value.
    pub fn duplicate(&self) -> (r: SystemEvent)
        ensures
            r.event_type@ == self.event_type@,
            r.payload@ == self.payload@,
    {
        SystemEvent { event_type: self.event_type.clone(), payload: self.payload.duplicate() }
    }
}

/// A chat message received from a peer.
#[derive(Debug)]
pub struct MessageEvent {
    pub cid: String,
    pub sender_id: String,
    pub sender_name: String,
    pub messages: MessageChain,
    pub raw_payload: Json,
}

impl MessageEvent {
    pub fn new(
        cid: String,
        sender_id: String,
        sender_name: String,
        messages: MessageChain,
        raw_payload: Json,
    ) -> (r: MessageEvent)
        ensures
            r.cid == cid,
            r.sender_id == sender_id,
            r.sender_name == sender_name,
            r.messages == messages,
            r.raw_payload == raw_payload,
    {
        MessageEvent { cid, sender_id, sender_name, messages, raw_payload }
    }

    /// The texts of the message's text segments, joined.
    pub fn plain_text(&self) -> (r: String)
        ensures
            r@ == plain_text_spec(self.messages@),
    {
        self.messages.plain_text()
    }

    /// Whether the message holds an image.
    pub fn has_image(&self) -> (r: bool)
        ensures
            r == (exists|i: int|
                0 <= i < self.messages@.len() && is_image(#[trigger] self.messages@[i])),
    {
        self.messages.has_image()
    }

    /// A one-line summary of the message.
    pub fn summary(&self) -> (r: String)
        ensures
            r@ == chain_summary(self.messages@),
    {
        self.messages.summary()
    }

    /// A copy with the same value.
    pub fn duplicate(&self) -> (r: MessageEvent)
        ensures
            r.cid@ == self.cid@,
            r.sender_id@ == self.sender_id@,
            r.sender_name@ == self.sender_name@,
            r.messages@ == self.messages@,
            r.raw_payload@ == self.raw_payload@,
    {
        MessageEvent {
            cid: self.cid.clone(),
            sender_id: self.sender_id.clone(),
            sender_name: self.sender_name.clone(),
            messages: self.messages.duplicate(),
            raw_payload: self.raw_payload.duplicate(),
        }
    }
}

} // verus!
