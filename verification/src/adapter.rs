//! What the fish adapter decides about the frames it receives and the messages it sends.
use vstd::prelude::*;
use vstd::utf8::encode_utf8;

use crate::codec::{
    base64_decode, base64_decoding, base64_encode, base64_encoding, json_encoding, json_from_bytes,
    json_decoding, json_to_text, msgpack_decoding, msgpack_from_bytes,
};
use crate::error::AppError;
use crate::event::{MessageEvent, SystemEvent};
use crate::json::{
    entries_view, first_in, first_of, get_in, lemma_list_view, list_view, lookup, object, opt_get,
    opt_json_view, opt_str, opt_view, push_entry, str_in, Json, JsonView,
};
use crate::message::{plain_text_spec, seg_views, MessageChain, MessageSegment, SegmentView};
use crate::protocol::{
    decode_content, decode_content_spec, decode_message, decode_message_spec, encode_chain,
    encode_chain_spec, Decoded,
};
use crate::sign::{decrypt, decrypt_spec, generate_mid, generate_uuid, mid_spec, uuid_spec};
use crate::text::{
    before_char, chars_of, contains, contains_seq, owned, push_str, split_first, str_eq, trim,
    trim_seq,
};

verus! {

/// A client of the marketplace's HTTP API.
pub trait BaseAPI: Send + Sync {}

/// The body of a sync item: `None` where it is plain Base64 JSON (those are skipped), else
/// the MessagePack value that its Base64 bytes hold.
pub open spec fn sync_payload_spec(raw: Seq<char>) -> Option<JsonView> {
    if decrypt_spec(raw) is Some {
        None
    } else {
        match base64_decoding(encode_utf8(raw)) {
            None => None,
            Some(bytes) => msgpack_decoding(bytes),
        }
    }
}

/// Reads a sync item's body: plain JSON bodies give `None`; MessagePack bodies give their value.
pub fn decode_sync_payload(raw_data: &str) -> (r: Option<Json>)
    ensures
        opt_json_view(r) == sync_payload_spec(raw_data@),
{
    if decrypt(raw_data).is_ok() {
        return None;
    }
    let decoded = match base64_decode(raw_data.as_bytes()) {
        Ok(b) => b,
        Err(_) => {
            return None;
        },
    };
    msgpack_from_bytes(decoded.as_slice())
}

/// Whether every one of the (non-empty) segments is a custom node without a description.
pub open spec fn fallback_spec(segs: Seq<SegmentView>) -> bool {
    segs.len() > 0 && forall|i: int|
        0 <= i < segs.len() ==> (#[trigger] segs[i] matches SegmentView::CustomNode(d, _) && d.len()
            == 0)
}

/// Whether decoded segments say nothing readable, so the reminder text stands in for them.
pub fn should_fallback_to_reminder_content(segments: &[MessageSegment]) -> (r: bool)
    ensures
        r == fallback_spec(seg_views(segments@)),
{
    if segments.len() == 0 {
        return false;
    }
    let mut i: usize = 0;
    while i < segments.len()
        invariant
            i <= segments.len(),
            forall|j: int|
                0 <= j < i ==> (#[trigger] seg_views(segments@)[j] matches SegmentView::CustomNode(
                    d,
                    _,
                ) && d.len() == 0),
        decreases segments.len() - i,
    {
        assert(seg_views(segments@)[i as int] == segments@[i as int]@);
        match &segments[i] {
            MessageSegment::CustomNode { desc, .. } => {
                if desc.as_str().unicode_len() != 0 {
                    return false;
                }
            },
            _ => {
                return false;
            },
        }
        i += 1;
    }
    true
}

/// Whether a payload is a chat message: `["1"]["10"]["reminderContent"]` is a string inside
/// objects.
pub open spec fn is_chat_spec(p: JsonView) -> bool {
    match p.get("1"@) {
        Some(JsonView::Object(body)) => match lookup(body, "10"@) {
            Some(JsonView::Object(sender)) => lookup(sender, "reminderContent"@) matches Some(
                JsonView::Str(_),
            ),
            _ => false,
        },
        _ => false,
    }
}

pub fn is_chat_message(payload: &Json) -> (r: bool)
    ensures
        r == is_chat_spec(payload@),
{
    match payload.get("1") {
        Some(body) => match body {
            Json::Object(_) => match body.get("10") {
                Some(sender) => match sender {
                    Json::Object(_) => match sender.get("reminderContent") {
                        Some(Json::Str(_)) => true,
                        _ => false,
                    },
                    _ => false,
                },
                None => false,
            },
            _ => false,
        },
        None => false,
    }
}

/// Whether a text, trimmed, is non-empty and wrapped in square brackets.
pub open spec fn bracket_spec(m: Seq<char>) -> bool {
    let c = trim_seq(m);
    c.len() > 0 && c[0] == '[' && c[c.len() - 1] == ']'
}

/// Whether a message is a platform notice in square brackets, such as `[已下单]`.
pub fn is_bracket_system_message(message: &str) -> (r: bool)
    ensures
        r == bracket_spec(message@),
{
    let clean = trim(message);
    let cs = chars_of(clean.as_str());
    cs.len() > 0 && cs[0] == '[' && cs[cs.len() - 1] == ']'
}

/// Whether a payload is a typing indicator: `["1"]` is an array whose first element has a
/// string `"1"` that contains `@goofish`.
pub open spec fn typing_spec(p: JsonView) -> bool {
    match p.get("1"@) {
        Some(JsonView::Array(items)) => items.len() > 0 && match opt_str(items[0].get("1"@)) {
            Some(s) => contains_seq(s, "@goofish"@),
            None => false,
        },
        _ => false,
    }
}

pub fn is_typing_status(payload: &Json) -> (r: bool)
    ensures
        r == typing_spec(payload@),
{
    match payload.get("1") {
        Some(Json::Array(items)) => {
            proof {
                lemma_list_view(items@);
            }
            if items.len() == 0 {
                return false;
            }
            match str_in(items[0].get("1")) {
                Some(s) => contains(s, "@goofish"),
                None => false,
            }
        },
        _ => false,
    }
}

/// Whether a payload is a control message: `["3"]["needPush"]` is the string `false`.
pub open spec fn system_spec(p: JsonView) -> bool {
    match p.get("3"@) {
        Some(JsonView::Object(es)) => lookup(es, "needPush"@) == Some(JsonView::Str("false"@)),
        _ => false,
    }
}

pub fn is_system_message(payload: &Json) -> (r: bool)
    ensures
        r == system_spec(payload@),
{
    match payload.get("3") {
        Some(field3) => match field3 {
            Json::Object(_) => match str_in(field3.get("needPush")) {
                Some(s) => str_eq(s, "false"),
                None => false,
            },
            _ => false,
        },
        None => false,
    }
}

/// The event type of a non-chat payload: an order state from `["3"]["redReminder"]`, else the
/// first of `action`, `type`, `eventType`, `bizType` that is present, as a string, else `unknown`.
pub open spec fn classify_spec(p: JsonView) -> Seq<char> {
    let top = opt_str(
        first_of(
            p.get("action"@),
            first_of(p.get("type"@), first_of(p.get("eventType"@), p.get("bizType"@))),
        ),
    );
    let fallback = match top {
        Some(s) => s,
        None => "unknown"@,
    };
    match p.get("3"@) {
        Some(JsonView::Object(es)) => match lookup(es, "redReminder"@) {
            Some(JsonView::Str(r)) => if r == "等待买家付款"@ {
                "order_create"@
            } else if r == "交易关闭"@ {
                "order_closed"@
            } else if r == "等待卖家发货"@ {
                "item_purchased"@
            } else {
                "order_unknown"@
            },
            _ => fallback,
        },
        _ => fallback,
    }
}

pub fn classify_event_type(payload: &Json) -> (r: String)
    ensures
        r@ == classify_spec(payload@),
{
    if let Some(field3) = payload.get("3") {
        if let Json::Object(_) = field3 {
            if let Some(Json::Str(reminder)) = field3.get("redReminder") {
                let r = reminder.as_str();
                if str_eq(r, "等待买家付款") {
                    return owned("order_create");
                } else if str_eq(r, "交易关闭") {
                    return owned("order_closed");
                } else if str_eq(r, "等待卖家发货") {
                    return owned("item_purchased");
                } else {
                    return owned("order_unknown");
                }
            }
        }
    }
    let top = first_in(
        payload.get("action"),
        first_in(payload.get("type"), first_in(payload.get("eventType"), payload.get("bizType"))),
    );
    match str_in(top) {
        Some(s) => owned(s),
        None => owned("unknown"),
    }
}

/// A string that may be missing, as `unwrap_or("")` reads it.
pub open spec fn or_empty(o: Option<Seq<char>>) -> Seq<char> {
    match o {
        Some(s) => s,
        None => Seq::empty(),
    }
}

/// The first of two optional strings that is present, else empty.
pub open spec fn first_text(a: Option<Seq<char>>, b: Option<Seq<char>>) -> Seq<char> {
    match a {
        Some(s) => s,
        None => or_empty(b),
    }
}

/// A custom node without description that carries a whole payload (an object with a content
/// type) stands for that payload's segment; any other segment stands for itself.
pub open spec fn unwrap_spec(s: SegmentView) -> SegmentView {
    match s {
        SegmentView::CustomNode(d, c) => if d.len() == 0 && c.get("contentType"@) is Some {
            match decode_message_spec(c) {
                Decoded::Value(x) => x,
                _ => s,
            }
        } else {
            s
        },
        _ => s,
    }
}

/// The segments of a chat payload: its decoded content (carried payloads unwrapped), with the
/// reminder text standing in where the content is missing, empty or unreadable.
pub open spec fn chat_segments(content: Option<JsonView>, reminder: Option<Seq<char>>) -> Seq<SegmentView> {
    match content {
        Some(c) => {
            let decoded = match decode_content_spec(c) {
                Decoded::Value(v) => v.map_values(|s: SegmentView| unwrap_spec(s)),
                _ => Seq::empty(),
            };
            if decoded.len() == 0 || fallback_spec(decoded) {
                match reminder {
                    Some(t) => seq![SegmentView::Text(t)],
                    None => decoded,
                }
            } else {
                decoded
            }
        },
        None => match reminder {
            Some(t) => seq![SegmentView::Text(t)],
            None => Seq::empty(),
        },
    }
}

/// The chat message in a payload as (conversation id, sender id, sender name, segments);
/// `None` for a non-chat payload, an empty or bracketed message, or one sent by `my_id`.
pub open spec fn parse_event_spec(p: JsonView, my_id: Seq<char>) -> Option<
    (Seq<char>, Seq<char>, Seq<char>, Seq<SegmentView>),
> {
    if !is_chat_spec(p) {
        None
    } else {
        let body = p.get("1"@);
        let sender = opt_get(body, "10"@);
        let cid_raw = first_text(opt_str(opt_get(body, "2"@)), opt_str(opt_get(body, "cid"@)));
        let cid = before_char(cid_raw, '@');
        let sender_id = first_text(
            opt_str(first_of(opt_get(sender, "senderUserId"@), opt_get(sender, "user_id"@))),
            opt_str(first_of(opt_get(body, "sender_id"@), p.get("sender_id"@))),
        );
        let sender_name = first_text(
            opt_str(first_of(opt_get(sender, "reminderTitle"@), opt_get(sender, "name"@))),
            opt_str(first_of(opt_get(body, "sender_name"@), p.get("sender_name"@))),
        );
        let content = first_of(
            opt_get(body, "6"@),
            first_of(
                opt_get(body, "content"@),
                first_of(opt_get(opt_get(body, "3"@), "5"@), p.get("messages"@)),
            ),
        );
        let reminder = opt_str(opt_get(sender, "reminderContent"@));
        let segs = chat_segments(content, reminder);
        if segs.len() == 0 || bracket_spec(plain_text_spec(segs)) {
            None
        } else if sender_id == my_id {
            None
        } else {
            Some((cid, sender_id, sender_name, segs))
        }
    }
}

fn text_or_empty(o: Option<&str>) -> (r: String)
    ensures
        match o {
            Some(s) => r@ == s@,
            None => r@ == Seq::<char>::empty(),
        },
{
    match o {
        Some(s) => owned(s),
        None => String::new(),
    }
}

fn first_text_of(a: Option<&str>, b: Option<&str>) -> (r: String)
    ensures
        r@ == first_text(
            match a {
                Some(s) => Some(s@),
                None => None,
            },
            match b {
                Some(s) => Some(s@),
                None => None,
            },
        ),
{
    match a {
        Some(s) => owned(s),
        None => text_or_empty(b),
    }
}

/// A segment with a carried payload unwrapped.
pub fn unwrap_custom(seg: MessageSegment) -> (r: MessageSegment)
    ensures
        r@ == unwrap_spec(seg@),
{
    let carried = match &seg {
        MessageSegment::CustomNode { desc, content } => {
            if desc.as_str().unicode_len() == 0 && content.get("contentType").is_some() {
                match decode_message(content) {
                    Ok(x) => Some(x),
                    Err(_) => None,
                }
            } else {
                None
            }
        },
        _ => None,
    };
    match carried {
        Some(x) => x,
        None => seg,
    }
}

fn unwrap_all(v: Vec<MessageSegment>) -> (r: Vec<MessageSegment>)
    ensures
        seg_views(r@) == seg_views(v@).map_values(|s: SegmentView| unwrap_spec(s)),
{
    let ghost all = seg_views(v@);
    let mut out: Vec<MessageSegment> = Vec::new();
    for s in it: v
        invariant
            all == seg_views(it.seq()),
            seg_views(out@) == all.take(it.index() as int).map_values(|s: SegmentView| unwrap_spec(s)),
    {
        let ghost prev = out@;
        let ghost sv = s@;
        proof {
            assert(all[it.index() as int] == sv);
        }
        let u = unwrap_custom(s);
        let ghost uv = u@;
        out.push(u);
        proof {
            let i = it.index() as int;
            assert(seg_views(out@) =~= seg_views(prev).push(uv));
            assert(all.take(i + 1) =~= all.take(i).push(all[i]));
            assert(all.take(i + 1).map_values(|s: SegmentView| unwrap_spec(s)) =~= all.take(i).map_values(
                |s: SegmentView| unwrap_spec(s),
            ).push(unwrap_spec(all[i])));
        }
    }
    assert(all.take(all.len() as int) =~= all);
    out
}

/// Reads a chat message out of a decrypted payload; `my_id` is the account's own user id,
/// whose messages are skipped.
pub fn parse_event(payload: &Json, my_id: &str) -> (r: Option<MessageEvent>)
    ensures
        match r {
            None => parse_event_spec(payload@, my_id@) is None,
            Some(ev) => parse_event_spec(payload@, my_id@) == Some(
                (ev.cid@, ev.sender_id@, ev.sender_name@, ev.messages@),
            ) && ev.raw_payload@ == payload@,
        },
{
    if !is_chat_message(payload) {
        return None;
    }
    let p = Some(payload);
    let body = payload.get("1");
    let sender = get_in(body, "10");
    let cid_raw = first_text_of(str_in(get_in(body, "2")), str_in(get_in(body, "cid")));
    let cid = split_first(cid_raw.as_str(), '@');
    let sender_id = first_text_of(
        str_in(first_in(get_in(sender, "senderUserId"), get_in(sender, "user_id"))),
        str_in(first_in(get_in(body, "sender_id"), get_in(p, "sender_id"))),
    );
    let sender_name = first_text_of(
        str_in(first_in(get_in(sender, "reminderTitle"), get_in(sender, "name"))),
        str_in(first_in(get_in(body, "sender_name"), get_in(p, "sender_name"))),
    );
    let content = first_in(
        get_in(body, "6"),
        first_in(
            get_in(body, "content"),
            first_in(get_in(get_in(body, "3"), "5"), get_in(p, "messages")),
        ),
    );
    let reminder = str_in(get_in(sender, "reminderContent"));
    let segments: Vec<MessageSegment> = match content {
        Some(c) => {
            let decoded = match decode_content(c) {
                Ok(v) => unwrap_all(v),
                Err(_) => Vec::new(),
            };
            assert(seg_views(decoded@) =~= match decode_content_spec(c@) {
                Decoded::Value(v) => v.map_values(|s: SegmentView| unwrap_spec(s)),
                _ => Seq::<SegmentView>::empty(),
            });
            if decoded.len() == 0 || should_fallback_to_reminder_content(decoded.as_slice()) {
                match reminder {
                    Some(text) => {
                        let mut v: Vec<MessageSegment> = Vec::new();
                        v.push(MessageSegment::text(text));
                        assert(seg_views(v@) =~= seq![SegmentView::Text(text@)]);
                        v
                    },
                    None => decoded,
                }
            } else {
                decoded
            }
        },
        None => match reminder {
            Some(text) => {
                let mut v: Vec<MessageSegment> = Vec::new();
                v.push(MessageSegment::text(text));
                assert(seg_views(v@) =~= seq![SegmentView::Text(text@)]);
                v
            },
            None => {
                let v: Vec<MessageSegment> = Vec::new();
                assert(seg_views(v@) =~= Seq::<SegmentView>::empty());
                v
            },
        },
    };
    let messages = MessageChain::from_segments(segments);
    if messages.is_empty() {
        return None;
    }
    let plain = messages.plain_text();
    if is_bracket_system_message(plain.as_str()) {
        return None;
    }
    if str_eq(sender_id.as_str(), my_id) {
        return None;
    }
    Some(MessageEvent::new(cid, sender_id, sender_name, messages, payload.duplicate()))
}

/// An event that a received frame carries.
#[derive(Debug)]
pub enum InboundEvent {
    Message(MessageEvent),
    System(SystemEvent),
}

/// The value of an inbound event.
pub enum InboundView {
    Message(Seq<char>, Seq<char>, Seq<char>, Seq<SegmentView>, JsonView),
    System(Seq<char>, JsonView),
}

impl View for InboundEvent {
    type V = InboundView;

    open spec fn view(&self) -> InboundView {
        match self {
            InboundEvent::Message(ev) => InboundView::Message(
                ev.cid@,
                ev.sender_id@,
                ev.sender_name@,
                ev.messages@,
                ev.raw_payload@,
            ),
            InboundEvent::System(ev) => InboundView::System(ev.event_type@, ev.payload@),
        }
    }
}

/// The events that one sync item gives: a chat message, a system event, or nothing (no
/// string body, a plain JSON body, a typing indicator or a control message).
pub open spec fn item_events(item: JsonView, my_id: Seq<char>) -> Seq<InboundView> {
    match opt_str(item.get("data"@)) {
        None => Seq::empty(),
        Some(raw) => match sync_payload_spec(raw) {
            None => Seq::empty(),
            Some(d) => match parse_event_spec(d, my_id) {
                Some((c, s, n, g)) => seq![InboundView::Message(c, s, n, g, d)],
                None => if typing_spec(d) || system_spec(d) {
                    Seq::empty()
                } else {
                    seq![InboundView::System(classify_spec(d), d)]
                },
            },
        },
    }
}

/// A sync item whose payload decodes to a control message (field `"3"` an object whose
/// `needPush` is the string `"false"`) or to a typing indicator (field `"1"` a non-empty list
/// whose first element's `"1"` is a string naming a `@goofish` account), and that is not a chat
/// message, gives no event.
pub proof fn lemma_skipped_items_give_no_event(item: JsonView, my_id: Seq<char>, raw: Seq<char>, d: JsonView)
    requires
        opt_str(item.get("data"@)) == Some(raw),
        sync_payload_spec(raw) == Some(d),
        parse_event_spec(d, my_id) is None,
        (d.get("3"@) matches Some(JsonView::Object(es)) && lookup(es, "needPush"@) == Some(
            JsonView::Str("false"@),
        )) || (d.get("1"@) matches Some(JsonView::Array(xs)) && xs.len() > 0 && (opt_str(
            xs[0].get("1"@),
        ) matches Some(n) && contains_seq(n, "@goofish"@))),
    ensures
        item_events(item, my_id) == Seq::<InboundView>::empty(),
{
}

/// The events of all sync items, in order.
pub open spec fn items_events(items: Seq<JsonView>, my_id: Seq<char>) -> Seq<InboundView>
    decreases items.len(),
{
    if items.len() == 0 {
        Seq::empty()
    } else {
        items_events(items.drop_last(), my_id) + item_events(items.last(), my_id)
    }
}

/// An acknowledgement header entry copied from the frame's headers where present.
pub open spec fn copied_header(h: JsonView, key: Seq<char>) -> Seq<(Seq<char>, JsonView)> {
    match h.get(key) {
        Some(v) => seq![(key, v)],
        None => Seq::empty(),
    }
}

/// The acknowledgement (code 200) for a frame with the given headers: `mid` and `sid` as
/// strings (empty where missing), then `app-key`, `ua` and `dt` where present.
pub open spec fn ack_spec(h: JsonView) -> JsonView {
    JsonView::Object(
        seq![
            ("code"@, JsonView::PosInt(200)),
            ("headers"@, JsonView::Object(
                seq![
                    ("mid"@, JsonView::Str(or_empty(opt_str(h.get("mid"@))))),
                    ("sid"@, JsonView::Str(or_empty(opt_str(h.get("sid"@))))),
                ] + copied_header(h, "app-key"@) + copied_header(h, "ua"@) + copied_header(h, "dt"@),
            )),
        ],
    )
}

/// The events of a frame: none unless its text mentions `syncPushPackage`; then those of the
/// items in `body.syncPushPackage.data`.
pub open spec fn frame_events(text: Seq<char>, msg: JsonView, my_id: Seq<char>) -> Seq<InboundView> {
    if !contains_seq(text, "syncPushPackage"@) {
        Seq::empty()
    } else {
        let body = match msg.get("body"@) {
            Some(JsonView::Object(es)) => es,
            _ => Seq::empty(),
        };
        match lookup(body, "syncPushPackage"@) {
            None => Seq::empty(),
            Some(pkg) => {
                let data = match pkg.get("data"@) {
                    Some(JsonView::Array(a)) => a,
                    _ => Seq::empty(),
                };
                items_events(data, my_id)
            },
        }
    }
}

/// What the adapter does with one received frame: the acknowledgement to send back (for a
/// frame with headers) and the events to hand on, in order.
pub struct Frame {
    pub ack: Option<Json>,
    pub events: Vec<InboundEvent>,
}

fn copy_header(h: &Json, key: &str, es: &mut Vec<(String, Json)>)
    ensures
        entries_view(final(es)@) == entries_view(old(es)@) + copied_header(h@, key@),
{
    match h.get(key) {
        Some(v) => {
            push_entry(es, key, v.duplicate());
            assert(entries_view(es@) =~= entries_view(old(es)@) + copied_header(h@, key@));
        },
        None => {
            assert(entries_view(es@) =~= entries_view(old(es)@) + copied_header(h@, key@));
        },
    }
}

/// The acknowledgement for a frame's headers.
pub fn build_ack(h: &Json) -> (r: Json)
    ensures
        r@ == ack_spec(h@),
{
    let mut hs: Vec<(String, Json)> = Vec::new();
    push_entry(&mut hs, "mid", Json::Str(text_or_empty(str_in(h.get("mid")))));
    push_entry(&mut hs, "sid", Json::Str(text_or_empty(str_in(h.get("sid")))));
    copy_header(h, "app-key", &mut hs);
    copy_header(h, "ua", &mut hs);
    copy_header(h, "dt", &mut hs);
    assert(entries_view(hs@) =~= seq![
        ("mid"@, JsonView::Str(or_empty(opt_str(h@.get("mid"@))))),
        ("sid"@, JsonView::Str(or_empty(opt_str(h@.get("sid"@))))),
    ] + copied_header(h@, "app-key"@) + copied_header(h@, "ua"@) + copied_header(h@, "dt"@));
    let mut es: Vec<(String, Json)> = Vec::new();
    push_entry(&mut es, "code", Json::PosInt(200));
    push_entry(&mut es, "headers", object(hs));
    assert(entries_view(es@) =~= ack_spec(h@)->Object_0);
    object(es)
}

/// The events of one sync item.
fn events_of_item(item: &Json, my_id: &str, out: &mut Vec<InboundEvent>)
    ensures
        final(out)@.map_values(|e: InboundEvent| e@) == old(out)@.map_values(|e: InboundEvent| e@)
            + item_events(item@, my_id@),
{
    let ghost before = old(out)@.map_values(|e: InboundEvent| e@);
    let raw = match str_in(item.get("data")) {
        Some(s) => s,
        None => {
            assert(out@.map_values(|e: InboundEvent| e@) =~= before + item_events(item@, my_id@));
            return;
        },
    };
    let decrypted = match decode_sync_payload(raw) {
        Some(v) => v,
        None => {
            assert(out@.map_values(|e: InboundEvent| e@) =~= before + item_events(item@, my_id@));
            return;
        },
    };
    match parse_event(&decrypted, my_id) {
        Some(ev) => {
            out.push(InboundEvent::Message(ev));
        },
        None => {
            if is_typing_status(&decrypted) || is_system_message(&decrypted) {
                assert(out@.map_values(|e: InboundEvent| e@) =~= before + item_events(
                    item@,
                    my_id@,
                ));
                return;
            }
            let event_type = classify_event_type(&decrypted);
            out.push(InboundEvent::System(SystemEvent::new(event_type.as_str(), decrypted)));
        },
    }
    assert(out@.map_values(|e: InboundEvent| e@) =~= before + item_events(item@, my_id@));
}

/// Decides what to do with one received frame: `Err` where its text is not JSON; else the
/// acknowledgement to send and the events to hand on. `my_id` is the account's own user id.
pub fn process_frame(text: &str, my_id: &str) -> (r: Result<Frame, AppError>)
    ensures
        match r {
            Err(e) => json_decoding(encode_utf8(text@)) is None && e is Json,
            Ok(f) => match json_decoding(encode_utf8(text@)) {
                None => false,
                Some(msg) => {
                    &&& opt_json_view(f.ack) == match msg.get("headers"@) {
                        Some(h) => Some(ack_spec(h)),
                        None => None,
                    }
                    &&& f.events@.map_values(|e: InboundEvent| e@) == frame_events(text@, msg, my_id@)
                },
            },
        },
{
    let msg = match json_from_bytes(text.as_bytes()) {
        Ok(m) => m,
        Err(source) => {
            return Err(AppError::Json { source });
        },
    };
    let ack = match msg.get("headers") {
        Some(h) => Some(build_ack(h)),
        None => None,
    };
    let mut events: Vec<InboundEvent> = Vec::new();
    let ghost none = events@.map_values(|e: InboundEvent| e@);
    assert(none =~= Seq::<InboundView>::empty());
    if !contains(text, "syncPushPackage") {
        return Ok(Frame { ack, events });
    }
    let push_pkg = match msg.get("body") {
        Some(body) => match body {
            Json::Object(_) => body.get("syncPushPackage"),
            _ => None,
        },
        None => None,
    };
    let pkg = match push_pkg {
        Some(p) => p,
        None => {
            return Ok(Frame { ack, events });
        },
    };
    let data_list = match pkg.get("data") {
        Some(Json::Array(items)) => items,
        _ => {
            return Ok(Frame { ack, events });
        },
    };
    proof {
        lemma_list_view(data_list@);
    }
    let ghost items = list_view(data_list@);
    let mut i: usize = 0;
    assert(items.subrange(0, 0) =~= Seq::<JsonView>::empty());
    while i < data_list.len()
        invariant
            i <= data_list.len(),
            items == list_view(data_list@),
            items.len() == data_list@.len(),
            forall|j: int| 0 <= j < data_list@.len() ==> #[trigger] items[j] == data_list@[j]@,
            events@.map_values(|e: InboundEvent| e@) == items_events(items.subrange(0, i as int), my_id@),
        decreases data_list.len() - i,
    {
        assert(items.subrange(0, i + 1).drop_last() =~= items.subrange(0, i as int));
        events_of_item(&data_list[i], my_id, &mut events);
        i += 1;
    }
    assert(items.subrange(0, data_list.len() as int) =~= items);
    Ok(Frame { ack, events })
}

/// The conversation that a send goes to: the given id, else the target's.
pub open spec fn send_cid(target_id: Seq<char>, cid: Option<Seq<char>>) -> Seq<char> {
    match cid {
        Some(c) => c,
        None => target_id,
    }
}

/// The send frame for a chain: its encoded payload, rendered as JSON and carried as Base64 in
/// a custom content, addressed to the conversation and to both parties; `None` where the chain
/// cannot be encoded.
pub open spec fn send_message_spec(
    target_id: Seq<char>,
    segs: Seq<SegmentView>,
    cid: Option<Seq<char>>,
    my_id: Seq<char>,
    mid: Seq<char>,
    uuid: Seq<char>,
) -> Option<JsonView> {
    match encode_chain_spec(segs) {
        None => None,
        Some((payload, ct)) => match json_encoding(payload) {
            None => None,
            Some(text) => Some(
                JsonView::Object(
                    seq![
                        ("lwp"@, JsonView::Str("/r/MessageSend/sendByReceiverScope"@)),
                        ("headers"@, JsonView::Object(seq![("mid"@, JsonView::Str(mid))])),
                        ("body"@, JsonView::Array(
                            seq![
                                JsonView::Object(
                                    seq![
                                        ("uuid"@, JsonView::Str(uuid)),
                                        ("cid"@, JsonView::Str(send_cid(target_id, cid) + "@goofish"@)),
                                        ("conversationType"@, JsonView::PosInt(1)),
                                        ("content"@, JsonView::Object(
                                            seq![
                                                ("contentType"@, JsonView::PosInt(101)),
                                                ("custom"@, JsonView::Object(
                                                    seq![
                                                        ("type"@, JsonView::PosInt(ct as nat)),
                                                        ("data"@, JsonView::Str(
                                                            base64_encoding(encode_utf8(text)),
                                                        )),
                                                    ],
                                                )),
                                            ],
                                        )),
                                        ("redPointPolicy"@, JsonView::PosInt(0)),
                                        ("extension"@, JsonView::Object(
                                            seq![("extJson"@, JsonView::Str("{}"@))],
                                        )),
                                        ("ctx"@, JsonView::Object(
                                            seq![
                                                ("appVersion"@, JsonView::Str("1.0"@)),
                                                ("platform"@, JsonView::Str("web"@)),
                                            ],
                                        )),
                                        ("mtags"@, JsonView::Object(Seq::empty())),
                                        ("msgReadStatusSetting"@, JsonView::PosInt(1)),
                                    ],
                                ),
                                JsonView::Object(
                                    seq![
                                        ("actualReceivers"@, JsonView::Array(
                                            seq![
                                                JsonView::Str(target_id + "@goofish"@),
                                                JsonView::Str(my_id + "@goofish"@),
                                            ],
                                        )),
                                    ],
                                ),
                            ],
                        )),
                    ],
                ),
            ),
        },
    }
}

pub open spec fn opt_text(o: Option<&str>) -> Option<Seq<char>> {
    match o {
        Some(s) => Some(s@),
        None => None,
    }
}

fn with_suffix(s: &str, suffix: &str) -> (r: String)
    ensures
        r@ == s@ + suffix@,
{
    let mut out = owned(s);
    push_str(&mut out, suffix);
    out
}

fn str_value(s: &str) -> (r: Json)
    ensures
        r@ == JsonView::Str(s@),
{
    Json::Str(owned(s))
}

/// The send frame for a chain with the given frame id (`mid`) and send id (`uuid`).
pub fn send_message_with(
    target_id: &str,
    message: &MessageChain,
    cid: Option<&str>,
    my_id: &str,
    mid: String,
    uuid: String,
) -> (r: Result<Json, AppError>)
    ensures
        match r {
            Ok(j) => send_message_spec(target_id@, message@, opt_text(cid), my_id@, mid@, uuid@)
                == Some(j@),
            Err(e) => send_message_spec(target_id@, message@, opt_text(cid), my_id@, mid@, uuid@)
                is None && e is Json,
        },
{
    let segs = message.segments();
    assert(segs@.map_values(|s: MessageSegment| s@) == message@);
    let (payload, custom_type) = encode_chain(segs)?;
    let text = match json_to_text(&payload) {
        Ok(t) => t,
        Err(source) => {
            return Err(AppError::Json { source });
        },
    };
    let encoded_data = base64_encode(text.as_str().as_bytes());
    assert(custom_type == 1 || custom_type == 2);
    let cid = match cid {
        Some(c) => c,
        None => target_id,
    };
    let ghost mid_v = mid@;
    let ghost uuid_v = uuid@;
    let mut headers: Vec<(String, Json)> = Vec::new();
    push_entry(&mut headers, "mid", Json::Str(mid));
    let mut custom: Vec<(String, Json)> = Vec::new();
    push_entry(&mut custom, "type", Json::PosInt(custom_type as u64));
    push_entry(&mut custom, "data", Json::Str(encoded_data));
    let mut content: Vec<(String, Json)> = Vec::new();
    push_entry(&mut content, "contentType", Json::PosInt(101));
    push_entry(&mut content, "custom", object(custom));
    let mut extension: Vec<(String, Json)> = Vec::new();
    push_entry(&mut extension, "extJson", str_value("{}"));
    let mut ctx: Vec<(String, Json)> = Vec::new();
    push_entry(&mut ctx, "appVersion", str_value("1.0"));
    push_entry(&mut ctx, "platform", str_value("web"));
    let mut first: Vec<(String, Json)> = Vec::new();
    push_entry(&mut first, "uuid", Json::Str(uuid));
    push_entry(&mut first, "cid", Json::Str(with_suffix(cid, "@goofish")));
    push_entry(&mut first, "conversationType", Json::PosInt(1));
    push_entry(&mut first, "content", object(content));
    push_entry(&mut first, "redPointPolicy", Json::PosInt(0));
    push_entry(&mut first, "extension", object(extension));
    push_entry(&mut first, "ctx", object(ctx));
    let mtags: Vec<(String, Json)> = Vec::new();
    assert(entries_view(mtags@) =~= Seq::empty());
    push_entry(&mut first, "mtags", object(mtags));
    push_entry(&mut first, "msgReadStatusSetting", Json::PosInt(1));
    let mut receivers: Vec<Json> = Vec::new();
    receivers.push(Json::Str(with_suffix(target_id, "@goofish")));
    receivers.push(Json::Str(with_suffix(my_id, "@goofish")));
    let mut second: Vec<(String, Json)> = Vec::new();
    push_entry(&mut second, "actualReceivers", Json::Array(receivers));
    let mut body: Vec<Json> = Vec::new();
    body.push(object(first));
    body.push(object(second));
    let mut es: Vec<(String, Json)> = Vec::new();
    push_entry(&mut es, "lwp", str_value("/r/MessageSend/sendByReceiverScope"));
    push_entry(&mut es, "headers", object(headers));
    push_entry(&mut es, "body", Json::Array(body));
    proof {
        let spec = send_message_spec(target_id@, message@, opt_text(Some(cid)), my_id@, mid_v, uuid_v);
        lemma_list_view(receivers@);
        lemma_list_view(body@);
        assert(entries_view(headers@) =~= seq![("mid"@, JsonView::Str(mid_v))]);
        assert(entries_view(custom@) =~= seq![
            ("type"@, JsonView::PosInt(custom_type as nat)),
            ("data"@, JsonView::Str(base64_encoding(encode_utf8(text@)))),
        ]);
        let b = spec->Some_0->Object_0[2].1->Array_0;
        assert(entries_view(content@) =~= b[0]->Object_0[3].1->Object_0);
        assert(entries_view(extension@) =~= b[0]->Object_0[5].1->Object_0);
        assert(entries_view(ctx@) =~= b[0]->Object_0[6].1->Object_0);
        assert(entries_view(first@) =~= b[0]->Object_0);
        assert(list_view(receivers@) =~= b[1]->Object_0[0].1->Array_0);
        assert(entries_view(second@) =~= b[1]->Object_0);
        assert(list_view(body@) =~= b);
        assert(entries_view(es@) =~= spec->Some_0->Object_0);
    }
    Ok(object(es))
}

/// The send frame for a chain, with a fresh frame id and send id.
pub fn build_send_message(target_id: &str, message: &MessageChain, cid: Option<&str>, my_id: &str) -> (r: Result<Json, AppError>)
    ensures
        match r {
            Ok(j) => exists|rand: nat, ms: nat, ms2: nat|
                rand < 1000 && send_message_spec(
                    target_id@,
                    message@,
                    opt_text(cid),
                    my_id@,
                    mid_spec(rand, ms),
                    uuid_spec(ms2),
                ) == Some(j@),
            Err(e) => e is Json && forall|m: Seq<char>, u: Seq<char>|
                send_message_spec(target_id@, message@, opt_text(cid), my_id@, m, u) is None,
        },
{
    let mid = generate_mid();
    let uuid = generate_uuid();
    send_message_with(target_id, message, cid, my_id, mid, uuid)
}

/// The body of a sync item as the first fish adapter reads it: its Base64 JSON (read through
/// lossy text), else its Base64 bytes as JSON; `None` where neither reads.
pub open spec fn legacy_payload_spec(raw: Seq<char>) -> Option<JsonView> {
    match crate::fish_sign::lossy_decrypt_spec(raw) {
        Some(v) => Some(v),
        None => match base64_decoding(encode_utf8(raw)) {
            None => None,
            Some(bytes) => json_decoding(bytes),
        },
    }
}

/// Reads a sync item's body as the first fish adapter does.
pub fn legacy_item_payload(raw_data: &str) -> (r: Option<Json>)
    ensures
        opt_json_view(r) == legacy_payload_spec(raw_data@),
{
    match crate::fish_sign::decrypt(raw_data) {
        Ok(v) => Some(v),
        Err(_) => match base64_decode(raw_data.as_bytes()) {
            Ok(bytes) => match json_from_bytes(bytes.as_slice()) {
                Ok(v) => Some(v),
                Err(_) => None,
            },
            Err(_) => None,
        },
    }
}

/// The message in a payload as the first fish adapter reads it: every payload is a message
/// (the body is `["1"]`, else `["body"]`, else the payload), skipped only when `my_id` sent it.
pub open spec fn legacy_parse_spec(p: JsonView, my_id: Seq<char>) -> Option<
    (Seq<char>, Seq<char>, Seq<char>, Seq<SegmentView>),
> {
    let body = first_of(p.get("1"@), first_of(p.get("body"@), Some(p)));
    let sender = first_of(opt_get(body, "10"@), opt_get(body, "sender"@));
    let cid_raw = first_text(opt_str(opt_get(body, "2"@)), opt_str(opt_get(body, "cid"@)));
    let sender_id = first_text(
        opt_str(first_of(opt_get(sender, "senderUserId"@), opt_get(sender, "user_id"@))),
        opt_str(first_of(opt_get(body, "sender_id"@), p.get("sender_id"@))),
    );
    let sender_name = first_text(
        opt_str(first_of(opt_get(sender, "reminderTitle"@), opt_get(sender, "name"@))),
        opt_str(first_of(opt_get(body, "sender_name"@), p.get("sender_name"@))),
    );
    let content = first_of(
        opt_get(body, "6"@),
        first_of(
            opt_get(body, "content"@),
            first_of(opt_get(opt_get(body, "3"@), "5"@), p.get("messages"@)),
        ),
    );
    let segs = match content {
        Some(c) => match decode_content_spec(c) {
            Decoded::Value(v) => v,
            _ => Seq::empty(),
        },
        None => Seq::empty(),
    };
    if sender_id == my_id {
        None
    } else {
        Some((before_char(cid_raw, '@'), sender_id, sender_name, segs))
    }
}

/// Reads a message out of a payload as the first fish adapter does.
pub fn parse_legacy_event(payload: &Json, my_id: &str) -> (r: Option<MessageEvent>)
    ensures
        match r {
            None => legacy_parse_spec(payload@, my_id@) is None,
            Some(ev) => legacy_parse_spec(payload@, my_id@) == Some(
                (ev.cid@, ev.sender_id@, ev.sender_name@, ev.messages@),
            ) && ev.raw_payload@ == payload@,
        },
{
    let p = Some(payload);
    let body = first_in(payload.get("1"), first_in(payload.get("body"), p));
    let sender = first_in(get_in(body, "10"), get_in(body, "sender"));
    let cid_raw = first_text_of(str_in(get_in(body, "2")), str_in(get_in(body, "cid")));
    let cid = split_first(cid_raw.as_str(), '@');
    let sender_id = first_text_of(
        str_in(first_in(get_in(sender, "senderUserId"), get_in(sender, "user_id"))),
        str_in(first_in(get_in(body, "sender_id"), get_in(p, "sender_id"))),
    );
    let sender_name = first_text_of(
        str_in(first_in(get_in(sender, "reminderTitle"), get_in(sender, "name"))),
        str_in(first_in(get_in(body, "sender_name"), get_in(p, "sender_name"))),
    );
    let content = first_in(
        get_in(body, "6"),
        first_in(
            get_in(body, "content"),
            first_in(get_in(get_in(body, "3"), "5"), get_in(p, "messages")),
        ),
    );
    let segments: Vec<MessageSegment> = match content {
        Some(c) => match decode_content(c) {
            Ok(v) => v,
            Err(_) => Vec::new(),
        },
        None => Vec::new(),
    };
    assert(seg_views(segments@) =~= match content {
        Some(c) => match decode_content_spec(c@) {
            Decoded::Value(v) => v,
            _ => Seq::<SegmentView>::empty(),
        },
        None => Seq::<SegmentView>::empty(),
    });
    if str_eq(sender_id.as_str(), my_id) {
        return None;
    }
    let messages = MessageChain::from_segments(segments);
    Some(MessageEvent::new(cid, sender_id, sender_name, messages, payload.duplicate()))
}

/// The message events that one sync item gives the first fish adapter.
pub open spec fn legacy_item_events(item: JsonView, my_id: Seq<char>) -> Seq<InboundView> {
    match opt_str(item.get("data"@)) {
        None => Seq::empty(),
        Some(raw) => match legacy_payload_spec(raw) {
            None => Seq::empty(),
            Some(d) => match legacy_parse_spec(d, my_id) {
                Some((c, s, n, g)) => seq![InboundView::Message(c, s, n, g, d)],
                None => Seq::empty(),
            },
        },
    }
}

pub open spec fn legacy_items_events(items: Seq<JsonView>, my_id: Seq<char>) -> Seq<InboundView>
    decreases items.len(),
{
    if items.len() == 0 {
        Seq::empty()
    } else {
        legacy_items_events(items.drop_last(), my_id) + legacy_item_events(items.last(), my_id)
    }
}

/// The message events of a frame for the first fish adapter.
pub open spec fn legacy_frame_events(text: Seq<char>, msg: JsonView, my_id: Seq<char>) -> Seq<InboundView> {
    if !contains_seq(text, "syncPushPackage"@) {
        Seq::empty()
    } else {
        let body = match msg.get("body"@) {
            Some(JsonView::Object(es)) => es,
            _ => Seq::empty(),
        };
        match lookup(body, "syncPushPackage"@) {
            None => Seq::empty(),
            Some(pkg) => {
                let data = match pkg.get("data"@) {
                    Some(JsonView::Array(a)) => a,
                    _ => Seq::empty(),
                };
                legacy_items_events(data, my_id)
            },
        }
    }
}

fn legacy_events_of_item(item: &Json, my_id: &str, out: &mut Vec<InboundEvent>)
    ensures
        final(out)@.map_values(|e: InboundEvent| e@) == old(out)@.map_values(|e: InboundEvent| e@)
            + legacy_item_events(item@, my_id@),
{
    let ghost before = old(out)@.map_values(|e: InboundEvent| e@);
    let raw = match str_in(item.get("data")) {
        Some(s) => s,
        None => {
            assert(out@.map_values(|e: InboundEvent| e@) =~= before + legacy_item_events(item@, my_id@));
            return;
        },
    };
    let payload = match legacy_item_payload(raw) {
        Some(v) => v,
        None => {
            assert(out@.map_values(|e: InboundEvent| e@) =~= before + legacy_item_events(item@, my_id@));
            return;
        },
    };
    match parse_legacy_event(&payload, my_id) {
        Some(ev) => {
            out.push(InboundEvent::Message(ev));
        },
        None => {},
    }
    assert(out@.map_values(|e: InboundEvent| e@) =~= before + legacy_item_events(item@, my_id@));
}

/// What the first fish adapter does with a received frame: the same acknowledgement, and a
/// message event for every readable sync item not sent by `my_id`.
pub fn process_legacy_frame(text: &str, my_id: &str) -> (r: Result<Frame, AppError>)
    ensures
        match r {
            Err(e) => json_decoding(encode_utf8(text@)) is None && e is Json,
            Ok(f) => match json_decoding(encode_utf8(text@)) {
                None => false,
                Some(msg) => {
                    &&& opt_json_view(f.ack) == match msg.get("headers"@) {
                        Some(h) => Some(ack_spec(h)),
                        None => None,
                    }
                    &&& f.events@.map_values(|e: InboundEvent| e@) == legacy_frame_events(text@, msg, my_id@)
                },
            },
        },
{
    let msg = match json_from_bytes(text.as_bytes()) {
        Ok(m) => m,
        Err(source) => {
            return Err(AppError::Json { source });
        },
    };
    let ack = match msg.get("headers") {
        Some(h) => Some(build_ack(h)),
        None => None,
    };
    let mut events: Vec<InboundEvent> = Vec::new();
    assert(events@.map_values(|e: InboundEvent| e@) =~= Seq::<InboundView>::empty());
    if !contains(text, "syncPushPackage") {
        return Ok(Frame { ack, events });
    }
    let push_pkg = match msg.get("body") {
        Some(body) => match body {
            Json::Object(_) => body.get("syncPushPackage"),
            _ => None,
        },
        None => None,
    };
    let pkg = match push_pkg {
        Some(p) => p,
        None => {
            return Ok(Frame { ack, events });
        },
    };
    let data_list = match pkg.get("data") {
        Some(Json::Array(items)) => items,
        _ => {
            return Ok(Frame { ack, events });
        },
    };
    proof {
        lemma_list_view(data_list@);
    }
    let ghost items = list_view(data_list@);
    let mut i: usize = 0;
    assert(items.subrange(0, 0) =~= Seq::<JsonView>::empty());
    while i < data_list.len()
        invariant
            i <= data_list.len(),
            items == list_view(data_list@),
            items.len() == data_list@.len(),
            forall|j: int| 0 <= j < data_list@.len() ==> #[trigger] items[j] == data_list@[j]@,
            events@.map_values(|e: InboundEvent| e@) == legacy_items_events(items.subrange(0, i as int), my_id@),
        decreases data_list.len() - i,
    {
        assert(items.subrange(0, i + 1).drop_last() =~= items.subrange(0, i as int));
        legacy_events_of_item(&data_list[i], my_id, &mut events);
        i += 1;
    }
    assert(items.subrange(0, data_list.len() as int) =~= items);
    Ok(Frame { ack, events })
}

} // verus!
