//! The frames of the fish WebSocket handshake and heartbeat, and when to send them.
use vstd::prelude::*;

use crate::json::{entries_view, lemma_list_view, list_view, object, push_entry, Json, JsonView};
use crate::sign::{generate_mid, mid_spec};
use crate::text::{owned, trim, trim_seq};

verus! {

fn str_json(s: &str) -> (r: Json)
    ensures
        r@ == JsonView::Str(s@),
{
    Json::Str(owned(s))
}

/// The browser identity that the registration frame announces.
pub open spec fn reg_ua() -> Seq<char> {
    "Mozilla/5.0 (Windows NT 10.0; Win64; x64) AppleWebKit/537.36 (KHTML, like Gecko) Chrome/133.0.0.0 Safari/537.36 DingTalk(2.1.5) OS(Windows/10) Browser(Chrome/133.0.0.0) DingWeb/2.1.5 IMPaaS DingWeb/2.1.5"@
}

/// The registration frame (`/reg`) for an access token and device, with frame id `mid`.
pub open spec fn registration_spec(token: Seq<char>, device_id: Seq<char>, mid: Seq<char>) -> JsonView {
    JsonView::Object(
        seq![
            ("lwp"@, JsonView::Str("/reg"@)),
            ("headers"@, JsonView::Object(
                seq![
                    ("cache-header"@, JsonView::Str("app-key token ua wv"@)),
                    ("app-key"@, JsonView::Str("444e9908a51d1cb236a27862abc769c9"@)),
                    ("token"@, JsonView::Str(token)),
                    ("ua"@, JsonView::Str(reg_ua())),
                    ("dt"@, JsonView::Str("j"@)),
                    ("wv"@, JsonView::Str("im:3,au:3,sy:6"@)),
                    ("sync"@, JsonView::Str("0,0;0;0;"@)),
                    ("did"@, JsonView::Str(device_id)),
                    ("mid"@, JsonView::Str(mid)),
                ],
            )),
        ],
    )
}

/// The registration frame with the given frame id.
pub fn registration_message_with(token: &str, device_id: &str, mid: &str) -> (r: Json)
    ensures
        r@ == registration_spec(token@, device_id@, mid@),
{
    let mut hs: Vec<(String, Json)> = Vec::new();
    push_entry(&mut hs, "cache-header", str_json("app-key token ua wv"));
    push_entry(&mut hs, "app-key", str_json("444e9908a51d1cb236a27862abc769c9"));
    push_entry(&mut hs, "token", str_json(token));
    push_entry(
        &mut hs,
        "ua",
        str_json(
            "Mozilla/5.0 (Windows NT 10.0; Win64; x64) AppleWebKit/537.36 (KHTML, like Gecko) Chrome/133.0.0.0 Safari/537.36 DingTalk(2.1.5) OS(Windows/10) Browser(Chrome/133.0.0.0) DingWeb/2.1.5 IMPaaS DingWeb/2.1.5",
        ),
    );
    push_entry(&mut hs, "dt", str_json("j"));
    push_entry(&mut hs, "wv", str_json("im:3,au:3,sy:6"));
    push_entry(&mut hs, "sync", str_json("0,0;0;0;"));
    push_entry(&mut hs, "did", str_json(device_id));
    push_entry(&mut hs, "mid", str_json(mid));
    let mut es: Vec<(String, Json)> = Vec::new();
    push_entry(&mut es, "lwp", str_json("/reg"));
    push_entry(&mut es, "headers", object(hs));
    assert(entries_view(hs@) =~= registration_spec(token@, device_id@, mid@)->Object_0[1].1->Object_0);
    assert(entries_view(es@) =~= registration_spec(token@, device_id@, mid@)->Object_0);
    object(es)
}

/// The registration frame, with a fresh frame id.
pub fn build_registration_message(token: &str, device_id: &str) -> (r: Json)
    ensures
        exists|rand: nat, ms: nat| rand < 1000 && r@ == registration_spec(token@, device_id@, mid_spec(rand, ms)),
{
    let mid = generate_mid();
    registration_message_with(token, device_id, mid.as_str())
}

/// The sync acknowledgement frame (`/r/SyncStatus/ackDiff`) at time `now_ms`, with frame id
/// `mid`: its `pts` is the time in microseconds.
pub open spec fn sync_ack_spec(now_ms: nat, mid: Seq<char>) -> JsonView {
    JsonView::Object(
        seq![
            ("lwp"@, JsonView::Str("/r/SyncStatus/ackDiff"@)),
            ("headers"@, JsonView::Object(seq![("mid"@, JsonView::Str(mid))])),
            ("body"@, JsonView::Array(
                seq![
                    JsonView::Object(
                        seq![
                            ("pipeline"@, JsonView::Str("sync"@)),
                            ("tooLong2Tag"@, JsonView::Str("PNM,1"@)),
                            ("channel"@, JsonView::Str("sync"@)),
                            ("topic"@, JsonView::Str("sync"@)),
                            ("highPts"@, JsonView::PosInt(0)),
                            ("pts"@, JsonView::PosInt(now_ms * 1000)),
                            ("seq"@, JsonView::PosInt(0)),
                            ("timestamp"@, JsonView::PosInt(now_ms)),
                        ],
                    ),
                ],
            )),
        ],
    )
}

/// The sync acknowledgement frame with the given frame id.
pub fn sync_ack_message_with(now_ms: u64, mid: &str) -> (r: Json)
    requires
        now_ms * 1000 <= u64::MAX,
    ensures
        r@ == sync_ack_spec(now_ms as nat, mid@),
{
    let mut item: Vec<(String, Json)> = Vec::new();
    push_entry(&mut item, "pipeline", str_json("sync"));
    push_entry(&mut item, "tooLong2Tag", str_json("PNM,1"));
    push_entry(&mut item, "channel", str_json("sync"));
    push_entry(&mut item, "topic", str_json("sync"));
    push_entry(&mut item, "highPts", Json::PosInt(0));
    push_entry(&mut item, "pts", Json::PosInt(now_ms * 1000));
    push_entry(&mut item, "seq", Json::PosInt(0));
    push_entry(&mut item, "timestamp", Json::PosInt(now_ms));
    let mut hs: Vec<(String, Json)> = Vec::new();
    push_entry(&mut hs, "mid", str_json(mid));
    let mut body: Vec<Json> = Vec::new();
    body.push(object(item));
    let mut es: Vec<(String, Json)> = Vec::new();
    push_entry(&mut es, "lwp", str_json("/r/SyncStatus/ackDiff"));
    push_entry(&mut es, "headers", object(hs));
    push_entry(&mut es, "body", Json::Array(body));
    proof {
        let spec = sync_ack_spec(now_ms as nat, mid@);
        lemma_list_view(body@);
        assert(entries_view(item@) =~= spec->Object_0[2].1->Array_0[0]->Object_0);
        assert(entries_view(hs@) =~= spec->Object_0[1].1->Object_0);
        assert(list_view(body@) =~= spec->Object_0[2].1->Array_0);
        assert(entries_view(es@) =~= spec->Object_0);
    }
    object(es)
}

/// The sync acknowledgement frame, with a fresh frame id.
pub fn build_sync_ack_message(now_ms: u64) -> (r: Json)
    requires
        now_ms * 1000 <= u64::MAX,
    ensures
        exists|rand: nat, ms: nat| rand < 1000 && r@ == sync_ack_spec(now_ms as nat, mid_spec(rand, ms)),
{
    let mid = generate_mid();
    sync_ack_message_with(now_ms, mid.as_str())
}

/// The heartbeat frame (`/!`) with frame id `mid`.
pub open spec fn heartbeat_spec(mid: Seq<char>) -> JsonView {
    JsonView::Object(
        seq![
            ("lwp"@, JsonView::Str("/!"@)),
            ("headers"@, JsonView::Object(seq![("mid"@, JsonView::Str(mid))])),
        ],
    )
}

pub fn heartbeat_message_with(mid: &str) -> (r: Json)
    ensures
        r@ == heartbeat_spec(mid@),
{
    let mut hs: Vec<(String, Json)> = Vec::new();
    push_entry(&mut hs, "mid", str_json(mid));
    let mut es: Vec<(String, Json)> = Vec::new();
    push_entry(&mut es, "lwp", str_json("/!"));
    push_entry(&mut es, "headers", object(hs));
    assert(entries_view(hs@) =~= seq![("mid"@, JsonView::Str(mid@))]);
    assert(entries_view(es@) =~= heartbeat_spec(mid@)->Object_0);
    object(es)
}

/// The heartbeat frame, with a fresh frame id.
pub fn build_heartbeat_message() -> (r: Json)
    ensures
        exists|rand: nat, ms: nat| rand < 1000 && r@ == heartbeat_spec(mid_spec(rand, ms)),
{
    let mid = generate_mid();
    heartbeat_message_with(mid.as_str())
}

/// What the heartbeat loop does on a tick.
#[derive(Debug, PartialEq, Eq, Structural, Clone, Copy)]
pub enum HeartbeatAction {
    /// The server has been silent too long: stop the loop.
    Stop,
    /// Too soon since the last heartbeat: do nothing.
    Skip,
    /// Send a heartbeat now.
    Send,
}

/// Heartbeats go out every 15 seconds; the server may stay silent 5 seconds beyond that.
pub open spec fn heartbeat_interval_ns() -> nat {
    15_000_000_000
}

pub open spec fn heartbeat_timeout_ns() -> nat {
    5_000_000_000
}

/// The action on a tick, from the nanoseconds since the server last answered and since the
/// last heartbeat was sent.
pub open spec fn heartbeat_tick_spec(since_response_ns: nat, since_sent_ns: nat) -> HeartbeatAction {
    if since_response_ns > heartbeat_interval_ns() + heartbeat_timeout_ns() {
        HeartbeatAction::Stop
    } else if since_sent_ns < heartbeat_interval_ns() {
        HeartbeatAction::Skip
    } else {
        HeartbeatAction::Send
    }
}

/// Decides a heartbeat tick.
pub fn heartbeat_tick(since_response_ns: u128, since_sent_ns: u128) -> (r: HeartbeatAction)
    ensures
        r == heartbeat_tick_spec(since_response_ns as nat, since_sent_ns as nat),
{
    if since_response_ns > 20_000_000_000u128 {
        HeartbeatAction::Stop
    } else if since_sent_ns < 15_000_000_000u128 {
        HeartbeatAction::Skip
    } else {
        HeartbeatAction::Send
    }
}

/// The headers of the WebSocket upgrade request, before the cookie.
pub open spec fn upgrade_headers_spec() -> Seq<(Seq<char>, Seq<char>)> {
    seq![
        ("Host"@, "wss-goofish.dingtalk.com"@),
        ("Connection"@, "Upgrade"@),
        ("Pragma"@, "no-cache"@),
        ("Cache-Control"@, "no-cache"@),
        ("User-Agent"@, "Mozilla/5.0 (Windows NT 10.0; Win64; x64) AppleWebKit/537.36 (KHTML, like Gecko) Chrome/133.0.0.0 Safari/537.36"@),
        ("Origin"@, "https://www.goofish.com"@),
        ("Accept-Encoding"@, "gzip, deflate, br, zstd"@),
        ("Accept-Language"@, "zh-CN,zh;q=0.9"@),
    ]
}

fn header(k: &str, v: &str) -> (r: (String, String))
    ensures
        r.0@ == k@,
        r.1@ == v@,
{
    (owned(k), owned(v))
}

/// The headers of the WebSocket upgrade request: the fixed ones, then `Cookie` unless the
/// cookie header is blank.
pub fn upgrade_headers(cookie_header: &str) -> (r: Vec<(String, String)>)
    ensures
        crate::cookies::pairs_view(r@) == upgrade_headers_spec() + if trim_seq(cookie_header@).len() == 0 {
            Seq::empty()
        } else {
            seq![("Cookie"@, cookie_header@)]
        },
{
    let mut v: Vec<(String, String)> = Vec::new();
    v.push(header("Host", "wss-goofish.dingtalk.com"));
    v.push(header("Connection", "Upgrade"));
    v.push(header("Pragma", "no-cache"));
    v.push(header("Cache-Control", "no-cache"));
    v.push(
        header(
            "User-Agent",
            "Mozilla/5.0 (Windows NT 10.0; Win64; x64) AppleWebKit/537.36 (KHTML, like Gecko) Chrome/133.0.0.0 Safari/537.36",
        ),
    );
    v.push(header("Origin", "https://www.goofish.com"));
    v.push(header("Accept-Encoding", "gzip, deflate, br, zstd"));
    v.push(header("Accept-Language", "zh-CN,zh;q=0.9"));
    let blank = trim(cookie_header).as_str().unicode_len() == 0;
    if !blank {
        v.push(header("Cookie", cookie_header));
    }
    proof {
        let tail = if trim_seq(cookie_header@).len() == 0 {
            Seq::empty()
        } else {
            seq![("Cookie"@, cookie_header@)]
        };
        assert(crate::cookies::pairs_view(v@) =~= upgrade_headers_spec() + tail);
    }
    v
}

} // verus!
