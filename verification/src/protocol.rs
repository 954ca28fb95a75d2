//! The fish wire format of message contents: segments to JSON and back.
use vstd::prelude::*;
use vstd::utf8::encode_utf8;

use crate::codec::{
    base64_decode, base64_decoding, base64_encode, base64_encoding, json_decoding, json_encoding,
    json_from_bytes, json_to_text,
};
use crate::error::AppError;
use crate::json::{
    entries_view, fld, i64_or0, lemma_lookup_at, lookup, i64_or_zero, idx, lemma_list_view, list_view, object, push_entry,
    str_or_empty, u64_or0, u64_or_zero, Json, JsonView,
};
use crate::message::{MessageSegment, SegmentView};
use crate::text::{second_piece, split_second};

verus! {

/// What decoding gives: a value, or the kind of failure.
pub enum Decoded<T> {
    Value(T),
    Base64Failure,
    JsonFailure,
}

pub open spec fn str_v(s: Seq<char>) -> JsonView {
    JsonView::Str(s)
}

pub open spec fn trunc32(n: nat) -> nat {
    n % 0x1_0000_0000
}

/// The content of an item card (content type 7).
pub open spec fn item_card_content(p: JsonView) -> JsonView {
    let item = p.field("itemCard"@).field("item"@);
    JsonView::Object(
        seq![
            ("fish_type"@, str_v("item_card"@)),
            ("item_id"@, str_v(item.field("itemId"@).str_or_empty())),
            ("title"@, str_v(item.field("title"@).str_or_empty())),
            ("price"@, str_v(item.field("price"@).str_or_empty())),
            ("main_pic"@, str_v(item.field("mainPic"@).str_or_empty())),
            ("url"@, str_v(
                p.field("itemCard"@).field("action"@).field("page"@).field("url"@).str_or_empty(),
            )),
        ],
    )
}

/// The content of a system tip (content type 14).
pub open spec fn tip_content(p: JsonView) -> JsonView {
    JsonView::Object(
        seq![
            ("fish_type"@, str_v("system_tip"@)),
            ("tip_text"@, str_v(p.field("tip"@).field("tip"@).str_or_empty())),
        ],
    )
}

/// The order id in a trade card's target URL: the text after the first `id=`.
pub open spec fn order_id_of(url: Seq<char>) -> Seq<char> {
    match second_piece(url, "id="@) {
        Some(t) => t,
        None => Seq::empty(),
    }
}

/// The content of a trade card (content type 26).
pub open spec fn trade_card_content(p: JsonView) -> JsonView {
    let main = p.field("dxCard"@).field("item"@).field("main"@);
    let ex = main.field("exContent"@);
    let button = p.field("dxCard"@).field("button"@);
    JsonView::Object(
        seq![
            ("fish_type"@, str_v("fish_trade_card"@)),
            ("title"@, str_v(ex.field("title"@).str_or_empty())),
            ("content"@, str_v(ex.field("desc"@).str_or_empty())),
            ("order_id"@, str_v(order_id_of(button.field("targetUrl"@).str_or_empty()))),
            ("button_text"@, str_v(button.field("text"@).str_or_empty())),
            ("task_id"@, str_v(
                main.field("clickParam"@).field("args"@).field("task_id"@).str_or_empty(),
            )),
        ],
    )
}

/// The segment that one content payload decodes to.
pub open spec fn decode_message_spec(p: JsonView) -> Decoded<SegmentView> {
    let ct = i64_or0(p.field("contentType"@));
    if ct == 1 {
        Decoded::Value(SegmentView::Text(p.field("text"@).field("text"@).str_or_empty()))
    } else if ct == 2 {
        let pic = p.field("image"@).field("pics"@).item(0);
        Decoded::Value(
            SegmentView::Image(
                pic.field("url"@).str_or_empty(),
                trunc32(u64_or0(pic.field("width"@))),
                trunc32(u64_or0(pic.field("height"@))),
            ),
        )
    } else if ct == 3 {
        let audio = p.field("audio"@);
        Decoded::Value(
            SegmentView::Audio(audio.field("url"@).str_or_empty(), u64_or0(audio.field("duration"@))),
        )
    } else if ct == 7 {
        Decoded::Value(SegmentView::CustomNode("商品卡片"@, item_card_content(p)))
    } else if ct == 14 {
        Decoded::Value(SegmentView::CustomNode("系统提示"@, tip_content(p)))
    } else if ct == 26 {
        Decoded::Value(SegmentView::CustomNode("交易卡片"@, trade_card_content(p)))
    } else if ct == 101 {
        let data = p.field("custom"@).field("data"@).str_or_empty();
        match base64_decoding(encode_utf8(data)) {
            None => Decoded::Base64Failure,
            Some(bytes) => match json_decoding(bytes) {
                None => Decoded::JsonFailure,
                Some(v) => Decoded::Value(SegmentView::CustomNode(Seq::empty(), v)),
            },
        }
    } else {
        Decoded::Value(SegmentView::CustomNode("未知消息"@, JsonView::Object(Seq::empty())))
    }
}

/// A content-type-7 payload decodes to the item card named "商品卡片" whose members are the
/// strings of the payload's item (`itemId`, `title`, `price`, `mainPic`) and of its action's page
/// URL, each empty where missing.
pub proof fn lemma_item_card_members(p: JsonView)
    requires
        i64_or0(p.field("contentType"@)) == 7,
    ensures
        decode_message_spec(p) matches Decoded::Value(SegmentView::CustomNode(desc, c)) && {
            let item = p.field("itemCard"@).field("item"@);
            &&& desc == "商品卡片"@
            &&& c.field("fish_type"@) == JsonView::Str("item_card"@)
            &&& c.field("item_id"@) == JsonView::Str(item.field("itemId"@).str_or_empty())
            &&& c.field("title"@) == JsonView::Str(item.field("title"@).str_or_empty())
            &&& c.field("price"@) == JsonView::Str(item.field("price"@).str_or_empty())
            &&& c.field("main_pic"@) == JsonView::Str(item.field("mainPic"@).str_or_empty())
            &&& c.field("url"@) == JsonView::Str(
                p.field("itemCard"@).field("action"@).field("page"@).field("url"@).str_or_empty(),
            )
        },
{
    reveal_strlit("fish_type");
    reveal_strlit("item_id");
    reveal_strlit("title");
    reveal_strlit("price");
    reveal_strlit("main_pic");
    reveal_strlit("url");
    let es = item_card_content(p)->Object_0;
    assert("title"@ != "price"@) by {
        assert("title"@[0] != "price"@[0]);
    }
    assert("fish_type"@.len() == 9 && "item_id"@.len() == 7 && "title"@.len() == 5);
    assert("price"@.len() == 5 && "main_pic"@.len() == 8 && "url"@.len() == 3);
    assert(es[0].0 == "fish_type"@ && es[1].0 == "item_id"@ && es[2].0 == "title"@);
    assert(es[3].0 == "price"@ && es[4].0 == "main_pic"@ && es[5].0 == "url"@);
    lemma_lookup_at(es, "fish_type"@, 0);
    lemma_lookup_at(es, "item_id"@, 1);
    lemma_lookup_at(es, "title"@, 2);
    lemma_lookup_at(es, "price"@, 3);
    lemma_lookup_at(es, "main_pic"@, 4);
    lemma_lookup_at(es, "url"@, 5);
}

/// The segments that each payload in turn decodes to, stopping at the first failure.
pub open spec fn decode_all(items: Seq<JsonView>) -> Decoded<Seq<SegmentView>>
    decreases items.len(),
{
    if items.len() == 0 {
        Decoded::Value(Seq::empty())
    } else {
        match decode_all(items.drop_last()) {
            Decoded::Value(prev) => match decode_message_spec(items.last()) {
                Decoded::Value(s) => Decoded::Value(prev.push(s)),
                Decoded::Base64Failure => Decoded::Base64Failure,
                Decoded::JsonFailure => Decoded::JsonFailure,
            },
            Decoded::Base64Failure => Decoded::Base64Failure,
            Decoded::JsonFailure => Decoded::JsonFailure,
        }
    }
}

/// What a message body decodes to: one segment for an object with a content type,
/// one per element for an array, else one segment.
pub open spec fn decode_content_spec(p: JsonView) -> Decoded<Seq<SegmentView>> {
    if p.get("contentType"@) is Some || !(p is Array) {
        match decode_message_spec(p) {
            Decoded::Value(s) => Decoded::Value(seq![s]),
            Decoded::Base64Failure => Decoded::Base64Failure,
            Decoded::JsonFailure => Decoded::JsonFailure,
        }
    } else {
        decode_all(p->Array_0)
    }
}

/// Whether an error is the one that a decoding failure of that kind gives.
pub open spec fn failure_matches<T>(d: Decoded<T>, e: AppError) -> bool {
    match d {
        Decoded::Value(_) => false,
        Decoded::Base64Failure => e is Base64,
        Decoded::JsonFailure => e is Json,
    }
}

fn str_json(s: &str) -> (r: Json)
    ensures
        r@ == JsonView::Str(s@),
{
    Json::string(s)
}

/// Decodes one content payload into a segment.
pub fn decode_message(payload: &Json) -> (r: Result<MessageSegment, AppError>)
    ensures
        match r {
            Ok(s) => decode_message_spec(payload@) == Decoded::Value(s@),
            Err(e) => failure_matches(decode_message_spec(payload@), e),
        },
{
    let p = Some(payload);
    let ct = i64_or_zero(fld(p, "contentType"));
    if ct == 1 {
        let text = str_or_empty(fld(fld(p, "text"), "text"));
        Ok(MessageSegment::Text { text: crate::text::owned(text) })
    } else if ct == 2 {
        let pic = idx(fld(fld(p, "image"), "pics"), 0);
        let w = u64_or_zero(fld(pic, "width"));
        let h = u64_or_zero(fld(pic, "height"));
        Ok(MessageSegment::Image {
            image_url: crate::text::owned(str_or_empty(fld(pic, "url"))),
            width: (w % 0x1_0000_0000) as u32,
            height: (h % 0x1_0000_0000) as u32,
        })
    } else if ct == 3 {
        let audio = fld(p, "audio");
        Ok(MessageSegment::Audio {
            audio_url: crate::text::owned(str_or_empty(fld(audio, "url"))),
            duration_ms: u64_or_zero(fld(audio, "duration")),
        })
    } else if ct == 7 {
        let item = fld(fld(p, "itemCard"), "item");
        let url = fld(fld(fld(fld(p, "itemCard"), "action"), "page"), "url");
        let mut es: Vec<(String, Json)> = Vec::new();
        push_entry(&mut es, "fish_type", str_json("item_card"));
        push_entry(&mut es, "item_id", str_json(str_or_empty(fld(item, "itemId"))));
        push_entry(&mut es, "title", str_json(str_or_empty(fld(item, "title"))));
        push_entry(&mut es, "price", str_json(str_or_empty(fld(item, "price"))));
        push_entry(&mut es, "main_pic", str_json(str_or_empty(fld(item, "mainPic"))));
        push_entry(&mut es, "url", str_json(str_or_empty(url)));
        assert(entries_view(es@) =~= item_card_content(payload@)->Object_0);
        Ok(MessageSegment::CustomNode { desc: crate::text::owned("商品卡片"), content: object(es) })
    } else if ct == 14 {
        let mut es: Vec<(String, Json)> = Vec::new();
        push_entry(&mut es, "fish_type", str_json("system_tip"));
        push_entry(&mut es, "tip_text", str_json(str_or_empty(fld(fld(p, "tip"), "tip"))));
        assert(entries_view(es@) =~= tip_content(payload@)->Object_0);
        Ok(MessageSegment::CustomNode { desc: crate::text::owned("系统提示"), content: object(es) })
    } else if ct == 26 {
        let main = fld(fld(fld(p, "dxCard"), "item"), "main");
        let ex = fld(main, "exContent");
        let button = fld(fld(p, "dxCard"), "button");
        let target_url = str_or_empty(fld(button, "targetUrl"));
        proof {
            reveal_strlit("id=");
        }
        let order_id = match split_second(target_url, "id=") {
            Some(t) => t,
            None => String::new(),
        };
        let mut es: Vec<(String, Json)> = Vec::new();
        push_entry(&mut es, "fish_type", str_json("fish_trade_card"));
        push_entry(&mut es, "title", str_json(str_or_empty(fld(ex, "title"))));
        push_entry(&mut es, "content", str_json(str_or_empty(fld(ex, "desc"))));
        push_entry(&mut es, "order_id", str_json(order_id.as_str()));
        push_entry(&mut es, "button_text", str_json(str_or_empty(fld(button, "text"))));
        push_entry(
            &mut es,
            "task_id",
            str_json(str_or_empty(fld(fld(fld(main, "clickParam"), "args"), "task_id"))),
        );
        assert(entries_view(es@) =~= trade_card_content(payload@)->Object_0);
        Ok(MessageSegment::CustomNode { desc: crate::text::owned("交易卡片"), content: object(es) })
    } else if ct == 101 {
        let data = str_or_empty(fld(fld(p, "custom"), "data"));
        let decoded = match base64_decode(data.as_bytes()) {
            Ok(b) => b,
            Err(source) => {
                return Err(AppError::Base64 { source });
            },
        };
        match json_from_bytes(decoded.as_slice()) {
            Ok(v) => Ok(MessageSegment::CustomNode { desc: String::new(), content: v }),
            Err(source) => Err(AppError::Json { source }),
        }
    } else {
        Ok(MessageSegment::CustomNode {
            desc: crate::text::owned("未知消息"),
            content: object(Vec::new()),
        })
    }
}

/// Once a prefix fails to decode, the whole sequence fails the same way.
proof fn lemma_decode_all_failure(s: Seq<JsonView>, k: int)
    requires
        0 <= k <= s.len(),
        !(decode_all(s.subrange(0, k)) is Value),
    ensures
        decode_all(s) == decode_all(s.subrange(0, k)),
    decreases s.len(),
{
    if k == s.len() {
        assert(s.subrange(0, k) =~= s);
    } else {
        assert(s.drop_last().subrange(0, k) =~= s.subrange(0, k));
        lemma_decode_all_failure(s.drop_last(), k);
    }
}

/// Decodes a message body: one segment for an object with a content type, one per element
/// for an array, else one segment.
pub fn decode_content(payload: &Json) -> (r: Result<Vec<MessageSegment>, AppError>)
    ensures
        match r {
            Ok(v) => decode_content_spec(payload@) == Decoded::Value(v@.map_values(|s: MessageSegment| s@)),
            Err(e) => failure_matches(decode_content_spec(payload@), e),
        },
{
    let has_ct = payload.get("contentType").is_some();
    let arr = payload.as_array();
    if has_ct || arr.is_none() {
        let seg = decode_message(payload)?;
        let mut out: Vec<MessageSegment> = Vec::new();
        out.push(seg);
        assert(out@.map_values(|s: MessageSegment| s@) =~= seq![out@[0]@]);
        return Ok(out);
    }
    let items = arr.unwrap();
    proof {
        lemma_list_view(items@);
    }
    let mut out: Vec<MessageSegment> = Vec::new();
    let mut i: usize = 0;
    assert(list_view(items@).subrange(0, 0) =~= Seq::<JsonView>::empty());
    assert(out@.map_values(|s: MessageSegment| s@) =~= Seq::<SegmentView>::empty());
    while i < items.len()
        invariant
            i <= items.len(),
            payload@ == JsonView::Array(list_view(items@)),
            list_view(items@).len() == items@.len(),
            forall|j: int| 0 <= j < items@.len() ==> #[trigger] list_view(items@)[j] == items@[j]@,
            decode_all(list_view(items@).subrange(0, i as int)) == Decoded::Value(
                out@.map_values(|s: MessageSegment| s@),
            ),
        decreases items.len() - i,
    {
        let ghost done = list_view(items@).subrange(0, i as int);
        let ghost next = list_view(items@).subrange(0, i + 1);
        assert(next.drop_last() =~= done);
        let seg = match decode_message(&items[i]) {
            Ok(seg) => seg,
            Err(e) => {
                proof {
                    lemma_decode_all_failure(list_view(items@), i + 1);
                    assert(list_view(items@).subrange(0, i + 1).last() == items@[i as int]@);
                }
                return Err(e);
            },
        };
        out.push(seg);
        assert(out@.map_values(|s: MessageSegment| s@) =~= decode_all(done)->Value_0.push(seg@));
        i += 1;
    }
    assert(list_view(items@).subrange(0, items.len() as int) =~= list_view(items@));
    Ok(out)
}

/// An object of JSON entries.
pub open spec fn obj(es: Seq<(Seq<char>, JsonView)>) -> JsonView {
    JsonView::Object(es)
}

/// The custom payload (content type 101) that carries `v` as Base64 of its JSON text;
/// `None` where the value cannot be rendered.
pub open spec fn custom_payload(v: JsonView) -> Option<JsonView> {
    match json_encoding(v) {
        None => None,
        Some(text) => Some(
            obj(
                seq![
                    ("contentType"@, JsonView::PosInt(101)),
                    ("custom"@, obj(
                        seq![
                            ("type"@, JsonView::PosInt(2)),
                            ("data"@, JsonView::Str(base64_encoding(encode_utf8(text)))),
                        ],
                    )),
                ],
            ),
        ),
    }
}

/// The elements that a custom node's content carries: its elements if it is an array, else none.
pub open spec fn node_items(c: JsonView) -> Seq<JsonView> {
    match c {
        JsonView::Array(items) => items,
        _ => Seq::empty(),
    }
}

/// The payload and send type of one segment (`None` where its JSON cannot be rendered).
pub open spec fn encode_message_spec(s: SegmentView) -> Option<(JsonView, int)> {
    match s {
        SegmentView::Text(t) => Some(
            (
                obj(
                    seq![
                        ("contentType"@, JsonView::PosInt(1)),
                        ("text"@, obj(seq![("text"@, JsonView::Str(t))])),
                    ],
                ),
                1,
            ),
        ),
        SegmentView::Image(u, w, h) => Some(
            (
                obj(
                    seq![
                        ("contentType"@, JsonView::PosInt(2)),
                        ("image"@, obj(
                            seq![
                                ("pics"@, JsonView::Array(
                                    seq![
                                        obj(
                                            seq![
                                                ("type"@, JsonView::PosInt(0)),
                                                ("url"@, JsonView::Str(u)),
                                                ("width"@, JsonView::PosInt(w)),
                                                ("height"@, JsonView::PosInt(h)),
                                            ],
                                        ),
                                    ],
                                )),
                            ],
                        )),
                    ],
                ),
                2,
            ),
        ),
        SegmentView::Audio(u, d) => Some(
            (
                obj(
                    seq![
                        ("contentType"@, JsonView::PosInt(3)),
                        ("audio"@, obj(
                            seq![("url"@, JsonView::Str(u)), ("duration"@, JsonView::PosInt(d))],
                        )),
                    ],
                ),
                2,
            ),
        ),
        SegmentView::CustomNode(_, c) => match custom_payload(JsonView::Array(node_items(c))) {
            Some(p) => Some((p, 2)),
            None => None,
        },
    }
}

/// How a segment is listed inside a multi-segment payload.
pub open spec fn chain_item(s: SegmentView) -> JsonView {
    match s {
        SegmentView::Text(t) => obj(seq![("type"@, str_v("text"@)), ("text"@, JsonView::Str(t))]),
        SegmentView::Image(u, _, _) => obj(
            seq![("type"@, str_v("image"@)), ("image_url"@, JsonView::Str(u))],
        ),
        SegmentView::Audio(u, _) => obj(
            seq![("type"@, str_v("audio"@)), ("audio_url"@, JsonView::Str(u))],
        ),
        SegmentView::CustomNode(d, c) => obj(
            seq![("type"@, str_v("node"@)), ("desc"@, JsonView::Str(d)), ("content"@, c)],
        ),
    }
}

/// The payload and send type of a whole chain: a single segment as itself, anything else
/// as one custom payload that lists every segment.
pub open spec fn encode_chain_spec(segs: Seq<SegmentView>) -> Option<(JsonView, int)> {
    if segs.len() == 1 {
        encode_message_spec(segs[0])
    } else {
        match custom_payload(JsonView::Array(segs.map_values(|s: SegmentView| chain_item(s)))) {
            Some(p) => Some((p, 2)),
            None => None,
        }
    }
}

/// `j` lists the segment `s` in a multi-segment payload: its `type`, and the segment's text,
/// image URL, audio URL, or description and content.
pub open spec fn lists_segment(j: JsonView, s: SegmentView) -> bool {
    match s {
        SegmentView::Text(t) => j.field("type"@) == JsonView::Str("text"@) && j.field("text"@)
            == JsonView::Str(t),
        SegmentView::Image(u, _, _) => j.field("type"@) == JsonView::Str("image"@) && j.field(
            "image_url"@,
        ) == JsonView::Str(u),
        SegmentView::Audio(u, _) => j.field("type"@) == JsonView::Str("audio"@) && j.field(
            "audio_url"@,
        ) == JsonView::Str(u),
        SegmentView::CustomNode(d, c) => j.field("type"@) == JsonView::Str("node"@) && j.field(
            "desc"@,
        ) == JsonView::Str(d) && j.field("content"@) == c,
    }
}

/// A chain of other than one segment is sent as one custom payload (send type 2) of a list
/// with one item per segment, in order, each carrying that segment's text, URL, or
/// description and content.
pub proof fn lemma_chain_lists_every_segment(segs: Seq<SegmentView>)
    requires
        segs.len() != 1,
    ensures
        exists|items: Seq<JsonView>|
            #![trigger custom_payload(JsonView::Array(items))]
            items.len() == segs.len() && (forall|i: int|
                0 <= i < segs.len() ==> lists_segment(#[trigger] items[i], segs[i]))
                && encode_chain_spec(segs) == match custom_payload(JsonView::Array(items)) {
                Some(p) => Some((p, 2int)),
                None => None::<(JsonView, int)>,
            },
{
    let items = segs.map_values(|s: SegmentView| chain_item(s));
    reveal_strlit("type");
    reveal_strlit("text");
    reveal_strlit("image_url");
    reveal_strlit("audio_url");
    reveal_strlit("desc");
    reveal_strlit("content");
    assert("type"@.len() == 4 && "text"@.len() == 4 && "image_url"@.len() == 9);
    assert("audio_url"@.len() == 9 && "desc"@.len() == 4 && "content"@.len() == 7);
    assert("type"@ != "text"@) by {
        assert("type"@[1] != "text"@[1]);
    }
    assert("type"@ != "desc"@) by {
        assert("type"@[0] != "desc"@[0]);
    }
    assert forall|i: int| 0 <= i < segs.len() implies lists_segment(#[trigger] items[i], segs[i]) by {
        let es = items[i]->Object_0;
        match segs[i] {
            SegmentView::Text(t) => {
                lemma_lookup_at(es, "type"@, 0);
                lemma_lookup_at(es, "text"@, 1);
            },
            SegmentView::Image(u, _, _) => {
                lemma_lookup_at(es, "type"@, 0);
                lemma_lookup_at(es, "image_url"@, 1);
            },
            SegmentView::Audio(u, _) => {
                lemma_lookup_at(es, "type"@, 0);
                lemma_lookup_at(es, "audio_url"@, 1);
            },
            SegmentView::CustomNode(d, c) => {
                lemma_lookup_at(es, "type"@, 0);
                lemma_lookup_at(es, "desc"@, 1);
                lemma_lookup_at(es, "content"@, 2);
            },
        }
    }
    assert(custom_payload(JsonView::Array(items)) == custom_payload(JsonView::Array(items)));
}

/// The custom payload for `v`, or the JSON error that rendering it gave.
fn custom_payload_of(v: &Json) -> (r: Result<Json, AppError>)
    ensures
        match r {
            Ok(j) => custom_payload(v@) == Some(j@),
            Err(e) => custom_payload(v@) is None && e is Json,
        },
{
    let text = match json_to_text(v) {
        Ok(t) => t,
        Err(source) => {
            return Err(AppError::Json { source });
        },
    };
    let data = base64_encode(text.as_str().as_bytes());
    assert(data@ == base64_encoding(encode_utf8(text@)));
    let mut inner: Vec<(String, Json)> = Vec::new();
    push_entry(&mut inner, "type", Json::PosInt(2));
    push_entry(&mut inner, "data", Json::Str(data));
    assert(entries_view(inner@) =~= seq![
        ("type"@, JsonView::PosInt(2)),
        ("data"@, JsonView::Str(base64_encoding(encode_utf8(text@)))),
    ]);
    let mut es: Vec<(String, Json)> = Vec::new();
    push_entry(&mut es, "contentType", Json::PosInt(101));
    push_entry(&mut es, "custom", object(inner));
    assert(entries_view(es@) =~= custom_payload(v@)->Some_0->Object_0);
    Ok(object(es))
}

/// Encodes one segment for sending: its payload and its send type.
pub fn encode_message(msg: &MessageSegment) -> (r: Result<(Json, i64), AppError>)
    ensures
        match r {
            Ok((j, ct)) => encode_message_spec(msg@) == Some((j@, ct as int)),
            Err(e) => encode_message_spec(msg@) is None && e is Json,
        },
{
    match msg {
        MessageSegment::Text { text } => {
            let mut inner: Vec<(String, Json)> = Vec::new();
            push_entry(&mut inner, "text", Json::Str(text.clone()));
            assert(entries_view(inner@) =~= seq![("text"@, JsonView::Str(text@))]);
            let mut es: Vec<(String, Json)> = Vec::new();
            push_entry(&mut es, "contentType", Json::PosInt(1));
            push_entry(&mut es, "text", object(inner));
            assert(entries_view(es@) =~= encode_message_spec(msg@)->Some_0.0->Object_0);
            Ok((object(es), 1))
        },
        MessageSegment::Image { image_url, width, height } => {
            let mut pic: Vec<(String, Json)> = Vec::new();
            push_entry(&mut pic, "type", Json::PosInt(0));
            push_entry(&mut pic, "url", Json::Str(image_url.clone()));
            push_entry(&mut pic, "width", Json::PosInt(*width as u64));
            push_entry(&mut pic, "height", Json::PosInt(*height as u64));
            assert(entries_view(pic@) =~= seq![
                ("type"@, JsonView::PosInt(0)),
                ("url"@, JsonView::Str(image_url@)),
                ("width"@, JsonView::PosInt(*width as nat)),
                ("height"@, JsonView::PosInt(*height as nat)),
            ]);
            let mut pics: Vec<Json> = Vec::new();
            pics.push(object(pic));
            proof {
                lemma_list_view(pics@);
                assert(list_view(pics@) =~= seq![pics@[0]@]);
            }
            let mut image: Vec<(String, Json)> = Vec::new();
            push_entry(&mut image, "pics", Json::Array(pics));
            assert(entries_view(image@) =~= seq![("pics"@, JsonView::Array(seq![pics@[0]@]))]);
            let mut es: Vec<(String, Json)> = Vec::new();
            push_entry(&mut es, "contentType", Json::PosInt(2));
            push_entry(&mut es, "image", object(image));
            assert(entries_view(es@) =~= encode_message_spec(msg@)->Some_0.0->Object_0);
            Ok((object(es), 2))
        },
        MessageSegment::Audio { audio_url, duration_ms } => {
            let mut inner: Vec<(String, Json)> = Vec::new();
            push_entry(&mut inner, "url", Json::Str(audio_url.clone()));
            push_entry(&mut inner, "duration", Json::PosInt(*duration_ms));
            assert(entries_view(inner@) =~= seq![
                ("url"@, JsonView::Str(audio_url@)),
                ("duration"@, JsonView::PosInt(*duration_ms as nat)),
            ]);
            let mut es: Vec<(String, Json)> = Vec::new();
            push_entry(&mut es, "contentType", Json::PosInt(3));
            push_entry(&mut es, "audio", object(inner));
            assert(entries_view(es@) =~= encode_message_spec(msg@)->Some_0.0->Object_0);
            Ok((object(es), 2))
        },
        MessageSegment::CustomNode { content, .. } => {
            let items = match content {
                Json::Array(_) => content.duplicate(),
                _ => Json::Array(Vec::new()),
            };
            assert(items@ == JsonView::Array(node_items(content@)));
            let p = custom_payload_of(&items)?;
            Ok((p, 2))
        },
    }
}

/// How one segment is listed inside a multi-segment payload.
fn chain_item_of(seg: &MessageSegment) -> (r: Json)
    ensures
        r@ == chain_item(seg@),
{
    let mut es: Vec<(String, Json)> = Vec::new();
    match seg {
        MessageSegment::Text { text } => {
            push_entry(&mut es, "type", str_json("text"));
            push_entry(&mut es, "text", Json::Str(text.clone()));
        },
        MessageSegment::Image { image_url, .. } => {
            push_entry(&mut es, "type", str_json("image"));
            push_entry(&mut es, "image_url", Json::Str(image_url.clone()));
        },
        MessageSegment::Audio { audio_url, .. } => {
            push_entry(&mut es, "type", str_json("audio"));
            push_entry(&mut es, "audio_url", Json::Str(audio_url.clone()));
        },
        MessageSegment::CustomNode { desc, content } => {
            push_entry(&mut es, "type", str_json("node"));
            push_entry(&mut es, "desc", Json::Str(desc.clone()));
            push_entry(&mut es, "content", content.duplicate());
        },
    }
    assert(entries_view(es@) =~= chain_item(seg@)->Object_0);
    object(es)
}

/// Encodes a whole chain for sending: a single segment as itself, several as one custom payload.
pub fn encode_chain(chain: &[MessageSegment]) -> (r: Result<(Json, i64), AppError>)
    ensures
        match r {
            Ok((j, ct)) => encode_chain_spec(chain@.map_values(|s: MessageSegment| s@)) == Some(
                (j@, ct as int),
            ),
            Err(e) => encode_chain_spec(chain@.map_values(|s: MessageSegment| s@)) is None && e is Json,
        },
{
    let ghost segs = chain@.map_values(|s: MessageSegment| s@);
    if chain.len() == 1 {
        return encode_message(&chain[0]);
    }
    let mut items: Vec<Json> = Vec::new();
    let mut i: usize = 0;
    while i < chain.len()
        invariant
            i <= chain.len(),
            segs == chain@.map_values(|s: MessageSegment| s@),
            items@.len() == i,
            forall|j: int| 0 <= j < i ==> (#[trigger] items@[j])@ == chain_item(segs[j]),
        decreases chain.len() - i,
    {
        let it = chain_item_of(&chain[i]);
        items.push(it);
        i += 1;
    }
    proof {
        lemma_list_view(items@);
        assert(list_view(items@) =~= segs.map_values(|s: SegmentView| chain_item(s)));
    }
    let p = custom_payload_of(&Json::Array(items))?;
    Ok((p, 2))
}

/// Whether a segment value is one that `MessageSegment` can hold: image sizes fit in
/// 32 bits and audio durations in 64 bits.
pub open spec fn segment_fits(s: SegmentView) -> bool {
    match s {
        SegmentView::Image(_, w, h) => w < 0x1_0000_0000 && h < 0x1_0000_0000,
        SegmentView::Audio(_, d) => d < 0x1_0000_0000_0000_0000,
        _ => true,
    }
}

proof fn lemma_lookup_front(es: Seq<(Seq<char>, JsonView)>, key: Seq<char>)
    requires
        es.len() > 0,
    ensures
        lookup(es, key) == if es[0].0 == key {
            Some(es[0].1)
        } else {
            lookup(es.drop_first(), key)
        },
{
}

/// Encoding a text, image or audio segment and decoding the payload gives the segment back.
pub proof fn lemma_encode_decode_roundtrip(s: SegmentView)
    requires
        !(s is CustomNode),
        segment_fits(s),
    ensures
        encode_message_spec(s) matches Some((p, _)) && decode_message_spec(p) == Decoded::Value(s),
{
    reveal_strlit("contentType");
    reveal_strlit("text");
    reveal_strlit("image");
    reveal_strlit("pics");
    reveal_strlit("type");
    reveal_strlit("url");
    reveal_strlit("width");
    reveal_strlit("height");
    reveal_strlit("audio");
    reveal_strlit("duration");
    assert("contentType"@.len() == 11);
    assert("text"@.len() == 4);
    assert("image"@.len() == 5);
    assert("pics"@.len() == 4);
    assert("type"@.len() == 4);
    assert("url"@.len() == 3);
    assert("width"@.len() == 5);
    assert("height"@.len() == 6);
    assert("audio"@.len() == 5);
    assert("duration"@.len() == 8);
    let p = encode_message_spec(s)->Some_0.0;
    let es = p->Object_0;
    lemma_lookup_front(es, "contentType"@);
    assert(es.drop_first()[0] == es[1]);
    lemma_lookup_front(es.drop_first(), es[1].0);
    lemma_lookup_front(es, es[1].0);
    match s {
        SegmentView::Text(t) => {
            assert(p.field("text"@) == es[1].1);
            let inner = es[1].1->Object_0;
            lemma_lookup_front(inner, "text"@);
        },
        SegmentView::Image(u, w, h) => {
            assert(p.field("image"@) == es[1].1);
            let image = es[1].1->Object_0;
            lemma_lookup_front(image, "pics"@);
            let pic = image[0].1->Array_0[0]->Object_0;
            let d1 = pic.drop_first();
            let d2 = d1.drop_first();
            let d3 = d2.drop_first();
            assert(d1[0] == pic[1]);
            assert(d2[0] == pic[2]);
            assert(d3[0] == pic[3]);
            lemma_lookup_front(pic, "url"@);
            lemma_lookup_front(d1, "url"@);
            lemma_lookup_front(pic, "width"@);
            lemma_lookup_front(d1, "width"@);
            lemma_lookup_front(d2, "width"@);
            lemma_lookup_front(pic, "height"@);
            lemma_lookup_front(d1, "height"@);
            lemma_lookup_front(d2, "height"@);
            lemma_lookup_front(d3, "height"@);
        },
        SegmentView::Audio(u, d) => {
            assert(p.field("audio"@) == es[1].1);
            let audio = es[1].1->Object_0;
            assert(audio.drop_first()[0] == audio[1]);
            lemma_lookup_front(audio, "url"@);
            lemma_lookup_front(audio, "duration"@);
            lemma_lookup_front(audio.drop_first(), "duration"@);
        },
        _ => {},
    }
}

} // verus!
