//! The fish HTTP API: how requests are built and what the replies are read as.
use vstd::prelude::*;
use vstd::utf8::encode_utf8;

use crate::codec::{json_decoding, json_encoding, json_from_bytes, json_to_text};
use crate::cookies::{
    char_index, lemma_key_index, pairs_view, upsert, upsert_all, upsert_entry, value_of, CookieJar,
};
use crate::adapter::opt_text;
use crate::error::AppError;
use crate::json::{
    entries_view, first_of, get_in, lookup, object, opt_get, opt_str, push_entry, str_in, Json,
    JsonView,
};
use crate::sign::{generate_sign, sign_spec, epoch_ms};
use crate::text::{
    before_char, chars_of, contains, contains_seq, decimal, decimal_u128, decimal_u64, find_chars,
    find_from, hex_upper, hex_upper_digit, lemma_find_from_occurs, owned, push_str, split_first,
    str_eq, string_of_range,
};

verus! {

/// A holder of the HTTP client that the API calls go through.
pub trait ClientProvider: Send + Sync {
    type Client: Clone + Send + Sync + 'static;

    /// A handle to the client.
    fn client(&self) -> Self::Client;

    /// The client itself.
    fn client_ref(&self) -> &Self::Client;
}

/// Bytes that a form body keeps as they are: ASCII letters, digits and `-_.~`.
pub open spec fn unreserved(b: u8) -> bool {
    (65 <= b <= 90) || (97 <= b <= 122) || (48 <= b <= 57) || b == 45 || b == 95 || b == 46 || b == 126
}

/// How one byte is written in a form body.
pub open spec fn pct_byte(b: u8) -> Seq<char> {
    if unreserved(b) {
        seq![b as char]
    } else if b == 32 {
        seq!['%', '2', '0']
    } else {
        seq!['%', hex_upper((b / 16) as nat), hex_upper((b % 16) as nat)]
    }
}

/// The percent-encoding of bytes, byte by byte.
pub open spec fn pct_bytes(bs: Seq<u8>) -> Seq<char>
    decreases bs.len(),
{
    if bs.len() == 0 {
        Seq::empty()
    } else {
        pct_bytes(bs.drop_last()) + pct_byte(bs.last())
    }
}

/// Encodes text for a form body: unreserved bytes kept, spaces as `%20`, every other byte of
/// its UTF-8 as `%XX` in upper-case hex.
pub fn percent_encode(input: &str) -> (r: String)
    ensures
        r@ == pct_bytes(encode_utf8(input@)),
{
    let bytes = input.as_bytes();
    let mut out = String::new();
    let mut i: usize = 0;
    while i < bytes.len()
        invariant
            i <= bytes.len(),
            bytes@ == encode_utf8(input@),
            out@ == pct_bytes(bytes@.take(i as int)),
        decreases bytes.len() - i,
    {
        let b = bytes[i];
        assert(bytes@.take(i + 1).drop_last() =~= bytes@.take(i as int));
        if (65 <= b && b <= 90) || (97 <= b && b <= 122) || (48 <= b && b <= 57) || b == 45 || b
            == 95 || b == 46 || b == 126 {
            out.push(b as char);
        } else if b == 32 {
            out.push('%');
            out.push('2');
            out.push('0');
        } else {
            out.push('%');
            out.push(hex_upper_digit(b / 16));
            out.push(hex_upper_digit(b % 16));
        }
        i += 1;
    }
    assert(bytes@.take(bytes.len() as int) =~= bytes@);
    out
}

/// How many bytes a form body writes as a three-character escape.
pub open spec fn escaped_count(bs: Seq<u8>) -> nat
    decreases bs.len(),
{
    if bs.len() == 0 {
        0
    } else {
        escaped_count(bs.drop_last()) + if unreserved(bs.last()) { 0nat } else { 1nat }
    }
}

/// The characters a form body is written in: ASCII letters, digits, `-_.~` and `%`.
pub open spec fn form_char(c: char) -> bool {
    ('A' <= c <= 'Z') || ('a' <= c <= 'z') || ('0' <= c <= '9') || c == '-' || c == '_' || c
        == '.' || c == '~' || c == '%'
}

/// Percent-encoding keeps each unreserved byte as one character and writes every other byte
/// as three; the result holds only form characters, and a `%` starts each escape followed by
/// two upper-case hex digits.
pub proof fn lemma_pct_bytes_shape(bs: Seq<u8>)
    ensures
        pct_bytes(bs).len() == bs.len() + 2 * escaped_count(bs),
        forall|i: int| 0 <= i < pct_bytes(bs).len() ==> form_char(#[trigger] pct_bytes(bs)[i]),
        (pct_bytes(bs) == bs.map_values(|b: u8| b as char)) <== (escaped_count(bs) == 0),
    decreases bs.len(),
{
    if bs.len() > 0 {
        let init = bs.drop_last();
        let b = bs.last();
        lemma_pct_bytes_shape(init);
        let p = pct_byte(b);
        assert(b / 16 < 16) by (nonlinear_arith)
            requires b < 256u16;
        assert(form_char(hex_upper((b / 16) as nat)));
        assert(form_char(hex_upper((b % 16) as nat)));
        assert(unreserved(b) ==> form_char(b as char));
        assert forall|i: int| 0 <= i < p.len() implies form_char(#[trigger] p[i]) by {}
        assert forall|i: int| 0 <= i < pct_bytes(bs).len() implies form_char(
            #[trigger] pct_bytes(bs)[i],
        ) by {
            if i >= pct_bytes(init).len() {
                assert(pct_bytes(bs)[i] == p[i - pct_bytes(init).len()]);
            } else {
                assert(pct_bytes(bs)[i] == pct_bytes(init)[i]);
            }
        }
        if escaped_count(bs) == 0 {
            assert(bs.map_values(|c: u8| c as char) =~= init.map_values(|c: u8| c as char).push(
                b as char,
            ));
        }
    } else {
        assert(bs.map_values(|c: u8| c as char) =~= Seq::<char>::empty());
    }
}

/// The value of an upper-case hex digit.
pub open spec fn hex_value(c: char) -> int {
    if '0' <= c <= '9' {
        c as int - '0' as int
    } else {
        c as int - 'A' as int + 10
    }
}

/// Percent-decoding: `%XY` stands for the byte of hex value `XY`, any other character for its
/// own code.
pub open spec fn pct_decode(cs: Seq<char>) -> Seq<u8>
    decreases cs.len(),
{
    if cs.len() == 0 {
        Seq::empty()
    } else if cs[0] == '%' && cs.len() >= 3 {
        seq![(hex_value(cs[1]) * 16 + hex_value(cs[2])) as u8] + pct_decode(cs.subrange(3, cs.len() as int))
    } else {
        seq![cs[0] as u8] + pct_decode(cs.drop_first())
    }
}

proof fn lemma_pct_bytes_front(b: u8, rest: Seq<u8>)
    ensures
        pct_bytes(seq![b] + rest) == pct_byte(b) + pct_bytes(rest),
    decreases rest.len(),
{
    let s = seq![b] + rest;
    if rest.len() == 0 {
        assert(s.drop_last() =~= Seq::<u8>::empty());
        assert(s.last() == b);
        assert(pct_bytes(s.drop_last()) == Seq::<char>::empty());
        assert(pct_bytes(rest) == Seq::<char>::empty());
        assert(pct_byte(b) + Seq::<char>::empty() =~= pct_byte(b));
        assert(Seq::<char>::empty() + pct_byte(b) =~= pct_byte(b));
    } else {
        lemma_pct_bytes_front(b, rest.drop_last());
        assert(s.drop_last() =~= seq![b] + rest.drop_last());
        assert(s.last() == rest.last());
        assert(pct_bytes(s) =~= pct_byte(b) + pct_bytes(rest));
    }
}

proof fn lemma_hex_value(d: nat)
    requires
        d < 16,
    ensures
        hex_value(hex_upper(d)) == d,
        hex_upper(d) != '%',
{
}

proof fn lemma_decode_unit(b: u8, rest: Seq<char>)
    ensures
        pct_decode(pct_byte(b) + rest) == seq![b] + pct_decode(rest),
{
    let u = pct_byte(b);
    let s = u + rest;
    if unreserved(b) {
        assert(s[0] == b as char);
        assert(s.drop_first() =~= rest);
        assert((b as char) as u8 == b);
    } else if b == 32 {
        assert(s.subrange(3, s.len() as int) =~= rest);
        assert(s[1] == '2' && s[2] == '0');
    } else {
        let hi = (b / 16) as nat;
        let lo = (b % 16) as nat;
        lemma_hex_value(hi);
        lemma_hex_value(lo);
        assert(s.subrange(3, s.len() as int) =~= rest);
        assert(s[1] == hex_upper(hi) && s[2] == hex_upper(lo));
        assert(hi * 16 + lo == b);
    }
}

/// Percent-decoding the encoding of bytes gives the bytes back.
pub proof fn lemma_pct_roundtrip(bs: Seq<u8>)
    ensures
        pct_decode(pct_bytes(bs)) == bs,
    decreases bs.len(),
{
    if bs.len() > 0 {
        let rest = bs.drop_first();
        assert(bs =~= seq![bs[0]] + rest);
        lemma_pct_bytes_front(bs[0], rest);
        lemma_decode_unit(bs[0], pct_bytes(rest));
        lemma_pct_roundtrip(rest);
    }
}

/// The text that `str::to_lowercase` gives.
pub uninterp spec fn lowercase_text(s: Seq<char>) -> Seq<char>;

/// `str::to_lowercase`: the result is the named lower-case form of the text.
#[verifier::external_body]
fn to_lowercase(s: &str) -> (r: String)
    ensures
        r@ == lowercase_text(s@),
{
    s.to_lowercase()
}

/// The text that an MTOP call sends as its data: `{}` for null, a non-object or an empty
/// object, else the JSON text of the value (`None` where it cannot be rendered).
pub open spec fn data_text(d: JsonView) -> Option<Seq<char>> {
    match d {
        JsonView::Object(es) => if es.len() == 0 {
            Some("{}"@)
        } else {
            json_encoding(d)
        },
        _ => Some("{}"@),
    }
}

/// The token that signs requests: the `_m_h5_tk` cookie up to its first `_`.
pub open spec fn token_of(h5_tk: Option<Seq<char>>) -> Seq<char> {
    match h5_tk {
        Some(t) => before_char(t, '_'),
        None => Seq::empty(),
    }
}

/// The signature of a request: empty without a token.
pub open spec fn request_sign(t: Seq<char>, token: Seq<char>, data: Seq<char>) -> Seq<char> {
    if token.len() > 0 && data.len() > 0 {
        sign_spec(t, token, data)
    } else {
        Seq::empty()
    }
}

/// The query parameters of an MTOP call before the caller's own.
pub open spec fn base_params(
    t: Seq<char>,
    sign: Seq<char>,
    version: Seq<char>,
    api: Seq<char>,
) -> Seq<(Seq<char>, Seq<char>)> {
    seq![
        ("jsv"@, "2.7.2"@),
        ("appKey"@, "34839810"@),
        ("t"@, t),
        ("sign"@, sign),
        ("v"@, version),
        ("type"@, "originaljson"@),
        ("dataType"@, "json"@),
        ("api"@, api),
        ("timeout"@, "20000"@),
        ("sessionOption"@, "AutoLoginOnly"@),
    ]
}

/// An MTOP request ready to be posted: its URL, its query parameters (no name twice) and
/// its form body.
#[derive(Debug)]
pub struct MtopRequest {
    pub url: String,
    pub params: Vec<(String, String)>,
    pub body: String,
}

/// The request for an MTOP call at time `t_ms`, signed with the token from the `_m_h5_tk`
/// cookie; the caller's parameters replace base ones of the same name.
pub open spec fn mtop_request_spec(
    api: Seq<char>,
    version: Seq<char>,
    data: JsonView,
    h5_tk: Option<Seq<char>>,
    t_ms: nat,
    extra: Seq<(Seq<char>, Seq<char>)>,
) -> Option<(Seq<char>, Seq<(Seq<char>, Seq<char>)>, Seq<char>)> {
    match data_text(data) {
        None => None,
        Some(dv) => {
            let t = decimal(t_ms);
            let sign = request_sign(t, token_of(h5_tk), dv);
            Some(
                (
                    "https://h5api.m.goofish.com/h5/"@ + lowercase_text(api) + "/"@ + version,
                    upsert_all(base_params(t, sign, version, api), extra),
                    "data="@ + pct_bytes(encode_utf8(dv)),
                ),
            )
        },
    }
}

fn pair(k: &str, v: &str) -> (r: (String, String))
    ensures
        r.0@ == k@,
        r.1@ == v@,
{
    (owned(k), owned(v))
}

/// Builds the request of an MTOP call at time `t_ms`; `h5_tk` is the `_m_h5_tk` cookie.
pub fn mtop_request(
    api: &str,
    version: &str,
    data: &Json,
    h5_tk: Option<&str>,
    t_ms: u128,
    extra: &Vec<(String, String)>,
) -> (r: Result<MtopRequest, AppError>)
    ensures
        match r {
            Ok(req) => mtop_request_spec(
                api@,
                version@,
                data@,
                opt_text(h5_tk),
                t_ms as nat,
                pairs_view(extra@),
            ) == Some((req.url@, pairs_view(req.params@), req.body@)),
            Err(e) => data_text(data@) is None && e is Json,
        },
{
    let data_val = match data {
        Json::Object(es) => {
            proof {
                crate::json::lemma_entries_view(es@);
            }
            if es.len() == 0 {
                owned("{}")
            } else {
                match json_to_text(data) {
                    Ok(t) => t,
                    Err(source) => {
                        return Err(AppError::Json { source });
                    },
                }
            }
        },
        _ => owned("{}"),
    };
    let t_str = decimal_u128(t_ms);
    let token = match h5_tk {
        Some(tk) => split_first(tk, '_'),
        None => String::new(),
    };
    let sign = if token.as_str().unicode_len() > 0 && data_val.as_str().unicode_len() > 0 {
        match generate_sign(t_str.as_str(), token.as_str(), data_val.as_str()) {
            Ok(s) => s,
            Err(_) => String::new(),
        }
    } else {
        String::new()
    };
    let mut params: Vec<(String, String)> = Vec::new();
    params.push(pair("jsv", "2.7.2"));
    params.push(pair("appKey", "34839810"));
    params.push(pair("t", t_str.as_str()));
    params.push(pair("sign", sign.as_str()));
    params.push(pair("v", version));
    params.push(pair("type", "originaljson"));
    params.push(pair("dataType", "json"));
    params.push(pair("api", api));
    params.push(pair("timeout", "20000"));
    params.push(pair("sessionOption", "AutoLoginOnly"));
    let ghost base = base_params(t_str@, sign@, version@, api@);
    assert(pairs_view(params@) =~= base);
    let ghost ex = pairs_view(extra@);
    let mut i: usize = 0;
    while i < extra.len()
        invariant
            i <= extra.len(),
            ex == pairs_view(extra@),
            pairs_view(params@) == upsert_all(base, ex.take(i as int)),
        decreases extra.len() - i,
    {
        assert(ex.take(i + 1).drop_last() =~= ex.take(i as int));
        assert(ex[i as int] == (extra@[i as int].0@, extra@[i as int].1@));
        upsert_entry(&mut params, extra[i].0.clone(), extra[i].1.clone());
        i += 1;
    }
    assert(ex.take(extra.len() as int) =~= ex);
    let mut url = owned("https://h5api.m.goofish.com/h5/");
    let lower = to_lowercase(api);
    push_str(&mut url, lower.as_str());
    push_str(&mut url, "/");
    push_str(&mut url, version);
    let mut body = owned("data=");
    let enc = percent_encode(data_val.as_str());
    push_str(&mut body, enc.as_str());
    Ok(MtopRequest { url, params, body })
}

/// Where the object that starts at `i` ends (one past its closing brace), counting braces
/// from `depth`; `None` where it never closes.
pub open spec fn brace_end(s: Seq<char>, i: int, depth: int) -> Option<int>
    decreases s.len() - i,
{
    if i < 0 || i >= s.len() {
        None
    } else {
        let d = if s[i] == '{' {
            depth + 1
        } else if s[i] == '}' {
            depth - 1
        } else {
            depth
        };
        if d == 0 {
            Some(i + 1)
        } else {
            brace_end(s, i + 1, d)
        }
    }
}

/// The text of the object assigned to `window.viewData` in a page: from the first `{` after
/// the marker to its matching `}` (empty where it never closes); `None` without marker or brace.
pub open spec fn view_data_text(html: Seq<char>) -> Option<Seq<char>> {
    match find_from(html, "window.viewData"@, 0) {
        None => None,
        Some(idx) => match char_index(html.subrange(idx, html.len() as int), '{') {
            None => None,
            Some(b) => {
                let start = idx + b;
                Some(
                    match brace_end(html, start, 0) {
                        Some(end) => html.subrange(start, end),
                        None => Seq::empty(),
                    },
                )
            },
        },
    }
}

/// The decimal text of a JSON integer.
pub open spec fn int_text(i: int) -> Seq<char> {
    if i < 0 {
        "-"@ + decimal((-i) as nat)
    } else {
        decimal(i as nat)
    }
}

/// A form value as text: strings as they are, booleans and numbers as written, null as
/// empty, arrays and objects as their JSON text.
pub open spec fn value_text(v: JsonView) -> Seq<char> {
    match v {
        JsonView::Str(s) => s,
        JsonView::Bool(b) => if b {
            "true"@
        } else {
            "false"@
        },
        JsonView::PosInt(n) => decimal(n),
        JsonView::NegInt(i) => int_text(i),
        JsonView::Float(t) => t,
        JsonView::Null => Seq::empty(),
        _ => match json_encoding(v) {
            Some(t) => t,
            None => Seq::empty(),
        },
    }
}

/// The login form in a page's `viewData`: `loginFormData`'s entries, each value as text
/// (a later entry of the same key replacing an earlier one); empty where it is not an object.
pub open spec fn login_form_of(view_data: JsonView) -> Seq<(Seq<char>, Seq<char>)> {
    match view_data.get("loginFormData"@) {
        Some(JsonView::Object(es)) => upsert_all(
            Seq::empty(),
            es.map_values(|e: (Seq<char>, JsonView)| (e.0, value_text(e.1))),
        ),
        _ => Seq::empty(),
    }
}

/// The login form that a login page carries in `viewData.loginFormData`, each value as text;
/// empty where the page has none.
pub open spec fn login_form_spec(html: Seq<char>) -> Seq<(Seq<char>, Seq<char>)> {
    match view_data_text(html) {
        None => Seq::empty(),
        Some(js) => match json_decoding(encode_utf8(js)) {
            None => Seq::empty(),
            Some(v) => login_form_of(v),
        },
    }
}

/// The parameters for QR generation: the page's login form with `umidTag=SERVER`.
pub open spec fn login_params_spec(html: Seq<char>) -> Seq<(Seq<char>, Seq<char>)> {
    upsert(login_form_spec(html), "umidTag"@, "SERVER"@)
}

/// The decimal text of a JSON integer.
pub fn int_text_of(i: i64) -> (r: String)
    ensures
        r@ == int_text(i as int),
{
    if i < 0 {
        let mut out = owned("-");
        let mag = decimal_u128((-(i as i128)) as u128);
        push_str(&mut out, mag.as_str());
        out
    } else {
        decimal_u128(i as u128)
    }
}

/// A form value as text.
pub fn value_text_of(v: &Json) -> (r: String)
    ensures
        r@ == value_text(v@),
{
    match v {
        Json::Str(s) => s.clone(),
        Json::Bool(b) => if *b {
            owned("true")
        } else {
            owned("false")
        },
        Json::PosInt(n) => decimal_u64(*n),
        Json::NegInt(i) => int_text_of(*i),
        Json::Float(t) => t.clone(),
        Json::Null => String::new(),
        _ => match json_to_text(v) {
            Ok(t) => t,
            Err(_) => String::new(),
        },
    }
}

/// The `viewData` object text of a page.
pub fn view_data_of(html: &str) -> (r: Option<String>)
    ensures
        match r {
            Some(t) => view_data_text(html@) == Some(t@),
            None => view_data_text(html@) is None,
        },
{
    let cs = chars_of(html);
    let marker = chars_of("window.viewData");
    let idx = match find_chars(&cs, &marker, 0) {
        Some(i) => i,
        None => {
            return None;
        },
    };
    proof {
        lemma_find_from_occurs(cs@, marker@, 0);
    }
    let rest = chars_of(string_of_range(&cs, idx, cs.len()).as_str());
    let b = match crate::cookies::find_char(&rest, '{') {
        Some(b) => b,
        None => {
            return None;
        },
    };
    proof {
        crate::cookies::lemma_char_index_bound(rest@, '{');
    }
    let start = idx + b;
    let mut depth: i128 = 0;
    let mut i: usize = start;
    let mut end: Option<usize> = None;
    while i < cs.len()
        invariant_except_break
            start <= i <= cs.len(),
            -(i - start) <= depth <= i - start,
            end is None,
            brace_end(cs@, start as int, 0) == brace_end(cs@, i as int, depth as int),
        ensures
            match end {
                Some(e) => brace_end(cs@, start as int, 0) == Some(e as int) && start <= e <= cs.len(),
                None => brace_end(cs@, start as int, 0) is None,
            },
        decreases cs.len() - i,
    {
        let c = cs[i];
        if c == '{' {
            depth = depth + 1;
        } else if c == '}' {
            depth = depth - 1;
        }
        if depth == 0 {
            end = Some(i + 1);
            break;
        }
        i += 1;
    }
    let json_end = match end {
        Some(e) => e,
        None => start,
    };
    proof {
        assert(cs@.subrange(start as int, start as int) =~= Seq::<char>::empty());
    }
    Some(string_of_range(&cs, start, json_end))
}

/// The login form in a page's decoded `viewData`.
pub fn login_form_from_view_data(view_data: &Json) -> (r: Vec<(String, String)>)
    ensures
        pairs_view(r@) == login_form_of(view_data@),
{
    let mut out: Vec<(String, String)> = Vec::new();
    let ghost empty = pairs_view(out@);
    assert(empty =~= Seq::<(Seq<char>, Seq<char>)>::empty());
    match view_data.get("loginFormData") {
        Some(Json::Object(es)) => {
            proof {
                crate::json::lemma_entries_view(es@);
            }
            let ghost all = entries_view(es@).map_values(
                |e: (Seq<char>, JsonView)| (e.0, value_text(e.1)),
            );
            let mut i: usize = 0;
            while i < es.len()
                invariant
                    i <= es.len(),
                    all == entries_view(es@).map_values(
                        |e: (Seq<char>, JsonView)| (e.0, value_text(e.1)),
                    ),
                    entries_view(es@).len() == es@.len(),
                    forall|j: int|
                        0 <= j < es@.len() ==> #[trigger] entries_view(es@)[j] == (
                            es@[j].0@,
                            crate::json::view_of(es@[j].1),
                        ),
                    pairs_view(out@) == upsert_all(Seq::empty(), all.take(i as int)),
                decreases es.len() - i,
            {
                assert(all.take(i + 1).drop_last() =~= all.take(i as int));
                let v = value_text_of(&es[i].1);
                upsert_entry(&mut out, es[i].0.clone(), v);
                i += 1;
            }
            assert(all.take(es.len() as int) =~= all);
        },
        _ => {},
    }
    out
}

/// The QR-generation parameters from a login page: its login form and `umidTag=SERVER`.
pub fn login_params_from_html(html: &str) -> (r: Vec<(String, String)>)
    ensures
        pairs_view(r@) == login_params_spec(html@),
{
    let mut out: Vec<(String, String)> = Vec::new();
    proof {
        assert(pairs_view(out@) =~= Seq::<(Seq<char>, Seq<char>)>::empty());
    }
    if let Some(js) = view_data_of(html) {
        if let Ok(view_data) = json_from_bytes(js.as_str().as_bytes()) {
            out = login_form_from_view_data(&view_data);
        }
    }
    upsert_entry(&mut out, owned("umidTag"), owned("SERVER"));
    out
}

/// The parameters that the login page is first fetched with; `rnd` is a random number's text.
pub open spec fn initial_login_params_spec(rnd: Seq<char>) -> Seq<(Seq<char>, Seq<char>)> {
    seq![
        ("lang"@, "zh_cn"@),
        ("appName"@, "xianyu"@),
        ("appEntrance"@, "web"@),
        ("styleType"@, "vertical"@),
        ("bizParams"@, Seq::empty()),
        ("notLoadSsoView"@, "False"@),
        ("notKeepLogin"@, "False"@),
        ("isMobile"@, "False"@),
        ("qrCodeFirst"@, "False"@),
        ("stie"@, "77"@),
        ("rnd"@, rnd),
    ]
}

/// The parameters that the login page is first fetched with.
pub fn initial_login_params(rnd: &str) -> (r: Vec<(String, String)>)
    ensures
        pairs_view(r@) == initial_login_params_spec(rnd@),
{
    let mut out: Vec<(String, String)> = Vec::new();
    out.push(pair("lang", "zh_cn"));
    out.push(pair("appName", "xianyu"));
    out.push(pair("appEntrance", "web"));
    out.push(pair("styleType", "vertical"));
    out.push((owned("bizParams"), String::new()));
    out.push(pair("notLoadSsoView", "False"));
    out.push(pair("notKeepLogin", "False"));
    out.push(pair("isMobile", "False"));
    out.push(pair("qrCodeFirst", "False"));
    out.push(pair("stie", "77"));
    out.push(pair("rnd", rnd));
    assert(pairs_view(out@) =~= initial_login_params_spec(rnd@));
    out
}

/// A scalar as text: strings as they are, numbers as written, anything else empty.
pub open spec fn scalar_text(v: JsonView) -> Seq<char> {
    match v {
        JsonView::Str(s) => s,
        JsonView::PosInt(n) => decimal(n),
        JsonView::NegInt(i) => int_text(i),
        JsonView::Float(t) => t,
        _ => Seq::empty(),
    }
}

pub fn scalar_text_of(v: &Json) -> (r: String)
    ensures
        r@ == scalar_text(v@),
{
    match v {
        Json::Str(s) => s.clone(),
        Json::PosInt(n) => decimal_u64(*n),
        Json::NegInt(i) => int_text_of(*i),
        Json::Float(t) => t.clone(),
        _ => String::new(),
    }
}

/// The entries of `content.data` in a reply, empty where it is not an object.
pub open spec fn reply_data(body: JsonView) -> Seq<(Seq<char>, JsonView)> {
    match opt_get(body.get("content"@), "data"@) {
        Some(JsonView::Object(es)) => es,
        _ => Seq::empty(),
    }
}

/// A member of `content.data` as text, empty where missing.
pub open spec fn data_field(body: JsonView, key: Seq<char>) -> Seq<char> {
    match lookup(reply_data(body), key) {
        Some(v) => scalar_text(v),
        None => Seq::empty(),
    }
}

/// A generated QR code: its ticket `t`, its check `ck` and the content to render.
#[derive(Debug)]
pub struct QrTicket {
    pub t: String,
    pub ck: String,
    pub content: String,
}

/// What a QR-generation reply gives: `None` unless `content.success` is `true` and the code
/// content is non-empty.
pub open spec fn qr_ticket_spec(body: JsonView) -> Option<(Seq<char>, Seq<char>, Seq<char>)> {
    let success = match opt_get(body.get("content"@), "success"@) {
        Some(JsonView::Bool(b)) => b,
        _ => false,
    };
    if !success {
        None
    } else if data_field(body, "codeContent"@).len() == 0 {
        None
    } else {
        Some((data_field(body, "t"@), data_field(body, "ck"@), data_field(body, "codeContent"@)))
    }
}

fn data_field_of(body: &Json, key: &str) -> (r: String)
    ensures
        r@ == data_field(body@, key@),
{
    match get_in(body.get("content"), "data") {
        Some(data) => match data {
            Json::Object(_) => match data.get(key) {
                Some(v) => scalar_text_of(v),
                None => String::new(),
            },
            _ => String::new(),
        },
        None => String::new(),
    }
}

/// Reads a QR-generation reply.
pub fn qr_ticket(body: &Json) -> (r: Option<QrTicket>)
    ensures
        match r {
            Some(q) => qr_ticket_spec(body@) == Some((q.t@, q.ck@, q.content@)),
            None => qr_ticket_spec(body@) is None,
        },
{
    let success = match get_in(body.get("content"), "success") {
        Some(Json::Bool(b)) => *b,
        _ => false,
    };
    if !success {
        return None;
    }
    let t = data_field_of(body, "t");
    let ck = data_field_of(body, "ck");
    let content = data_field_of(body, "codeContent");
    if content.as_str().unicode_len() == 0 {
        return None;
    }
    Some(QrTicket { t, ck, content })
}

/// The form of a QR poll: the stored login parameters with the ticket and check set.
pub open spec fn poll_form_spec(
    initial: Seq<(Seq<char>, Seq<char>)>,
    t: Seq<char>,
    ck: Seq<char>,
) -> Seq<(Seq<char>, Seq<char>)> {
    upsert(upsert(initial, "t"@, t), "ck"@, ck)
}

/// The form of a QR poll.
pub fn poll_form(initial: &Vec<(String, String)>, t: &str, ck: &str) -> (r: Vec<(String, String)>)
    ensures
        pairs_view(r@) == poll_form_spec(pairs_view(initial@), t@, ck@),
{
    let mut out: Vec<(String, String)> = Vec::new();
    let mut i: usize = 0;
    while i < initial.len()
        invariant
            i <= initial.len(),
            out@.len() == i,
            forall|j: int| 0 <= j < i ==> (#[trigger] out@[j]).0@ == initial@[j].0@ && out@[j].1@ == initial@[j].1@,
        decreases initial.len() - i,
    {
        out.push((initial[i].0.clone(), initial[i].1.clone()));
        i += 1;
    }
    assert(pairs_view(out@) =~= pairs_view(initial@));
    upsert_entry(&mut out, owned("t"), owned(t));
    upsert_entry(&mut out, owned("ck"), owned(ck));
    out
}

/// The state of a QR login as a poll reports it, and the verification URL of a risk check.
#[derive(Debug)]
pub struct PollStatus {
    pub status: String,
    pub redirect_url: Option<String>,
}

/// What a poll reply says: `ERROR` with the URL where `content.data.iframeRedirect` is a
/// non-empty string, else `qrCodeStatus` (`UNKNOWN` where missing).
pub open spec fn poll_status_spec(body: JsonView) -> (Seq<char>, Option<Seq<char>>) {
    match lookup(reply_data(body), "iframeRedirect"@) {
        Some(JsonView::Str(r)) if r.len() > 0 => ("ERROR"@, Some(r)),
        _ => (
            match lookup(reply_data(body), "qrCodeStatus"@) {
                Some(JsonView::Str(s)) => s,
                _ => "UNKNOWN"@,
            },
            None,
        ),
    }
}

/// Reads a poll reply; on `CONFIRMED` the reply's `Set-Cookie` lines are saved into the jar.
/// The flag says whether a cookie changed (and so the jar should be written out).
pub fn apply_poll(jar: &mut CookieJar, body: &Json, set_cookies: &[String]) -> (r: (PollStatus, bool))
    ensures
        (r.0.status@, match r.0.redirect_url {
            Some(u) => Some(u@),
            None => None,
        }) == poll_status_spec(body@),
        r.0.status@ == "CONFIRMED"@ ==> final(jar)@ == crate::cookies::apply_set_cookies(
            old(jar)@,
            set_cookies@.map_values(|l: String| l@),
        ) && r.1 == crate::cookies::set_cookies_change(
            old(jar)@,
            set_cookies@.map_values(|l: String| l@),
        ),
        r.0.status@ != "CONFIRMED"@ ==> final(jar)@ == old(jar)@ && !r.1,
{
    let data = match get_in(body.get("content"), "data") {
        Some(d) => match d {
            Json::Object(_) => Some(d),
            _ => None,
        },
        None => None,
    };
    let redirect = match get_in(data, "iframeRedirect") {
        Some(Json::Str(r)) => {
            if r.as_str().unicode_len() > 0 {
                Some(r.clone())
            } else {
                None
            }
        },
        _ => None,
    };
    proof {
        reveal_strlit("ERROR");
        reveal_strlit("CONFIRMED");
        assert("ERROR"@.len() != "CONFIRMED"@.len());
    }
    if let Some(r) = redirect {
        return (PollStatus { status: owned("ERROR"), redirect_url: Some(r) }, false);
    }
    let status = match get_in(data, "qrCodeStatus") {
        Some(Json::Str(s)) => s.clone(),
        _ => owned("UNKNOWN"),
    };
    let mut updated = false;
    if str_eq(status.as_str(), "CONFIRMED") {
        updated = jar.merge_set_cookies(set_cookies);
    }
    (PollStatus { status, redirect_url: None }, updated)
}

/// What the login loop does after a poll.
#[derive(Debug)]
pub enum LoginAction {
    /// The login is confirmed: stop with success.
    Done,
    /// Nothing new: poll again.
    Wait,
    /// The code was just scanned: say so once, then poll again.
    AnnounceScan,
    /// Stop with this error.
    Fail(AppError),
}

/// The next scan flag and action for a poll status (`redirect` is the risk-check URL, empty
/// where none was given).
pub open spec fn login_step_spec(scanned: bool, status: Seq<char>, redirect: Seq<char>) -> (bool, LoginActionView) {
    if status == "CONFIRMED"@ {
        (scanned, LoginActionView::Done)
    } else if status == "NEW"@ {
        (scanned, LoginActionView::Wait)
    } else if status == "SCANED"@ {
        (true, if scanned {
            LoginActionView::Wait
        } else {
            LoginActionView::AnnounceScan
        })
    } else if status == "EXPIRED"@ {
        (scanned, LoginActionView::Fail("QR code expired, please restart"@))
    } else if status == "CANCELED"@ {
        (scanned, LoginActionView::Fail("Login cancelled"@))
    } else if status == "ERROR"@ {
        (scanned, LoginActionView::Fail("Risk control: verify at "@ + redirect))
    } else {
        (scanned, LoginActionView::Wait)
    }
}

/// A login action, failures by their authentication message.
pub enum LoginActionView {
    Done,
    Wait,
    AnnounceScan,
    Fail(Seq<char>),
}

pub open spec fn action_view(a: LoginAction) -> LoginActionView {
    match a {
        LoginAction::Done => LoginActionView::Done,
        LoginAction::Wait => LoginActionView::Wait,
        LoginAction::AnnounceScan => LoginActionView::AnnounceScan,
        LoginAction::Fail(AppError::Auth { details }) => LoginActionView::Fail(details@),
        LoginAction::Fail(_) => LoginActionView::Fail(Seq::empty()),
    }
}

/// One step of the QR login loop: from whether the scan was already announced and the polled
/// status, the new flag and what to do.
pub fn login_step(scanned: bool, status: &str, redirect: &str) -> (r: (bool, LoginAction))
    ensures
        (r.0, action_view(r.1)) == login_step_spec(scanned, status@, redirect@),
        r.1 matches LoginAction::Fail(e) ==> e is Auth,
{
    if str_eq(status, "CONFIRMED") {
        (scanned, LoginAction::Done)
    } else if str_eq(status, "NEW") {
        (scanned, LoginAction::Wait)
    } else if str_eq(status, "SCANED") {
        if scanned {
            (true, LoginAction::Wait)
        } else {
            (true, LoginAction::AnnounceScan)
        }
    } else if str_eq(status, "EXPIRED") {
        (scanned, LoginAction::Fail(AppError::auth("QR code expired, please restart")))
    } else if str_eq(status, "CANCELED") {
        (scanned, LoginAction::Fail(AppError::auth("Login cancelled")))
    } else if str_eq(status, "ERROR") {
        let mut msg = owned("Risk control: verify at ");
        push_str(&mut msg, redirect);
        (scanned, LoginAction::Fail(AppError::Auth { details: msg }))
    } else {
        (scanned, LoginAction::Wait)
    }
}

/// How many times a login loop that starts with the scan flag `scanned` announces the scan
/// over the polled statuses `sts`.
pub open spec fn scan_announcements(scanned: bool, sts: Seq<Seq<char>>) -> nat
    decreases sts.len(),
{
    if sts.len() == 0 {
        0
    } else {
        let (next, action) = login_step_spec(scanned, sts[0], Seq::empty());
        (if action is AnnounceScan {
            1nat
        } else {
            0nat
        }) + scan_announcements(next, sts.drop_first())
    }
}

/// The scan is announced at most once in a login, and never again once announced.
pub proof fn lemma_scan_announced_once(scanned: bool, sts: Seq<Seq<char>>)
    ensures
        scan_announcements(scanned, sts) <= 1,
        scanned ==> scan_announcements(scanned, sts) == 0,
    decreases sts.len(),
{
    if sts.len() > 0 {
        let (next, action) = login_step_spec(scanned, sts[0], Seq::empty());
        lemma_scan_announced_once(next, sts.drop_first());
        lemma_scan_announced_once(true, sts.drop_first());
        assert(action is AnnounceScan ==> next && !scanned);
        assert(scanned ==> next && !(action is AnnounceScan));
    }
}

/// Whether a token reply carries `data.accessToken` as a string.
pub open spec fn has_access_token(res: JsonView) -> bool {
    opt_str(opt_get(res.get("data"@), "accessToken"@)) is Some
}

/// The access token in a token reply.
pub fn access_token_of(res: &Json) -> (r: Result<String, AppError>)
    ensures
        match r {
            Ok(t) => opt_str(opt_get(res@.get("data"@), "accessToken"@)) == Some(t@),
            Err(e) => !has_access_token(res@) && (e matches AppError::Auth { details } && details@
                == "No accessToken in response"@),
        },
{
    match str_in(get_in(res.get("data"), "accessToken")) {
        Some(t) => Ok(owned(t)),
        None => Err(AppError::auth("No accessToken in response")),
    }
}

/// What the authentication check does next.
#[derive(Debug)]
pub enum AuthStep {
    /// Check the stored session by asking for a token.
    ValidateToken,
    /// Log in with a QR code.
    QrLogin,
    /// The session is gone: remove the stored cookies, then log in with a QR code.
    ClearAndQrLogin,
    /// Ask for a token once more.
    RefreshToken,
    /// Stop: logged in.
    LoggedIn,
    /// Stop with this error.
    Fail(AppError),
}

/// The first step: validate the stored session where it has a `unb` cookie, else log in.
pub fn first_auth_step(jar: &CookieJar) -> (r: AuthStep)
    ensures
        value_of(jar@, "unb"@) is Some ==> r is ValidateToken,
        value_of(jar@, "unb"@) is None ==> r is QrLogin,
{
    if jar.contains_key("unb") {
        AuthStep::ValidateToken
    } else {
        AuthStep::QrLogin
    }
}

/// The text that a token reply renders as, empty where it cannot be rendered.
pub open spec fn reply_text(res: JsonView) -> Seq<char> {
    match json_encoding(res) {
        Some(t) => t,
        None => Seq::empty(),
    }
}

/// The step after the first token request (`None` where the request failed): logged in with a
/// token; an expired session is cleared; a risk check stops; anything else tries a refresh.
pub fn after_token(res: Option<&Json>) -> (r: AuthStep)
    ensures
        match res {
            None => r is QrLogin,
            Some(j) => if has_access_token(j@) {
                r is LoggedIn
            } else if contains_seq(reply_text(j@), "FAIL_SYS_SESSION_EXPIRED"@) {
                r is ClearAndQrLogin
            } else if contains_seq(reply_text(j@), "FAIL_SYS_USER_VALIDATE"@) {
                r matches AuthStep::Fail(AppError::Auth { details }) && details@
                    == "Risk control triggered, manual CAPTCHA required"@
            } else {
                r is RefreshToken
            },
        },
{
    let j = match res {
        Some(j) => j,
        None => {
            return AuthStep::QrLogin;
        },
    };
    if str_in(get_in(j.get("data"), "accessToken")).is_some() {
        return AuthStep::LoggedIn;
    }
    let text = match json_to_text(j) {
        Ok(t) => t,
        Err(_) => String::new(),
    };
    if contains(text.as_str(), "FAIL_SYS_SESSION_EXPIRED") {
        AuthStep::ClearAndQrLogin
    } else if contains(text.as_str(), "FAIL_SYS_USER_VALIDATE") {
        AuthStep::Fail(AppError::auth("Risk control triggered, manual CAPTCHA required"))
    } else {
        AuthStep::RefreshToken
    }
}

/// The step after the refresh request: logged in where the reply has `data.accessToken` (of
/// any kind), else log in with a QR code.
pub fn after_refresh(res: Option<&Json>) -> (r: AuthStep)
    ensures
        match res {
            Some(j) => opt_get(j@.get("data"@), "accessToken"@) is Some,
            None => false,
        } ==> r is LoggedIn,
        !match res {
            Some(j) => opt_get(j@.get("data"@), "accessToken"@) is Some,
            None => false,
        } ==> r is QrLogin,
{
    match res {
        Some(j) => if get_in(j.get("data"), "accessToken").is_some() {
            AuthStep::LoggedIn
        } else {
            AuthStep::QrLogin
        },
        None => AuthStep::QrLogin,
    }
}

/// An MTOP call: which API and version, its data, and its own query parameters.
#[derive(Debug)]
pub struct MtopCall {
    pub api: String,
    pub version: String,
    pub data: Json,
    pub extra: Vec<(String, String)>,
}

/// The parts of a call, by value.
pub open spec fn call_view(c: &MtopCall) -> (Seq<char>, Seq<char>, JsonView, Seq<(Seq<char>, Seq<char>)>) {
    (c.api@, c.version@, c.data@, pairs_view(c.extra@))
}

/// The tracking parameters that the page-view calls send.
pub open spec fn track_params(spm: Seq<char>, log_id: Seq<char>) -> Seq<(Seq<char>, Seq<char>)> {
    seq![("spm_pre"@, spm), ("log_id"@, log_id)]
}

fn track(spm: &str, log_id: &str) -> (r: Vec<(String, String)>)
    ensures
        pairs_view(r@) == track_params(spm@, log_id@),
{
    let mut v: Vec<(String, String)> = Vec::new();
    v.push(pair("spm_pre", spm));
    v.push(pair("log_id", log_id));
    assert(pairs_view(v@) =~= track_params(spm@, log_id@));
    v
}

fn str_json(s: &str) -> (r: Json)
    ensures
        r@ == JsonView::Str(s@),
{
    Json::Str(owned(s))
}

fn call(api: &str, data: Json, extra: Vec<(String, String)>) -> (r: MtopCall)
    ensures
        r.api@ == api@,
        r.version@ == "1.0"@,
        r.data == data,
        r.extra == extra,
{
    MtopCall { api: owned(api), version: owned("1.0"), data, extra }
}

/// The call that asks for a WebSocket access token for this device.
pub fn token_call(device_id: &str) -> (r: MtopCall)
    ensures
        call_view(&r) == (
            "mtop.taobao.idlemessage.pc.login.token"@,
            "1.0"@,
            JsonView::Object(
                seq![
                    ("appKey"@, JsonView::Str("444e9908a51d1cb236a27862abc769c9"@)),
                    ("deviceId"@, JsonView::Str(device_id@)),
                ],
            ),
            track_params("a21ybx.item.want.1.14ad3da6ALVq3n"@, "14ad3da6ALVq3n"@),
        ),
{
    let mut es: Vec<(String, Json)> = Vec::new();
    push_entry(&mut es, "appKey", str_json("444e9908a51d1cb236a27862abc769c9"));
    push_entry(&mut es, "deviceId", str_json(device_id));
    let r = call(
        "mtop.taobao.idlemessage.pc.login.token",
        object(es),
        track("a21ybx.item.want.1.14ad3da6ALVq3n", "14ad3da6ALVq3n"),
    );
    assert(entries_view(es@) =~= seq![
        ("appKey"@, JsonView::Str("444e9908a51d1cb236a27862abc769c9"@)),
        ("deviceId"@, JsonView::Str(device_id@)),
    ]);
    r
}

/// The call whose reply sets the `_m_h5_tk` cookie.
pub fn mh5tk_call() -> (r: MtopCall)
    ensures
        call_view(&r) == (
            "mtop.gaia.nodejs.gaia.idle.data.gw.v2.index.get"@,
            "1.0"@,
            JsonView::Object(Seq::empty()),
            Seq::<(Seq<char>, Seq<char>)>::empty(),
        ),
{
    let es: Vec<(String, Json)> = Vec::new();
    let extra: Vec<(String, String)> = Vec::new();
    assert(entries_view(es@) =~= Seq::empty());
    assert(pairs_view(extra@) =~= Seq::empty());
    call("mtop.gaia.nodejs.gaia.idle.data.gw.v2.index.get", object(es), extra)
}

/// The call for a user's profile head (the account's own where `user_id` is empty).
pub fn user_info_call(user_id: &str) -> (r: MtopCall)
    ensures
        call_view(&r) == (
            "mtop.idle.web.user.page.head"@,
            "1.0"@,
            JsonView::Object(
                seq![
                    ("self"@, JsonView::Bool(user_id@.len() == 0)),
                    ("userId"@, JsonView::Str(user_id@)),
                ],
            ),
            track_params("a21ybx.home.nav.1.62953da6OYFsax"@, "62953da6OYFsax"@),
        ),
{
    let mut es: Vec<(String, Json)> = Vec::new();
    push_entry(&mut es, "self", Json::Bool(user_id.unicode_len() == 0));
    push_entry(&mut es, "userId", str_json(user_id));
    assert(entries_view(es@) =~= seq![
        ("self"@, JsonView::Bool(user_id@.len() == 0)),
        ("userId"@, JsonView::Str(user_id@)),
    ]);
    call(
        "mtop.idle.web.user.page.head",
        object(es),
        track("a21ybx.home.nav.1.62953da6OYFsax", "62953da6OYFsax"),
    )
}

/// The call for a page of a user's items.
pub fn item_list_call(user_id: &str, page: u64, page_size: u64) -> (r: MtopCall)
    ensures
        call_view(&r) == (
            "mtop.idle.web.xyh.item.list"@,
            "1.0"@,
            JsonView::Object(
                seq![
                    ("userId"@, JsonView::Str(user_id@)),
                    ("pageNumber"@, JsonView::PosInt(page as nat)),
                    ("pageSize"@, JsonView::PosInt(page_size as nat)),
                ],
            ),
            track_params("a21ybx.home.nav.1.62953da6OYFsax"@, "62953da6OYFsax"@),
        ),
{
    let mut es: Vec<(String, Json)> = Vec::new();
    push_entry(&mut es, "userId", str_json(user_id));
    push_entry(&mut es, "pageNumber", Json::PosInt(page));
    push_entry(&mut es, "pageSize", Json::PosInt(page_size));
    assert(entries_view(es@) =~= seq![
        ("userId"@, JsonView::Str(user_id@)),
        ("pageNumber"@, JsonView::PosInt(page as nat)),
        ("pageSize"@, JsonView::PosInt(page_size as nat)),
    ]);
    call(
        "mtop.idle.web.xyh.item.list",
        object(es),
        track("a21ybx.home.nav.1.62953da6OYFsax", "62953da6OYFsax"),
    )
}

/// The call for an item's details.
pub fn item_info_call(item_id: &str) -> (r: MtopCall)
    ensures
        call_view(&r) == (
            "mtop.taobao.idle.pc.detail"@,
            "1.0"@,
            JsonView::Object(seq![("itemId"@, JsonView::Str(item_id@))]),
            track_params("a21ybx.item.want.1.12523da6waCtUp"@, "12523da6waCtUp"@),
        ),
{
    let mut es: Vec<(String, Json)> = Vec::new();
    push_entry(&mut es, "itemId", str_json(item_id));
    assert(entries_view(es@) =~= seq![("itemId"@, JsonView::Str(item_id@))]);
    call(
        "mtop.taobao.idle.pc.detail",
        object(es),
        track("a21ybx.item.want.1.12523da6waCtUp", "12523da6waCtUp"),
    )
}

/// The request for a call, signed at the current time; `h5_tk` is the `_m_h5_tk` cookie.
pub fn prepare_mtop(c: &MtopCall, h5_tk: Option<&str>) -> (r: Result<MtopRequest, AppError>)
    ensures
        match r {
            Ok(req) => exists|t_ms: nat|
                #[trigger] mtop_request_spec(
                    c.api@,
                    c.version@,
                    c.data@,
                    opt_text(h5_tk),
                    t_ms,
                    pairs_view(c.extra@),
                ) == Some((req.url@, pairs_view(req.params@), req.body@)),
            Err(e) => data_text(c.data@) is None && e is Json,
        },
{
    let t = epoch_ms();
    mtop_request(c.api.as_str(), c.version.as_str(), &c.data, h5_tk, t, &c.extra)
}

} // verus!
