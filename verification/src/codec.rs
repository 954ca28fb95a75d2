//! The calls into outside crates that encode, decode, hash and draw random values.
use vstd::prelude::*;

use crate::json::{Json, JsonView};

use base64::Engine;
use serde_json::{Number, Value};
use rand::Rng;

verus! {

#[verifier::external_type_specification]
#[verifier::external_body]
pub struct ExJsonValue(serde_json::Value);

#[verifier::external_type_specification]
#[verifier::external_body]
pub struct ExJsonError(serde_json::Error);

#[verifier::external_type_specification]
#[verifier::external_body]
pub struct ExBase64DecodeError(base64::DecodeError);

/// The text that `serde_json::to_string` renders for a value (`None` where it fails, and where
/// the text of a `Float` is not one that `serde_json::Number` reads).
pub uninterp spec fn json_encoding(v: JsonView) -> Option<Seq<char>>;

/// The value that `serde_json::from_slice` reads from bytes (`None` where it fails).
pub uninterp spec fn json_decoding(bytes: Seq<u8>) -> Option<JsonView>;

/// The value that `rmp_serde::from_slice` reads from MessagePack bytes (`None` where it fails).
pub uninterp spec fn msgpack_decoding(bytes: Seq<u8>) -> Option<JsonView>;

/// The character of a 6-bit value in the standard Base64 alphabet: `A`-`Z`, `a`-`z`, `0`-`9`,
/// `+`, `/`.
pub open spec fn base64_digit(v: int) -> char {
    if v < 26 {
        (65 + v) as char
    } else if v < 52 {
        (97 + v - 26) as char
    } else if v < 62 {
        (48 + v - 52) as char
    } else if v == 62 {
        '+'
    } else {
        '/'
    }
}

/// The standard, padded Base64 text of `bytes` (base64's `STANDARD.encode`): each group of
/// three bytes as four digits of six bits each, a last group of one or two bytes padded with
/// zero bits and `=` to four characters.
pub open spec fn base64_encoding(bytes: Seq<u8>) -> Seq<char>
    decreases bytes.len(),
{
    if bytes.len() == 0 {
        Seq::empty()
    } else if bytes.len() == 1 {
        let b0 = bytes[0] as int;
        seq![base64_digit(b0 / 4), base64_digit((b0 % 4) * 16), '=', '=']
    } else if bytes.len() == 2 {
        let b0 = bytes[0] as int;
        let b1 = bytes[1] as int;
        seq![base64_digit(b0 / 4), base64_digit((b0 % 4) * 16 + b1 / 16), base64_digit((b1 % 16) * 4), '=']
    } else {
        let b0 = bytes[0] as int;
        let b1 = bytes[1] as int;
        let b2 = bytes[2] as int;
        seq![
            base64_digit(b0 / 4),
            base64_digit((b0 % 4) * 16 + b1 / 16),
            base64_digit((b1 % 16) * 4 + b2 / 64),
            base64_digit(b2 % 64),
        ] + base64_encoding(bytes.subrange(3, bytes.len() as int))
    }
}

/// The bytes of the standard, padded Base64 text of `bytes`.
pub open spec fn base64_text_bytes(bytes: Seq<u8>) -> Seq<u8> {
    base64_encoding(bytes).map_values(|c: char| c as u8)
}

/// The bytes that `STANDARD.decode` reads from `text`: those whose standard, padded Base64
/// text it is (canonical padding, no stray trailing bits; one such value at most), and `None`
/// where it is no such text.
pub open spec fn base64_decoding(text: Seq<u8>) -> Option<Seq<u8>> {
    if exists|b: Seq<u8>| #[trigger] base64_text_bytes(b) == text {
        Some(choose|b: Seq<u8>| #[trigger] base64_text_bytes(b) == text)
    } else {
        None
    }
}

/// The 6-bit value of a standard Base64 digit.
pub open spec fn base64_value(c: char) -> int {
    if 'A' <= c <= 'Z' {
        c as int - 65
    } else if 'a' <= c <= 'z' {
        c as int - 97 + 26
    } else if '0' <= c <= '9' {
        c as int - 48 + 52
    } else if c == '+' {
        62
    } else {
        63
    }
}

proof fn lemma_base64_digit(v: int)
    requires
        0 <= v < 64,
    ensures
        base64_value(base64_digit(v)) == v,
        base64_digit(v) != '=',
        (base64_digit(v) as int) < 128,
{
}

proof fn lemma_ascii_byte(c: char)
    requires
        (c as int) < 128,
    ensures
        (c as u8) as int == c as int,
{
}

proof fn lemma_base64_len(bytes: Seq<u8>)
    ensures
        base64_encoding(bytes).len() == 0 <==> bytes.len() == 0,
        bytes.len() >= 3 ==> base64_encoding(bytes).len() >= 4,
        forall|i: int| 0 <= i < base64_encoding(bytes).len() ==> (#[trigger] base64_encoding(bytes)[i] as int) < 128,
    decreases bytes.len(),
{
    let e = base64_encoding(bytes);
    if bytes.len() > 0 {
        let b0 = bytes[0] as int;
        lemma_base64_digit(b0 / 4);
        if bytes.len() == 1 {
            lemma_base64_digit((b0 % 4) * 16);
        } else if bytes.len() == 2 {
            let b1 = bytes[1] as int;
            lemma_base64_digit((b0 % 4) * 16 + b1 / 16);
            lemma_base64_digit((b1 % 16) * 4);
        } else {
            let b1 = bytes[1] as int;
            let b2 = bytes[2] as int;
            lemma_base64_digit((b0 % 4) * 16 + b1 / 16);
            lemma_base64_digit((b1 % 16) * 4 + b2 / 64);
            lemma_base64_digit(b2 % 64);
            let rest = bytes.subrange(3, bytes.len() as int);
            lemma_base64_len(rest);
            assert forall|i: int| 0 <= i < e.len() implies (#[trigger] e[i] as int) < 128 by {
                if i >= 4 {
                    assert(e[i] == base64_encoding(rest)[i - 4]);
                }
            }
        }
    }
}

proof fn lemma_base64_injective(a: Seq<u8>, b: Seq<u8>)
    requires
        base64_encoding(a) == base64_encoding(b),
    ensures
        a == b,
    decreases a.len(),
{
    let e = base64_encoding(a);
    lemma_base64_len(a);
    lemma_base64_len(b);
    if a.len() > 0 && b.len() > 0 {
        let a0 = a[0] as int;
        let c0 = b[0] as int;
        lemma_base64_digit(a0 / 4);
        lemma_base64_digit(c0 / 4);
        let a1 = if a.len() >= 2 { a[1] as int } else { 0 };
        let c1 = if b.len() >= 2 { b[1] as int } else { 0 };
        let a2 = if a.len() >= 3 { a[2] as int } else { 0 };
        let c2 = if b.len() >= 3 { b[2] as int } else { 0 };
        lemma_base64_digit((a0 % 4) * 16 + a1 / 16);
        lemma_base64_digit((c0 % 4) * 16 + c1 / 16);
        lemma_base64_digit((a1 % 16) * 4 + a2 / 64);
        lemma_base64_digit((c1 % 16) * 4 + c2 / 64);
        lemma_base64_digit(a2 % 64);
        lemma_base64_digit(c2 % 64);
        // the padding tells the length of the last group
        assert(a.len() == 1 <==> e[2] == '=');
        assert(b.len() == 1 <==> e[2] == '=');
        assert(a.len() == 2 <==> (e[2] != '=' && e[3] == '='));
        assert(b.len() == 2 <==> (e[2] != '=' && e[3] == '='));
        let ea = base64_encoding(a);
        let eb = base64_encoding(b);
        assert(ea[0] == base64_digit(a0 / 4));
        assert(eb[0] == base64_digit(c0 / 4));
        assert(ea[1] == base64_digit((a0 % 4) * 16 + a1 / 16));
        assert(eb[1] == base64_digit((c0 % 4) * 16 + c1 / 16));
        if a.len() >= 2 {
            assert(ea[2] == base64_digit((a1 % 16) * 4 + a2 / 64));
        }
        if b.len() >= 2 {
            assert(eb[2] == base64_digit((c1 % 16) * 4 + c2 / 64));
        }
        if a.len() >= 3 {
            assert(ea[3] == base64_digit(a2 % 64));
        }
        if b.len() >= 3 {
            assert(eb[3] == base64_digit(c2 % 64));
        }
        assert(a0 / 4 == c0 / 4);
        assert((a0 % 4) * 16 + a1 / 16 == (c0 % 4) * 16 + c1 / 16);
        assert(a0 % 4 == c0 % 4);
        assert(a0 == c0);
        if a.len() == 1 {
            assert(a =~= b);
        } else {
            assert(a1 / 16 == c1 / 16);
            if a.len() == 2 {
                assert((a1 % 16) * 4 == (c1 % 16) * 4);
                assert(a1 == c1);
                assert(a =~= b);
            } else {
                assert((a1 % 16) * 4 + a2 / 64 == (c1 % 16) * 4 + c2 / 64);
                assert(a1 % 16 == c1 % 16);
                assert(a1 == c1);
                assert(a2 / 64 == c2 / 64);
                assert(a2 % 64 == c2 % 64);
                assert(a2 == c2);
                let ra = a.subrange(3, a.len() as int);
                let rb = b.subrange(3, b.len() as int);
                assert(base64_encoding(ra) =~= e.subrange(4, e.len() as int));
                assert(base64_encoding(rb) =~= e.subrange(4, e.len() as int));
                lemma_base64_injective(ra, rb);
                assert(a =~= seq![a[0], a[1], a[2]] + ra);
                assert(b =~= seq![b[0], b[1], b[2]] + rb);
            }
        }
    } else {
        assert(a.len() == 0 && b.len() == 0);
        assert(a =~= b);
    }
}

/// Decoding the standard Base64 text of bytes gives the bytes back.
pub proof fn lemma_base64_roundtrip(bytes: Seq<u8>)
    ensures
        base64_decoding(base64_text_bytes(bytes)) == Some(bytes),
{
    let t = base64_text_bytes(bytes);
    assert(base64_text_bytes(bytes) == t);
    let c = choose|b: Seq<u8>| #[trigger] base64_text_bytes(b) == t;
    assert(base64_text_bytes(c) == t);
    let ec = base64_encoding(c);
    let eb = base64_encoding(bytes);
    lemma_base64_len(c);
    lemma_base64_len(bytes);
    assert(ec.len() == eb.len());
    assert forall|i: int| 0 <= i < ec.len() implies ec[i] == eb[i] by {
        assert(t == ec.map_values(|x: char| x as u8));
        assert(t == eb.map_values(|x: char| x as u8));
        assert(t[i] == ec[i] as u8);
        assert(t[i] == eb[i] as u8);
        assert((ec[i] as int) < 128);
        assert((eb[i] as int) < 128);
        lemma_ascii_byte(ec[i]);
        lemma_ascii_byte(eb[i]);
    }
    assert(ec =~= eb);
    lemma_base64_injective(c, bytes);
}

/// The MD5 digest of `bytes` (`md5::compute`).
pub uninterp spec fn md5_digest(bytes: Seq<u8>) -> Seq<u8>;

/// Whether `regex::Regex::new` accepts the pattern.
pub uninterp spec fn regex_compiles(pattern: Seq<char>) -> bool;

/// Whether the regex compiled from `pattern` matches somewhere in `text` (`Regex::is_match`).
pub uninterp spec fn regex_is_match(pattern: Seq<char>, text: Seq<char>) -> bool;

/// The text that `String::from_utf8_lossy` makes of `bytes`.
pub uninterp spec fn utf8_lossy(bytes: Seq<u8>) -> Seq<char>;

/// serde_json's value turned into this library's value, one node for one node.
#[verifier::external_body]
fn from_serde(v: serde_json::Value) -> Json {
    match v {
        serde_json::Value::Null => Json::Null,
        serde_json::Value::Bool(b) => Json::Bool(b),
        serde_json::Value::Number(n) => match (n.as_u64(), n.as_i64()) {
            (Some(u), _) => Json::PosInt(u),
            (None, Some(i)) => Json::NegInt(i),
            (None, None) => Json::Float(n.to_string()),
        },
        serde_json::Value::String(s) => Json::Str(s),
        serde_json::Value::Array(items) => Json::Array(items.into_iter().map(from_serde).collect()),
        serde_json::Value::Object(m) => Json::Object(m.into_iter().map(|(k, v)| (k, from_serde(v))).collect()),
    }
}

/// This library's value turned into serde_json's value, one node for one node; a `Float`'s
/// text is read by `serde_json::Number`'s `FromStr`, whose error is handed on.
#[verifier::external_body]
fn to_serde(v: &Json) -> Result<Value, serde_json::Error> {
    Ok(match v {
        Json::Null => Value::Null,
        Json::Bool(b) => Value::Bool(*b),
        Json::PosInt(u) => Value::from(*u),
        Json::NegInt(i) => Value::from(*i),
        Json::Float(s) => Value::Number(s.parse::<Number>()?),
        Json::Str(s) => Value::String(s.clone()),
        Json::Array(items) => Value::Array(items.iter().map(to_serde).collect::<Result<_, _>>()?),
        Json::Object(es) => Value::Object(
            es.iter().map(|(k, v)| Ok((k.clone(), to_serde(v)?))).collect::<Result<_, serde_json::Error>>()?,
        ),
    })
}

/// `serde_json::to_string` of the value in serde_json's form: the result is the named rendering
/// of the value.
#[verifier::external_body]
pub(crate) fn json_to_text(v: &Json) -> (r: Result<String, serde_json::Error>)
    ensures
        match r {
            Ok(s) => json_encoding(v@) == Some(s@),
            Err(_) => json_encoding(v@) is None,
        },
{
    serde_json::to_string(&to_serde(v)?)
}

/// `serde_json::from_slice`: the result is the named reading of the bytes.
#[verifier::external_body]
pub(crate) fn json_from_bytes(bytes: &[u8]) -> (r: Result<Json, serde_json::Error>)
    ensures
        match r {
            Ok(j) => json_decoding(bytes@) == Some(j@),
            Err(_) => json_decoding(bytes@) is None,
        },
{
    serde_json::from_slice::<serde_json::Value>(bytes).map(from_serde)
}

/// `rmp_serde::from_slice` into a JSON value: the result is the named reading of the bytes.
#[verifier::external_body]
pub(crate) fn msgpack_from_bytes(bytes: &[u8]) -> (r: Option<Json>)
    ensures
        match r {
            Some(j) => msgpack_decoding(bytes@) == Some(j@),
            None => msgpack_decoding(bytes@) is None,
        },
{
    rmp_serde::from_slice::<serde_json::Value>(bytes).ok().map(from_serde)
}

/// base64's `STANDARD.encode`: the standard, padded Base64 text of the bytes.
#[verifier::external_body]
pub(crate) fn base64_encode(bytes: &[u8]) -> (r: String)
    ensures
        r@ == base64_encoding(bytes@),
{
    base64::engine::general_purpose::STANDARD.encode(bytes)
}

/// base64's `STANDARD.decode`: the result is the named decoding of the text's bytes.
#[verifier::external_body]
pub(crate) fn base64_decode(text: &[u8]) -> (r: Result<Vec<u8>, base64::DecodeError>)
    ensures
        match r {
            Ok(b) => base64_decoding(text@) == Some(b@),
            Err(_) => base64_decoding(text@) is None,
        },
{
    base64::engine::general_purpose::STANDARD.decode(text)
}

/// `md5::compute`: the named digest, which has 16 bytes.
#[verifier::external_body]
pub(crate) fn md5_compute(bytes: &[u8]) -> (r: Vec<u8>)
    ensures
        r@ == md5_digest(bytes@),
        r@.len() == 16,
{
    md5::compute(bytes).0.to_vec()
}

/// `Regex::new(pattern)` then `is_match(text)`: `None` where `Regex::new` refuses the pattern,
/// else whether the compiled regex matches somewhere in the text.
#[verifier::external_body]
pub(crate) fn regex_match(pattern: &str, text: &str) -> (r: Option<bool>)
    ensures
        r is None <==> !regex_compiles(pattern@),
        r matches Some(b) ==> b == regex_is_match(pattern@, text@),
{
    match regex::Regex::new(pattern) {
        Ok(re) => Some(re.is_match(text)),
        Err(_) => None,
    }
}

/// `String::from_utf8_lossy`, as an owned `String`.
#[verifier::external_body]
pub(crate) fn from_utf8_lossy(bytes: &[u8]) -> (r: String)
    ensures
        r@ == utf8_lossy(bytes@),
{
    String::from_utf8_lossy(bytes).into_owned()
}

/// `rand::thread_rng().gen_range(0..bound)`: some number below `bound`.
#[verifier::external_body]
pub(crate) fn random_below(bound: u32) -> (r: u32)
    requires
        bound > 0,
    ensures
        r < bound,
{
    rand::thread_rng().gen_range(0..bound)
}

/// A lower-case hexadecimal digit.
pub open spec fn is_lower_hex(c: char) -> bool {
    ('0' <= c && c <= '9') || ('a' <= c && c <= 'f')
}

/// The hyphenated, lower-case text of a random UUID (version 4, RFC 4122 variant): 36
/// characters, `-` at 8, 13, 18 and 23, hex digits elsewhere, `4` at 14, and one of `8`, `9`,
/// `a`, `b` at 19.
pub open spec fn uuid_v4_text(s: Seq<char>) -> bool {
    &&& s.len() == 36
    &&& forall|i: int|
        0 <= i < 36 ==> if i == 8 || i == 13 || i == 18 || i == 23 {
            #[trigger] s[i] == '-'
        } else {
            is_lower_hex(s[i])
        }
    &&& s[14] == '4'
    &&& (s[19] == '8' || s[19] == '9' || s[19] == 'a' || s[19] == 'b')
}

/// `uuid::Uuid::new_v4().to_string()`: a fresh random UUID in its hyphenated lower-case form;
/// `new_v4` sets the version nibble to 4 and the variant bits to `10`, and `Display` writes
/// the hyphenated lower-case form. Which UUID comes out is left open.
#[verifier::external_body]
pub(crate) fn random_uuid_text() -> (r: String)
    ensures
        uuid_v4_text(r@),
{
    uuid::Uuid::new_v4().to_string()
}

/// The time since the Unix epoch as whole seconds and the nanoseconds beyond them
/// (`SystemTime::now().duration_since(UNIX_EPOCH)`); `None` where the clock is before the epoch.
#[verifier::external_body]
pub(crate) fn since_unix_epoch() -> (r: Option<(u64, u32)>)
    ensures
        r matches Some(p) ==> p.1 < 1_000_000_000,
{
    std::time::SystemTime::now()
        .duration_since(std::time::UNIX_EPOCH)
        .ok()
        .map(|d| (d.as_secs(), d.subsec_nanos()))
}

} // verus!
