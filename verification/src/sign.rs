//! Request signing, frame identifiers and device fingerprints.
use vstd::prelude::*;
use vstd::utf8::encode_utf8;

use crate::codec::{
    base64_decode, base64_decoding, json_decoding, json_from_bytes, md5_compute, md5_digest,
    random_below, since_unix_epoch,
};
use crate::error::AppError;
use crate::json::{Json, JsonView};
use crate::text::{decimal, decimal_u128, hex_lower, hex_lower_digit, hex_upper, hex_upper_digit, owned, push_str};

verus! {

/// The application key that every signed request carries.
pub open spec fn app_key() -> Seq<char> {
    "34839810"@
}

/// Each byte as two lower-case hexadecimal digits, in order.
pub open spec fn hex_lower_text(bytes: Seq<u8>) -> Seq<char>
    decreases bytes.len(),
{
    if bytes.len() == 0 {
        Seq::empty()
    } else {
        hex_lower_text(bytes.drop_last()) + seq![
            hex_lower((bytes.last() / 16) as nat),
            hex_lower((bytes.last() % 16) as nat),
        ]
    }
}

/// The text that is hashed to sign a request: `token&t&appKey&data`.
pub open spec fn sign_input(t: Seq<char>, token: Seq<char>, data: Seq<char>) -> Seq<char> {
    token + "&"@ + t + "&"@ + app_key() + "&"@ + data
}

/// The request signature: the lower-case hex MD5 of the sign input.
pub open spec fn sign_spec(t: Seq<char>, token: Seq<char>, data: Seq<char>) -> Seq<char> {
    hex_lower_text(md5_digest(encode_utf8(sign_input(t, token, data))))
}

/// Renders bytes as lower-case hex, two digits per byte.
pub fn hex_lower_of(bytes: &[u8]) -> (r: String)
    ensures
        r@ == hex_lower_text(bytes@),
{
    let mut out = String::new();
    let mut i: usize = 0;
    while i < bytes.len()
        invariant
            i <= bytes.len(),
            out@ == hex_lower_text(bytes@.take(i as int)),
        decreases bytes.len() - i,
    {
        let b = bytes[i];
        assert(bytes@.take(i + 1).drop_last() =~= bytes@.take(i as int));
        out.push(hex_lower_digit(b / 16));
        out.push(hex_lower_digit(b % 16));
        i += 1;
    }
    assert(bytes@.take(bytes.len() as int) =~= bytes@);
    out
}

/// The MTOP h5 signature: lower-case hex MD5 of `token&t&appKey&data`. Never fails.
pub fn generate_sign(t: &str, token: &str, data: &str) -> (r: Result<String, AppError>)
    ensures
        r matches Ok(s) && s@ == sign_spec(t@, token@, data@),
{
    let mut input = owned(token);
    push_str(&mut input, "&");
    push_str(&mut input, t);
    push_str(&mut input, "&");
    push_str(&mut input, "34839810");
    push_str(&mut input, "&");
    push_str(&mut input, data);
    let digest = md5_compute(input.as_str().as_bytes());
    Ok(hex_lower_of(digest.as_slice()))
}

/// Milliseconds in a time given as whole seconds and nanoseconds beyond them.
pub open spec fn millis_of(secs: nat, nanos: nat) -> nat {
    secs * 1000 + nanos / 1_000_000
}

/// Milliseconds since the Unix epoch, 0 where the clock reads before it.
pub fn epoch_ms() -> (r: u128)
    ensures
        exists|secs: u64, nanos: u32| nanos < 1_000_000_000 && r == millis_of(secs as nat, nanos as nat),
{
    match since_unix_epoch() {
        Some((secs, nanos)) => {
            let ms = (secs as u128) * 1000 + (nanos as u128) / 1_000_000;
            assert(ms == millis_of(secs as nat, nanos as nat));
            ms
        },
        None => {
            assert(0u128 == millis_of(0, 0));
            0
        },
    }
}

/// A frame id: the random number, the time in milliseconds, then ` 0`.
pub open spec fn mid_spec(rand: nat, ms: nat) -> Seq<char> {
    decimal(rand) + decimal(ms) + " 0"@
}

/// A frame id from a random number and a time in milliseconds.
pub fn mid_text(rand: u32, ms: u128) -> (r: String)
    ensures
        r@ == mid_spec(rand as nat, ms as nat),
{
    let mut out = decimal_u128(rand as u128);
    let t = decimal_u128(ms);
    push_str(&mut out, t.as_str());
    push_str(&mut out, " 0");
    out
}

/// A frame id for WebSocket frames: a random number below 1000, the time in milliseconds, ` 0`.
pub fn generate_mid() -> (r: String)
    ensures
        exists|rand: nat, ms: nat| rand < 1000 && r@ == mid_spec(rand, ms),
{
    let rand = random_below(1000);
    let ms = epoch_ms();
    mid_text(rand, ms)
}

/// A send id: `-`, the time in milliseconds, `1`.
pub open spec fn uuid_spec(ms: nat) -> Seq<char> {
    "-"@ + decimal(ms) + "1"@
}

/// A send id from a time in milliseconds.
pub fn uuid_text(ms: u128) -> (r: String)
    ensures
        r@ == uuid_spec(ms as nat),
{
    let mut out = owned("-");
    let t = decimal_u128(ms);
    push_str(&mut out, t.as_str());
    push_str(&mut out, "1");
    out
}

/// A send id for WebSocket sends: `-`, the time in milliseconds, `1`.
pub fn generate_uuid() -> (r: String)
    ensures
        exists|ms: nat| r@ == uuid_spec(ms),
{
    let ms = epoch_ms();
    uuid_text(ms)
}

/// The upper-case hex digits of the given values.
pub open spec fn hex_digits(ds: Seq<u8>) -> Seq<char> {
    ds.map_values(|d: u8| hex_upper(d as nat))
}

/// A device fingerprint in UUIDv4 shape from 30 hex digits and a variant in 0..4,
/// followed by `-` and the user id.
pub open spec fn device_id_spec(ds: Seq<u8>, variant: nat, user_id: Seq<char>) -> Seq<char> {
    let h = hex_digits(ds);
    h.subrange(0, 8) + "-"@ + h.subrange(8, 12) + "-4"@ + h.subrange(12, 15) + "-"@ + seq![
        hex_upper(variant + 8),
    ] + h.subrange(15, 18) + "-"@ + h.subrange(18, 30) + "-"@ + user_id
}

/// Whether the values are 30 hexadecimal digits.
pub open spec fn valid_hex_draws(ds: Seq<u8>) -> bool {
    ds.len() == 30 && forall|i: int| 0 <= i < 30 ==> #[trigger] ds[i] < 16
}

/// An upper-case hexadecimal digit.
pub open spec fn is_upper_hex(c: char) -> bool {
    ('0' <= c && c <= '9') || ('A' <= c && c <= 'F')
}

proof fn lemma_hex_upper_is_hex(d: nat)
    requires
        d < 16,
    ensures
        is_upper_hex(hex_upper(d)),
{
}

/// A device id is a UUIDv4-shaped fingerprint and then `-` and the user id: 36 characters with
/// `-` at 8, 13, 18 and 23 and upper-case hex digits elsewhere, `4` at 14, one of `8`, `9`,
/// `A`, `B` at 19; then `-` at 36 and the user id from 37 on.
pub proof fn lemma_device_id_shape(ds: Seq<u8>, variant: nat, user_id: Seq<char>)
    requires
        valid_hex_draws(ds),
        variant < 4,
    ensures
        ({
            let r = device_id_spec(ds, variant, user_id);
            &&& r.len() == 37 + user_id.len()
            &&& forall|i: int|
                0 <= i < 36 ==> if i == 8 || i == 13 || i == 18 || i == 23 {
                    #[trigger] r[i] == '-'
                } else {
                    is_upper_hex(r[i])
                }
            &&& r[14] == '4'
            &&& (r[19] == '8' || r[19] == '9' || r[19] == 'A' || r[19] == 'B')
            &&& r[36] == '-'
            &&& r.subrange(37, r.len() as int) == user_id
        }),
{
    reveal_strlit("-");
    reveal_strlit("-4");
    let h = hex_digits(ds);
    let r = device_id_spec(ds, variant, user_id);
    assert forall|k: int| 0 <= k < 30 implies is_upper_hex(#[trigger] h[k]) by {
        lemma_hex_upper_is_hex(ds[k] as nat);
    }
    let v = hex_upper(variant + 8);
    let head = h.subrange(0, 8) + "-"@ + h.subrange(8, 12) + "-4"@ + h.subrange(12, 15) + "-"@ + seq![v]
        + h.subrange(15, 18) + "-"@ + h.subrange(18, 30) + "-"@;
    assert(r == head + user_id);
    assert(head.len() == 37);
    assert forall|i: int| 0 <= i < 36 implies (if i == 8 || i == 13 || i == 18 || i == 23 {
        #[trigger] r[i] == '-'
    } else {
        is_upper_hex(r[i])
    }) by {
        assert(r[i] == head[i]);
        if i < 8 {
            assert(head[i] == h[i]);
        } else if 8 < i < 13 {
            assert(head[i] == h[i - 1]);
        } else if 14 < i < 18 {
            assert(head[i] == h[i - 3]);
        } else if i == 19 {
            assert(head[i] == v);
        } else if 19 < i < 23 {
            assert(head[i] == h[i - 5]);
        } else if 23 < i {
            assert(head[i] == h[i - 6]);
        }
    }
    assert(r[14] == head[14]);
    assert(r[19] == v);
    assert(r[36] == '-');
    assert(r.subrange(37, r.len() as int) =~= user_id);
}

/// The device fingerprint for the given hex digits and variant.
pub fn device_id_text(ds: &Vec<u8>, variant: u8, user_id: &str) -> (r: String)
    requires
        valid_hex_draws(ds@),
        variant < 4,
    ensures
        r@ == device_id_spec(ds@, variant as nat, user_id@),
{
    let ghost h = hex_digits(ds@);
    let mut out = String::new();
    let mut i: usize = 0;
    while i < 30
        invariant
            i <= 30,
            valid_hex_draws(ds@),
            variant < 4,
            h == hex_digits(ds@),
            out@ == if i <= 8 {
                h.subrange(0, i as int)
            } else if i <= 12 {
                h.subrange(0, 8) + "-"@ + h.subrange(8, i as int)
            } else if i <= 15 {
                h.subrange(0, 8) + "-"@ + h.subrange(8, 12) + "-4"@ + h.subrange(12, i as int)
            } else if i <= 18 {
                h.subrange(0, 8) + "-"@ + h.subrange(8, 12) + "-4"@ + h.subrange(12, 15) + "-"@
                    + seq![hex_upper((variant + 8) as nat)] + h.subrange(15, i as int)
            } else {
                h.subrange(0, 8) + "-"@ + h.subrange(8, 12) + "-4"@ + h.subrange(12, 15) + "-"@
                    + seq![hex_upper((variant + 8) as nat)] + h.subrange(15, 18) + "-"@ + h.subrange(
                    18,
                    i as int,
                )
            },
        decreases 30 - i,
    {
        proof {
            reveal_strlit("-");
            reveal_strlit("-4");
        }
        if i == 8 {
            out.push('-');
        } else if i == 12 {
            out.push('-');
            out.push('4');
        } else if i == 15 {
            out.push('-');
            out.push(hex_upper_digit(variant + 8));
        } else if i == 18 {
            out.push('-');
        }
        let ghost before = out@;
        out.push(hex_upper_digit(ds[i]));
        proof {
            assert(h[i as int] == hex_upper(ds@[i as int] as nat));
            if i < 8 {
                assert(h.subrange(0, i + 1) =~= h.subrange(0, i as int).push(h[i as int]));
            } else if i < 12 {
                assert(h.subrange(8, i + 1) =~= h.subrange(8, i as int).push(h[i as int]));
            } else if i < 15 {
                assert(h.subrange(12, i + 1) =~= h.subrange(12, i as int).push(h[i as int]));
            } else if i < 18 {
                assert(h.subrange(15, i + 1) =~= h.subrange(15, i as int).push(h[i as int]));
            } else {
                assert(h.subrange(18, i + 1) =~= h.subrange(18, i as int).push(h[i as int]));
            }
        }
        i += 1;
    }
    push_str(&mut out, "-");
    push_str(&mut out, user_id);
    out
}

/// A device fingerprint: 30 random upper-case hex digits in UUIDv4 shape (version `4`,
/// variant one of `8`, `9`, `A`, `B`), then `-` and the user id.
pub fn generate_device_id(user_id: &str) -> (r: String)
    ensures
        exists|ds: Seq<u8>, v: nat| valid_hex_draws(ds) && v < 4 && r@ == device_id_spec(ds, v, user_id@),
{
    let mut ds: Vec<u8> = Vec::new();
    let mut i: usize = 0;
    while i < 30
        invariant
            i <= 30,
            ds@.len() == i,
            forall|j: int| 0 <= j < i ==> #[trigger] ds@[j] < 16,
        decreases 30 - i,
    {
        let d = random_below(16);
        ds.push(d as u8);
        i += 1;
    }
    let v = random_below(4);
    device_id_text(&ds, v as u8, user_id)
}

/// What decrypting a body gives: the JSON read from its Base64 bytes.
pub open spec fn decrypt_spec(b64: Seq<char>) -> Option<JsonView> {
    match base64_decoding(encode_utf8(b64)) {
        None => None,
        Some(bytes) => json_decoding(bytes),
    }
}

/// Decodes a Base64 message body and reads it as JSON.
pub fn decrypt(b64_str: &str) -> (r: Result<Json, AppError>)
    ensures
        match r {
            Ok(j) => decrypt_spec(b64_str@) == Some(j@),
            Err(e) => match base64_decoding(encode_utf8(b64_str@)) {
                None => e is Base64,
                Some(bytes) => json_decoding(bytes) is None && e is Json,
            },
        },
{
    let decoded = match base64_decode(b64_str.as_bytes()) {
        Ok(b) => b,
        Err(source) => {
            return Err(AppError::Base64 { source });
        },
    };
    match json_from_bytes(decoded.as_slice()) {
        Ok(v) => Ok(v),
        Err(source) => Err(AppError::Json { source }),
    }
}

} // verus!
