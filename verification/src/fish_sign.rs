//! The signing helpers of the first fish adapter: placeholders that keep the shape of the
//! real ones, and random identifiers.
use vstd::prelude::*;
use vstd::utf8::encode_utf8;

use crate::codec::{
    base64_decode, base64_decoding, json_decoding, json_from_bytes, random_uuid_text, uuid_v4_text, utf8_lossy,
    from_utf8_lossy,
};
use crate::error::AppError;
use crate::json::{Json, JsonView};
use crate::text::{owned, push_str};

verus! {

/// The placeholder signature: `t_token_data`. Never fails.
pub fn generate_sign(t: &str, token: &str, data: &str) -> (r: Result<String, AppError>)
    ensures
        r matches Ok(s) && s@ == t@ + "_"@ + token@ + "_"@ + data@,
{
    let mut out = owned(t);
    push_str(&mut out, "_");
    push_str(&mut out, token);
    push_str(&mut out, "_");
    push_str(&mut out, data);
    Ok(out)
}

/// A frame id: a fresh random UUID in its hyphenated lower-case form.
pub fn generate_mid() -> (r: String)
    ensures
        uuid_v4_text(r@),
{
    random_uuid_text()
}

/// A send id: a fresh random UUID in its hyphenated lower-case form.
pub fn generate_uuid() -> (r: String)
    ensures
        uuid_v4_text(r@),
{
    random_uuid_text()
}

/// The placeholder device id: `device_` and the user id.
pub fn generate_device_id(user_id: &str) -> (r: String)
    ensures
        r@ == "device_"@ + user_id@,
{
    let mut out = owned("device_");
    push_str(&mut out, user_id);
    out
}

/// What decrypting a body gives: the JSON read from the lossy text of its Base64 bytes.
pub open spec fn lossy_decrypt_spec(b64: Seq<char>) -> Option<JsonView> {
    match base64_decoding(encode_utf8(b64)) {
        None => None,
        Some(bytes) => json_decoding(encode_utf8(utf8_lossy(bytes))),
    }
}

/// Decodes a Base64 body, reads its bytes as text (invalid UTF-8 replaced), and parses it.
pub fn decrypt(b64_str: &str) -> (r: Result<Json, AppError>)
    ensures
        match r {
            Ok(j) => lossy_decrypt_spec(b64_str@) == Some(j@),
            Err(e) => match base64_decoding(encode_utf8(b64_str@)) {
                None => e is Base64,
                Some(bytes) => json_decoding(encode_utf8(utf8_lossy(bytes))) is None && e is Json,
            },
        },
{
    let decoded = match base64_decode(b64_str.as_bytes()) {
        Ok(b) => b,
        Err(source) => {
            return Err(AppError::Base64 { source });
        },
    };
    let text = from_utf8_lossy(decoded.as_slice());
    match json_from_bytes(text.as_str().as_bytes()) {
        Ok(v) => Ok(v),
        Err(source) => Err(AppError::Json { source }),
    }
}

} // verus!
