use vstd::prelude::*;
use vstd::string::StringSliceAdditionalSpecFns;
use std::collections::BTreeMap;
use crate::text::pairs_view;
use hmac::Hmac;
use hmac::Mac;
use serde_json::value::RawValue;
use sha2::Sha256;

verus! {

/// What `base64::decode` makes of `text`: the bytes that it encodes in the
/// standard alphabet, or `None` where the crate reports a decoding error.
pub uninterp spec fn base64_decoded(text: Seq<u8>) -> Option<Seq<u8>>;

/// What `base64::decode_config` makes of `text` under `URL_SAFE_NO_PAD`: the
/// bytes that it encodes in the URL-safe alphabet, or `None` where the crate
/// reports a decoding error.
pub uninterp spec fn base64url_decoded(text: Seq<u8>) -> Option<Seq<u8>>;

/// The HMAC-SHA256 code of `message` under `key`, as the `hmac` and `sha2`
/// crates compute it.
pub uninterp spec fn hmac_sha256(key: Seq<u8>, message: Seq<u8>) -> Seq<u8>;

/// What `serde_json::from_slice` makes of `bytes` when asked for a map from
/// strings to raw values: the members of the JSON object that the bytes
/// hold, each as its name and the JSON text of its value, in the order of
/// the names; `None` where the bytes are not one JSON object.
pub uninterp spec fn json_object_members(bytes: Seq<u8>) -> Option<Seq<(Seq<char>, Seq<char>)>>;

/// What `serde_json::from_str` makes of `raw` when asked for a string: the
/// text of the JSON string that `raw` writes, `None` for anything else.
pub uninterp spec fn json_text(raw: Seq<char>) -> Option<Seq<char>>;

/// What `serde_json::from_str` makes of `raw` when asked for a signed 64-bit
/// integer: the number that `raw` writes, `None` for anything else.
pub uninterp spec fn json_integer(raw: Seq<char>) -> Option<i64>;

/// What `serde_json::from_str` makes of `raw` when asked for a list of
/// strings: the texts of the JSON array of strings that `raw` writes, in
/// order, `None` for anything else.
pub uninterp spec fn json_text_list(raw: Seq<char>) -> Option<Seq<Seq<char>>>;

/// Calls `base64::decode`. Trusted: the result is the named value
/// [`base64_decoded`] of the input, which only says that equal inputs decode
/// alike.
#[verifier::external_body]
pub(crate) fn decode_base64(text: &[u8]) -> (r: Option<Vec<u8>>)
    ensures
        match r {
            Some(bytes) => base64_decoded(text@) == Some(bytes@),
            None => base64_decoded(text@) is None,
        },
{
    base64::decode(text).ok()
}

/// Calls `base64::decode_config` with `base64::URL_SAFE_NO_PAD`. Trusted: the
/// result is the named value [`base64url_decoded`] of the input.
#[verifier::external_body]
pub(crate) fn decode_base64url(text: &[u8]) -> (r: Option<Vec<u8>>)
    ensures
        match r {
            Some(bytes) => base64url_decoded(text@) == Some(bytes@),
            None => base64url_decoded(text@) is None,
        },
{
    base64::decode_config(text, base64::URL_SAFE_NO_PAD).ok()
}

/// Keys an `Hmac<Sha256>` with `key`, feeds it `message` and calls
/// `Mac::verify_slice` on `tag`. Trusted: `verify_slice` accepts exactly the
/// code of the message, which it compares in constant time, and
/// `new_from_slice` takes a key of any length, so that the call that keys
/// the computation never fails.
#[verifier::external_body]
pub(crate) fn mac_matches(key: &[u8], message: &[u8], tag: &[u8]) -> (r: bool)
    ensures
        r == (tag@ == hmac_sha256(key@, message@)),
{
    match Hmac::<Sha256>::new_from_slice(key) {
        Ok(mut mac) => {
            mac.update(message);
            mac.verify_slice(tag).is_ok()
        },
        Err(_) => false,
    }
}

/// Calls `serde_json::from_slice` for a `BTreeMap` from `String` to
/// `Box<RawValue>` and hands out each member as its name and
/// `RawValue::get`. Trusted: the result is the named value
/// [`json_object_members`] of the input.
#[verifier::external_body]
pub(crate) fn parse_object(bytes: &[u8]) -> (r: Option<Vec<(String, String)>>)
    ensures
        match r {
            Some(members) => json_object_members(bytes@) == Some(pairs_view(members@)),
            None => json_object_members(bytes@) is None,
        },
{
    let members = serde_json::from_slice::<BTreeMap<String, Box<RawValue>>>(bytes).ok()?;
    Some(members.into_iter().map(|(name, value)| (name, value.get().to_owned())).collect())
}

/// Calls `serde_json::from_str` for a `String`. Trusted: the result is the
/// named value [`json_text`] of the input.
#[verifier::external_body]
pub(crate) fn parse_text(raw: &str) -> (r: Option<String>)
    ensures
        match r {
            Some(text) => json_text(raw@) == Some(text@),
            None => json_text(raw@) is None,
        },
{
    serde_json::from_str::<String>(raw).ok()
}

/// Calls `serde_json::from_str` for an `i64`. Trusted: the result is the
/// named value [`json_integer`] of the input.
#[verifier::external_body]
pub(crate) fn parse_integer(raw: &str) -> (r: Option<i64>)
    ensures
        r == json_integer(raw@),
{
    serde_json::from_str::<i64>(raw).ok()
}

/// Calls `serde_json::from_str` for a `Vec<String>`. Trusted: the result is
/// the named value [`json_text_list`] of the input.
#[verifier::external_body]
pub(crate) fn parse_text_list(raw: &str) -> (r: Option<Vec<String>>)
    ensures
        match r {
            Some(texts) => json_text_list(raw@) == Some(texts.deep_view()),
            None => json_text_list(raw@) is None,
        },
{
    serde_json::from_str::<Vec<String>>(raw).ok()
}

/// The bytes that stay as they are in a percent-encoded text: ASCII letters
/// and digits, `-`, `.`, `_` and `~`.
pub open spec fn is_unreserved(byte: u8) -> bool {
    ||| 0x30 <= byte <= 0x39
    ||| 0x41 <= byte <= 0x5a
    ||| 0x61 <= byte <= 0x7a
    ||| byte == 0x2d
    ||| byte == 0x2e
    ||| byte == 0x5f
    ||| byte == 0x7e
}

/// The upper-case hexadecimal digit for a value below sixteen.
pub open spec fn hex_digit(value: int) -> char {
    if value < 10 {
        (0x30 + value) as u8 as char
    } else {
        (0x41 + value - 10) as u8 as char
    }
}

/// One byte, percent-encoded.
pub open spec fn percent_encoded_byte(byte: u8) -> Seq<char> {
    if is_unreserved(byte) {
        seq![byte as char]
    } else {
        seq!['%', hex_digit(byte as int / 16), hex_digit(byte as int % 16)]
    }
}

/// A run of bytes, percent-encoded byte by byte.
pub open spec fn percent_encoded(bytes: Seq<u8>) -> Seq<char>
    decreases bytes.len(),
{
    if bytes.len() == 0 {
        Seq::empty()
    } else {
        percent_encoded(bytes.drop_last()) + percent_encoded_byte(bytes.last())
    }
}

/// Calls `urlencoding::encode`. Trusted: as the crate documents, every byte
/// of the UTF-8 form of `text` is percent-encoded except letters, digits,
/// `-`, `_`, `.` and `~`, with upper-case hexadecimal digits.
#[verifier::external_body]
pub(crate) fn percent_encode(text: &str) -> (r: String)
    ensures
        r@ == percent_encoded(text.spec_bytes()),
{
    urlencoding::encode(text).into_owned()
}

} // verus!
