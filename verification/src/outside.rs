//! Calls into the outside crates and into std functions that vstd leaves
//! unspecified. Each function here makes one call; its contract is what the
//! crate's source or documentation shows, and is believed without proof.

use vstd::prelude::*;
use base64::Engine;
use hmac::Mac;
use md5::Digest;
use serde_json::Value;
use crate::json::{json_view, Json, JsonNumber, JsonV};
use crate::text::is_ascii_alnum;

verus! {

/// `base64::DecodeError`, carried opaquely.
#[verifier::external_type_specification]
#[verifier::external_body]
pub struct ExDecodeError(base64::DecodeError);

// ---------------------------------------------------------------------------
// MD5 (md-5)
// ---------------------------------------------------------------------------

/// The MD5 digest of a byte string.
pub uninterp spec fn md5_of(data: Seq<u8>) -> Seq<u8>;

/// `Md5::digest`: the 16-byte MD5 digest of `data`.
#[verifier::external_body]
pub(crate) fn md5_digest(data: &[u8]) -> (r: Vec<u8>)
    ensures
        r@ == md5_of(data@),
        r@.len() == 16,
{
    md5::Md5::digest(data).to_vec()
}

// ---------------------------------------------------------------------------
// HMAC-SHA1 (hmac + sha1)
// ---------------------------------------------------------------------------

/// The HMAC-SHA1 tag of `message` under `key`.
pub uninterp spec fn hmac_sha1_of(key: Seq<u8>, message: Seq<u8>) -> Seq<u8>;

/// `Hmac::<Sha1>::new_from_slice(key)`, `update(message)`, `finalize()`.
/// HMAC accepts keys of any length, so the key is never refused; the tag
/// has SHA-1's 20 bytes.
#[verifier::external_body]
pub(crate) fn hmac_sha1(key: &[u8], message: &[u8]) -> (r: Option<Vec<u8>>)
    ensures
        r is Some,
        r matches Some(tag) ==> tag@ == hmac_sha1_of(key@, message@) && tag@.len() == 20,
{
    let mut mac = match hmac::Hmac::<sha1::Sha1>::new_from_slice(key) {
        Ok(mac) => mac,
        Err(_) => return None,
    };
    mac.update(message);
    Some(mac.finalize().into_bytes().to_vec())
}

// ---------------------------------------------------------------------------
// Base64, standard alphabet with padding (base64)
// ---------------------------------------------------------------------------

/// A character of the standard base64 alphabet.
pub open spec fn b64_symbol(c: char) -> bool {
    is_ascii_alnum(c) || c == '+' || c == '/'
}

/// Number of `=` the padded encoding of `n` bytes ends with.
pub open spec fn b64_padding(n: nat) -> nat {
    if n % 3 == 0 {
        0
    } else {
        (3 - n % 3) as nat
    }
}

/// The padded standard base64 encoding of a byte string.
pub uninterp spec fn b64_encoding(data: Seq<u8>) -> Seq<char>;

/// The bytes a padded standard base64 text decodes to, if it is valid.
pub uninterp spec fn b64_decoding(text: Seq<u8>) -> Option<Seq<u8>>;

/// `general_purpose::STANDARD.encode(data)`: groups of four symbols, the
/// last group padded with `=` for a partial final block; decoding the text
/// gives the data back. The length bound keeps the crate's output-size
/// computation from overflowing.
#[verifier::external_body]
pub(crate) fn b64_encode(data: &[u8]) -> (r: String)
    requires
        data@.len() <= usize::MAX / 2,
    ensures
        r@ == b64_encoding(data@),
        r@.len() == 4 * ((data@.len() + 2) / 3),
        forall|i: int| 0 <= i < r@.len() - b64_padding(data@.len()) ==> b64_symbol(#[trigger] r@[i]),
        forall|i: int| r@.len() - b64_padding(data@.len()) <= i < r@.len() ==> #[trigger] r@[i] == '=',
        b64_decoding(vstd::utf8::encode_utf8(r@)) == Some(data@),
{
    base64::engine::general_purpose::STANDARD.encode(data)
}

/// `general_purpose::STANDARD.decode(text)`.
#[verifier::external_body]
pub(crate) fn b64_decode(text: &[u8]) -> (r: Result<Vec<u8>, base64::DecodeError>)
    ensures
        match r {
            Ok(v) => b64_decoding(text@) == Some(v@),
            Err(_) => b64_decoding(text@) == None::<Seq<u8>>,
        },
{
    base64::engine::general_purpose::STANDARD.decode(text)
}

/// The bytes an unpadded standard base64 text decodes to, if it is valid.
pub uninterp spec fn b64_nopad_decoding(text: Seq<u8>) -> Option<Seq<u8>>;

/// `general_purpose::STANDARD_NO_PAD.decode(text)`.
#[verifier::external_body]
pub(crate) fn b64_decode_no_pad(text: &[u8]) -> (r: Result<Vec<u8>, base64::DecodeError>)
    ensures
        match r {
            Ok(v) => b64_nopad_decoding(text@) == Some(v@),
            Err(_) => b64_nopad_decoding(text@) == None::<Seq<u8>>,
        },
{
    base64::engine::general_purpose::STANDARD_NO_PAD.decode(text)
}

// ---------------------------------------------------------------------------
// Hexadecimal (hex)
// ---------------------------------------------------------------------------

pub open spec fn hex_pair(b: u8) -> Seq<char> {
    seq![crate::text::hex_lower((b / 16) as int), crate::text::hex_lower((b % 16) as int)]
}

/// Two lower-case hexadecimal digits per byte.
pub open spec fn hex_lower_text(data: Seq<u8>) -> Seq<char>
    decreases data.len(),
{
    if data.len() == 0 {
        Seq::empty()
    } else {
        hex_lower_text(data.drop_last()) + hex_pair(data.last())
    }
}

/// `hex::encode`: each byte as two lower-case hexadecimal digits.
#[verifier::external_body]
pub(crate) fn hex_encode(data: &[u8]) -> (r: String)
    ensures
        r@ == hex_lower_text(data@),
{
    hex::encode(data)
}

// ---------------------------------------------------------------------------
// UTF-8 (std)
// ---------------------------------------------------------------------------

/// `std::str::from_utf8(bytes).ok()`, owned: the text when the bytes are
/// valid UTF-8.
#[verifier::external_body]
pub(crate) fn utf8_text(bytes: &[u8]) -> (r: Option<String>)
    ensures
        r is Some <==> vstd::utf8::valid_utf8(bytes@),
        r matches Some(s) ==> s@ == vstd::utf8::decode_utf8(bytes@),
{
    match std::str::from_utf8(bytes) {
        Ok(s) => Some(s.to_string()),
        Err(_) => None,
    }
}

/// What `String::from_utf8_lossy` makes of a byte string.
pub uninterp spec fn utf8_lossy(bytes: Seq<u8>) -> Seq<char>;

/// `String::from_utf8_lossy(bytes).into_owned()`: invalid sequences become
/// U+FFFD; valid UTF-8 is decoded unchanged.
#[verifier::external_body]
pub(crate) fn utf8_lossy_text(bytes: &[u8]) -> (r: String)
    ensures
        r@ == utf8_lossy(bytes@),
        vstd::utf8::valid_utf8(bytes@) ==> r@ == vstd::utf8::decode_utf8(bytes@),
{
    String::from_utf8_lossy(bytes).into_owned()
}

/// The text of a base64 decoding failure (`DecodeError`'s `Display`).
#[verifier::external_body]
pub(crate) fn decode_error_text(e: &base64::DecodeError) -> (r: String) {
    e.to_string()
}

// ---------------------------------------------------------------------------
// Paths (std::path)
//
// How a path's text splits into components depends on the platform the
// library is built for, so these results get no name; each contract says
// only what holds on every platform.
// ---------------------------------------------------------------------------

/// `Path::file_stem`: when present, a non-empty part of the path's text.
/// Where every platform reads the same file name (`portable_file_name`),
/// std documents the stem: `name_stem` of that name.
#[verifier::external_body]
pub(crate) fn path_file_stem(path: &str) -> (r: Option<String>)
    ensures
        r matches Some(s) ==> s@.len() > 0 && crate::text::contains(path@, s@),
        match r {
            Some(s) => crate::downloads::portable_file_name(path@) matches Some(n) ==> s@
                == crate::downloads::name_stem(n),
            None => crate::downloads::portable_file_name(path@) is None,
        },
{
    std::path::Path::new(path).file_stem().and_then(|v| v.to_str()).map(|v| v.to_string())
}

/// `Path::file_name`: when present, a non-empty part of the path's text,
/// neither `.` nor `..`; where every platform reads the same file name
/// (`portable_file_name`), that name.
#[verifier::external_body]
pub(crate) fn path_file_name(path: &str) -> (r: Option<String>)
    ensures
        r matches Some(s) ==> s@.len() > 0 && crate::text::contains(path@, s@) && s@ != "."@
            && s@ != ".."@,
        match r {
            Some(s) => crate::downloads::portable_file_name(path@) matches Some(n) ==> s@ == n,
            None => crate::downloads::portable_file_name(path@) is None,
        },
{
    std::path::Path::new(path).file_name().and_then(|v| v.to_str()).map(|v| v.to_string())
}

/// `Path::extension`: when present, the text after a `.` in the path,
/// itself without `.`. For a path that is one plain name (no `/`, `\\` or
/// `:`, so one normal component on every platform), std documents the
/// result: `name_extension` of the name.
#[verifier::external_body]
pub(crate) fn path_extension(path: &str) -> (r: Option<String>)
    ensures
        r matches Some(e) ==> crate::text::contains(path@, seq!['.'] + e@) && !crate::text::contains(
            e@,
            seq!['.'],
        ),
        crate::downloads::plain_file_name(path@) ==> match r {
            Some(e) => crate::downloads::name_extension(path@) == Some(e@),
            None => crate::downloads::name_extension(path@) is None,
        },
{
    std::path::Path::new(path).extension().and_then(|v| v.to_str()).map(|v| v.to_string())
}

/// `Path::is_absolute`: on Unix a path is absolute when it starts with `/`;
/// on Windows it needs a prefix (a drive `X:` or one starting with `\`).
/// So a path that starts with no separator and has no `:` is absolute on
/// no platform. Which of the other paths are absolute depends on the
/// platform the program was built for, which nothing here names, so that
/// is left unsaid.
#[verifier::external_body]
pub(crate) fn path_is_absolute(path: &str) -> (r: bool)
    ensures
        r ==> path@.len() > 0,
        crate::downloads::surely_relative(path@) ==> !r,
{
    std::path::Path::new(path).is_absolute()
}

/// `Path == Path`: paths are compared by their components, so paths with
/// the same text are equal, and two paths that are each one ordinary
/// component are equal exactly when their texts are.
#[verifier::external_body]
pub(crate) fn path_components_equal(left: &str, right: &str) -> (r: bool)
    ensures
        left@ == right@ ==> r,
        crate::downloads::plain_component(left@) && crate::downloads::plain_component(right@) ==> r
            == (left@ == right@),
{
    std::path::Path::new(left) == std::path::Path::new(right)
}

/// `Path::with_file_name`: the path with its last component replaced by
/// `name`. For a name that is one ordinary component the result ends with
/// it (a name with separators or `.`/`..` may be rebuilt, as under a
/// Windows verbatim prefix), and a path that is itself one ordinary
/// component (whose parent is the empty path) becomes just the name.
#[verifier::external_body]
pub(crate) fn path_with_file_name(path: &str, name: &str) -> (r: String)
    ensures
        crate::downloads::plain_component(name@) ==> crate::text::ends_with(r@, name@),
        crate::downloads::plain_component(name@) && crate::downloads::plain_component(path@) ==> r@
            == name@,
{
    std::path::Path::new(path).with_file_name(name).to_string_lossy().into_owned()
}

// ---------------------------------------------------------------------------
// URLs (reqwest / url)
// ---------------------------------------------------------------------------

/// The last path segment of a URL, as `Url::parse` and `path_segments`
/// give it; `None` when the URL does not parse or cannot have segments.
pub uninterp spec fn url_last_segment_of(url: Seq<char>) -> Option<Seq<char>>;

/// `reqwest::Url::parse(url)`, then the last of `path_segments()`.
#[verifier::external_body]
pub(crate) fn url_last_segment(url: &str) -> (r: Option<String>)
    ensures
        match r {
            Some(s) => url_last_segment_of(url@) == Some(s@),
            None => url_last_segment_of(url@) is None,
        },
{
    reqwest::Url::parse(url).ok().and_then(|parsed| {
        parsed.path_segments().and_then(|mut segments| segments.next_back()).map(|s| s.to_string())
    })
}

/// The scheme and host of a URL as `Url::parse` reads it (the host empty
/// when the URL has none); when the text does not parse, the text of the
/// parse error.
pub uninterp spec fn url_scheme_host_of(url: Seq<char>) -> Result<(Seq<char>, Seq<char>), Seq<char>>;

/// `reqwest::Url::parse(url)`, then `scheme()` and `host_str()`; when the
/// text does not parse, the parse error's `Display` text.
#[verifier::external_body]
pub(crate) fn url_scheme_host(url: &str) -> (r: Result<(String, String), String>)
    ensures
        url_scheme_host_of(url@) == match r {
            Ok((scheme, host)) => Ok((scheme@, host@)),
            Err(e) => Err(e@),
        },
{
    match reqwest::Url::parse(url) {
        Ok(parsed) => Ok((parsed.scheme().to_string(), parsed.host_str().unwrap_or_default().to_string())),
        Err(e) => Err(e.to_string()),
    }
}

/// A URL after an attempt to change its scheme: whether the change was
/// accepted, and the URL's text afterwards; `None` when the text does not
/// parse.
pub uninterp spec fn url_rescheme_of(url: Seq<char>, scheme: Seq<char>) -> Option<(bool, Seq<char>)>;

/// `reqwest::Url::parse(url)`, `set_scheme(scheme)`, then `to_string()`.
#[verifier::external_body]
pub(crate) fn url_rescheme(url: &str, scheme: &str) -> (r: Option<(bool, String)>)
    ensures
        match r {
            Some((accepted, text)) => url_rescheme_of(url@, scheme@) == Some((accepted, text@)),
            None => url_rescheme_of(url@, scheme@) is None,
        },
{
    match reqwest::Url::parse(url) {
        Ok(mut parsed) => {
            let accepted = parsed.set_scheme(scheme).is_ok();
            Some((accepted, parsed.to_string()))
        },
        Err(_) => None,
    }
}

/// A URL's text after appending one query pair; `None` when the URL does
/// not parse.
pub uninterp spec fn url_append_pair_of(url: Seq<char>, key: Seq<char>, value: Seq<char>) -> Option<Seq<char>>;

/// `reqwest::Url::parse(url)`, `query_pairs_mut().append_pair(key, value)`,
/// then `to_string()`.
#[verifier::external_body]
pub(crate) fn url_append_pair(url: &str, key: &str, value: &str) -> (r: Option<String>)
    ensures
        match r {
            Some(u) => url_append_pair_of(url@, key@, value@) == Some(u@),
            None => url_append_pair_of(url@, key@, value@) is None,
        },
{
    let mut parsed = reqwest::Url::parse(url).ok()?;
    parsed.query_pairs_mut().append_pair(key, value);
    Some(parsed.to_string())
}

// ---------------------------------------------------------------------------
// JSON text (serde_json)
// ---------------------------------------------------------------------------

/// `serde_json::Value`, carried opaquely.
#[verifier::external_type_specification]
#[verifier::external_body]
pub struct ExJsonValue(serde_json::Value);

/// The value `serde_json` reads from a text, in the library's form;
/// `None` when the text is not JSON.
pub uninterp spec fn json_text_value(text: Seq<char>) -> Option<JsonV>;

/// `serde_json::from_str::<serde_json::Value>(text)`, the value then
/// carried over into the library's form, variant by variant. A string
/// inside a JSON text is shorter than the text, which also holds its
/// quotes.
#[verifier::external_body]
pub(crate) fn parse_json_text(text: &str) -> (r: Option<Json>)
    ensures
        match r {
            Some(j) => json_text_value(text@) == Some(json_view(j)),
            None => json_text_value(text@) is None,
        },
        r matches Some(j) ==> crate::topic::max_str_len(json_view(j)) < text@.len(),
{
    serde_json::from_str::<serde_json::Value>(text).ok().map(json_of_value)
}

/// The compact text `serde_json::to_string` writes for a value.
pub uninterp spec fn json_text_of(v: JsonV) -> Seq<char>;

/// `serde_json::to_string` of the value carried over into a
/// `serde_json::Value`, variant by variant. Writing a `Value` cannot fail
/// (its keys are strings and its numbers finite), so the empty fallback
/// is never taken.
#[verifier::external_body]
pub(crate) fn json_to_text(value: &Json) -> (r: String)
    ensures
        r@ == json_text_of(json_view(*value)),
{
    serde_json::to_string(&value_of_json(value)).unwrap_or_default()
}

/// Carries the library's JSON over into a `serde_json::Value`: a float by
/// the number its text reads as.
#[verifier::external_body]
fn value_of_json(j: &Json) -> Value {
    match j {
        Json::Null => Value::Null,
        Json::Bool(b) => Value::Bool(*b),
        Json::Number(JsonNumber::PosInt(u)) => Value::from(*u),
        Json::Number(JsonNumber::NegInt(i)) => Value::from(*i),
        Json::Number(JsonNumber::Float(t)) => serde_json::from_str(t).unwrap_or(Value::Null),
        Json::Str(s) => Value::String(s.clone()),
        Json::Array(a) => Value::Array(a.iter().map(value_of_json).collect()),
        Json::Object(f) => Value::Object(f.iter().map(|(k, v)| (k.clone(), value_of_json(v))).collect()),
    }
}

/// Carries a `serde_json::Value` over into the library's form: numbers as
/// serde_json keeps them (a float by its text), arrays and objects in
/// their order.
#[verifier::external_body]
fn json_of_value(v: Value) -> Json {
    match v {
        Value::Null => Json::Null,
        Value::Bool(b) => Json::Bool(b),
        Value::Number(n) => Json::Number(match (n.as_u64(), n.as_i64()) {
            (Some(u), _) => JsonNumber::PosInt(u),
            (None, Some(i)) => JsonNumber::NegInt(i),
            _ => JsonNumber::Float(n.to_string()),
        }),
        Value::String(s) => Json::Str(s),
        Value::Array(a) => Json::Array(a.into_iter().map(json_of_value).collect()),
        Value::Object(m) => Json::Object(m.into_iter().map(|(k, v)| (k, json_of_value(v))).collect()),
    }
}

// ---------------------------------------------------------------------------
// Unicode case (std)
// ---------------------------------------------------------------------------

/// What `str::to_lowercase` makes of a text (full Unicode case mapping).
pub uninterp spec fn unicode_lower(s: Seq<char>) -> Seq<char>;

/// `str::to_lowercase`.
#[verifier::external_body]
pub(crate) fn to_lowercase(s: &str) -> (r: String)
    ensures
        r@ == unicode_lower(s@),
{
    s.to_lowercase()
}

// ---------------------------------------------------------------------------
// Header values (http, through reqwest)
// ---------------------------------------------------------------------------

/// `reqwest::header::HeaderValue::from_str` succeeds exactly when every byte
/// of the text is a tab, or at least 32 and not 127 (`is_valid` in http's
/// `header/value.rs`). The bytes of a character beyond ASCII are all 128 or
/// more, so the rule reads the same over characters (`valid_header_value`).
#[verifier::external_body]
pub(crate) fn header_value_accepted(s: &str) -> (r: bool)
    ensures
        r == crate::requests::valid_header_value(s@),
{
    reqwest::header::HeaderValue::from_str(s).is_ok()
}

/// The text of an HTTP status as http's `StatusCode` displays it: the code,
/// a space and its canonical reason (`404 Not Found`); for a number that is
/// no status code, the text of the conversion error.
pub uninterp spec fn status_text_of(code: u16) -> Seq<char>;

/// `reqwest::StatusCode::from_u16(code)`, then its `Display` text (or that
/// of the error).
#[verifier::external_body]
pub(crate) fn status_text(code: u16) -> (r: String)
    ensures
        r@ == status_text_of(code),
{
    match reqwest::StatusCode::from_u16(code) {
        Ok(status) => status.to_string(),
        Err(e) => e.to_string(),
    }
}

} // verus!
