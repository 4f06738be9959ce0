//! Uploading an image: the form that asks for an upload ticket, reading
//! the ticket the server answers with, and signing the direct upload to
//! object storage (OSS, signature version 1).

use vstd::prelude::*;
use crate::cookie::{cookie_uid_field, first_uid_field};
use crate::image::{
    build_oss_image_url, image_dimensions, image_resolution, oss_image_url, resolution_text,
};
use crate::json::{as_str_opt, fields_view, get, json_view, lemma_views, Json, JsonV};
use crate::outside::{
    b64_encode, b64_encoding, hex_encode, hex_lower_text, hmac_sha1, hmac_sha1_of, json_text_of, json_to_text, md5_digest,
    md5_of,
};
use vstd::utf8::encode_utf8;
use crate::text::{
    chars_eq_str, chars_of, chars_start_with, range_starts_with, starts_with, hex_lower, hex_lower_char, params_view, push_char, push_str, split,
    string_of_range, strip_trailing, strip_trailing_range, trim, trimmed_str,
};

verus! {

// ---------------------------------------------------------------------------
// Asking for an upload ticket
// ---------------------------------------------------------------------------

/// Why an upload stopped.
pub enum UploadError {
    /// No user id in the login cookie.
    NotLoggedIn,
    /// The server gave no usable ticket; the text says why.
    PrepareFailed(String),
    /// The ticket lacks a field the upload needs; the ticket's `data` is
    /// kept so that its JSON text can be shown.
    Incomplete(Json),
    /// The upload went through but no image address can be formed; the
    /// storage's answer is kept.
    Unexpected(String),
}

/// Model of an upload failure.
pub enum UploadErrorV {
    NotLoggedIn,
    PrepareFailed(Seq<char>),
    Incomplete(JsonV),
    Unexpected(Seq<char>),
}

pub open spec fn upload_error_view(e: UploadError) -> UploadErrorV {
    match e {
        UploadError::NotLoggedIn => UploadErrorV::NotLoggedIn,
        UploadError::PrepareFailed(m) => UploadErrorV::PrepareFailed(m@),
        UploadError::Incomplete(d) => UploadErrorV::Incomplete(json_view(d)),
        UploadError::Unexpected(b) => UploadErrorV::Unexpected(b@),
    }
}

/// The uploader and the receiver of the image: the cookie's `uid` is
/// needed in any case; the receiver is `to_uid` when given, else the
/// uploader.
pub open spec fn upload_target(cookie: Option<Seq<char>>, to_uid: Option<Seq<char>>) -> Option<Seq<char>> {
    match cookie {
        Some(c) => match first_uid_field(split(c, ';')) {
            Some(me) => match to_uid {
                Some(u) => Some(u),
                None => Some(me),
            },
            None => None,
        },
        None => None,
    }
}

/// The receiver of an upload, or `NotLoggedIn`.
pub fn upload_target_uid(cookie: Option<&str>, to_uid: Option<&str>) -> (r: Result<String, UploadError>)
    ensures
        match upload_target(
            match cookie {
                Some(c) => Some(c@),
                None => None,
            },
            match to_uid {
                Some(u) => Some(u@),
                None => None,
            },
        ) {
            Some(u) => r matches Ok(s) && s@ == u,
            None => r matches Err(UploadError::NotLoggedIn),
        },
{
    let me = match cookie {
        Some(c) => cookie_uid_field(c),
        None => None,
    };
    match me {
        Some(me) => match to_uid {
            Some(u) => Ok(u.to_string()),
            None => Ok(me),
        },
        None => Err(UploadError::NotLoggedIn),
    }
}

/// The storage bucket named in the ticket request: feed pictures go to
/// `image`, other uploads to the bucket named like their directory.
pub open spec fn upload_bucket_of(dir: Seq<char>) -> Seq<char> {
    if dir == "feed"@ {
        "image"@
    } else {
        dir
    }
}

/// `feed_type` of the ticket request.
pub open spec fn upload_feed_type_of(dir: Seq<char>) -> Seq<char> {
    if dir == "feed"@ {
        "feed"@
    } else {
        Seq::empty()
    }
}

/// The JSON list describing the file: `[{"md5":..,"name":..,"resolution":..}]`,
/// as serde_json writes it.
pub open spec fn upload_file_list(name: Seq<char>, resolution: Seq<char>, md5_hex: Seq<char>) -> Seq<char> {
    json_text_of(
        JsonV::Array(
            seq![
                JsonV::Object(
                    seq![
                        ("md5"@, JsonV::Str(md5_hex)),
                        ("name"@, JsonV::Str(name)),
                        ("resolution"@, JsonV::Str(resolution)),
                    ],
                ),
            ],
        ),
    )
}

/// The form of `/v6/upload/ossUploadPrepare`.
pub open spec fn prepare_form(file_list: Seq<char>, dir: Seq<char>, target_uid: Seq<char>) -> Seq<(Seq<char>, Seq<char>)> {
    seq![
        ("uploadBucket"@, upload_bucket_of(dir)),
        ("uploadDir"@, dir),
        ("is_anonymous"@, "0"@),
        ("uploadFileList"@, file_list),
        ("toUid"@, target_uid),
        ("feed_type"@, upload_feed_type_of(dir)),
    ]
}

/// The ticket request for an image: its MD5 (lower-case hexadecimal), its
/// resolution and its name describe the file.
pub fn upload_prepare_form(image_bytes: &[u8], file_name: &str, dir: &str, target_uid: &str) -> (r: Vec<(&'static str, String)>)
    ensures
        params_view(r@) == prepare_form(
            upload_file_list(
                file_name@,
                resolution_text(image_dimensions(image_bytes@)),
                hex_lower_text(md5_of(image_bytes@)),
            ),
            dir@,
            target_uid@,
        ),
{
    let digest = md5_digest(image_bytes);
    let md5_hex = hex_encode(digest.as_slice());
    let resolution = image_resolution(image_bytes);
    let mut entry: Vec<(String, Json)> = Vec::new();
    crate::feed::push_field(&mut entry, "md5", Json::Str(md5_hex.clone()));
    crate::feed::push_field(&mut entry, "name", Json::Str(file_name.to_string()));
    crate::feed::push_field(&mut entry, "resolution", Json::Str(resolution.clone()));
    let ghost ev = crate::json::fields_view(entry@);
    let obj = Json::Object(entry);
    proof {
        lemma_views(obj);
    }
    let ghost ov = json_view(obj);
    let mut items: Vec<Json> = Vec::new();
    items.push(obj);
    assert(crate::json::items_view(items@) =~= seq![ov]);
    let arr = Json::Array(items);
    proof {
        lemma_views(arr);
        assert(ev =~= seq![
            ("md5"@, JsonV::Str(md5_hex@)),
            ("name"@, JsonV::Str(file_name@)),
            ("resolution"@, JsonV::Str(resolution@)),
        ]);
        assert(ov == JsonV::Object(ev));
        assert(json_view(arr) == JsonV::Array(seq![JsonV::Object(ev)]));
    }
    let list = json_to_text(&arr);
    assert(list@ == upload_file_list(file_name@, resolution@, md5_hex@));
    let dc = chars_of(dir);
    let is_feed = chars_eq_str(&dc, "feed");
    let bucket = if is_feed {
        "image".to_string()
    } else {
        dir.to_string()
    };
    let feed_type = if is_feed {
        "feed".to_string()
    } else {
        String::new()
    };
    let mut r: Vec<(&'static str, String)> = Vec::new();
    r.push(("uploadBucket", bucket));
    r.push(("uploadDir", dir.to_string()));
    r.push(("is_anonymous", "0".to_string()));
    r.push(("uploadFileList", list));
    r.push(("toUid", target_uid.to_string()));
    r.push(("feed_type", feed_type));
    proof {
        assert(digest@ == md5_of(image_bytes@));
    }
    assert(params_view(r@) =~= prepare_form(list@, dir@, target_uid@));
    r
}

// ---------------------------------------------------------------------------
// Reading the ticket
// ---------------------------------------------------------------------------

/// What the upload needs from a ticket.
pub struct UploadTicket {
    pub upload_file_name: String,
    /// An address the server already holds for the same file; the upload
    /// is then skipped.
    pub existing_url: Option<String>,
    pub bucket: String,
    /// The origin the final image address is formed under.
    pub image_prefix: String,
    pub end_point: String,
    pub access_key_id: String,
    pub access_key_secret: String,
    pub security_token: String,
}

/// Model of a ticket.
pub struct UploadTicketV {
    pub upload_file_name: Seq<char>,
    pub existing_url: Option<Seq<char>>,
    pub bucket: Seq<char>,
    pub image_prefix: Seq<char>,
    pub end_point: Seq<char>,
    pub access_key_id: Seq<char>,
    pub access_key_secret: Seq<char>,
    pub security_token: Seq<char>,
}

pub open spec fn ticket_view(t: UploadTicket) -> UploadTicketV {
    UploadTicketV {
        upload_file_name: t.upload_file_name@,
        existing_url: match t.existing_url {
            Some(u) => Some(u@),
            None => None,
        },
        bucket: t.bucket@,
        image_prefix: t.image_prefix@,
        end_point: t.end_point@,
        access_key_id: t.access_key_id@,
        access_key_secret: t.access_key_secret@,
        security_token: t.security_token@,
    }
}

/// `message`, or `error` when there is no `message`, when it is a string.
pub open spec fn prepare_message(p: JsonV) -> Option<Seq<char>> {
    as_str_opt(
        match get(p, "message"@) {
            Some(v) => Some(v),
            None => get(p, "error"@),
        },
    )
}

/// A refused ticket request, explained by the response's message or by
/// `fallback`.
pub open spec fn prepare_failure(p: JsonV, fallback: Seq<char>) -> UploadErrorV {
    UploadErrorV::PrepareFailed(
        match prepare_message(p) {
            Some(m) => m,
            None => fallback,
        },
    )
}

/// A string field, empty when absent or not a string.
pub open spec fn text_field(v: JsonV, key: Seq<char>) -> Seq<char> {
    match as_str_opt(get(v, key)) {
        Some(s) => s,
        None => Seq::empty(),
    }
}

/// A string field that is not blank.
pub open spec fn filled_field(v: JsonV, key: Seq<char>) -> Option<Seq<char>> {
    match as_str_opt(get(v, key)) {
        Some(s) => if trim(s).len() > 0 {
            Some(s)
        } else {
            None
        },
        None => None,
    }
}

/// The origin of uploaded images: `uploadImagePrefix` when filled, else
/// `http://image.coolapk.com`; trailing `/` removed.
pub open spec fn image_prefix_of(info: JsonV) -> Seq<char> {
    strip_trailing(
        match filled_field(info, "uploadImagePrefix"@) {
            Some(p) => p,
            None => "http://image.coolapk.com"@,
        },
        '/',
    )
}

/// The ticket read from `fileInfo[0]` and `uploadPrepareInfo`.
pub open spec fn ticket_of(file_info: JsonV, info: JsonV) -> UploadTicketV {
    UploadTicketV {
        upload_file_name: text_field(file_info, "uploadFileName"@),
        existing_url: filled_field(file_info, "url"@),
        bucket: text_field(info, "bucket"@),
        image_prefix: image_prefix_of(info),
        end_point: text_field(info, "endPoint"@),
        access_key_id: text_field(info, "accessKeyId"@),
        access_key_secret: text_field(info, "accessKeySecret"@),
        security_token: text_field(info, "securityToken"@),
    }
}

/// A ticket lacks one of the file name, bucket, end point, key id and
/// key secret.
pub open spec fn ticket_incomplete(t: UploadTicketV) -> bool {
    t.upload_file_name.len() == 0 || t.bucket.len() == 0 || t.end_point.len() == 0
        || t.access_key_id.len() == 0 || t.access_key_secret.len() == 0
}

/// The first element of an array field.
pub open spec fn first_element(v: Option<JsonV>) -> Option<JsonV> {
    match v {
        Some(JsonV::Array(items)) => if items.len() > 0 {
            Some(items[0])
        } else {
            None
        },
        _ => None,
    }
}

/// What a ticket response gives: a message with no `data` is a refusal;
/// then `data`, `data.fileInfo[0]` and `data.uploadPrepareInfo` must be
/// present, and the ticket complete.
pub open spec fn upload_ticket(p: JsonV) -> Result<UploadTicketV, UploadErrorV> {
    let data = match get(p, "data"@) {
        Some(JsonV::Null) => None,
        d => d,
    };
    match prepare_message(p) {
        Some(m) if m.len() > 0 && data is None => Err(UploadErrorV::PrepareFailed(m)),
        _ => match data {
            None => Err(prepare_failure(p, "服务端未返回凭证数据"@)),
            Some(d) => match first_element(get(d, "fileInfo"@)) {
                None => Err(prepare_failure(p, "fileInfo 缺失"@)),
                Some(fi) => match get(d, "uploadPrepareInfo"@) {
                    None => Err(prepare_failure(p, "uploadPrepareInfo 缺失"@)),
                    Some(info) => {
                        let t = ticket_of(fi, info);
                        if ticket_incomplete(t) {
                            Err(UploadErrorV::Incomplete(d))
                        } else {
                            Ok(t)
                        }
                    },
                },
            },
        },
    }
}

/// `get(key).and_then(as_str)`, empty when absent.
fn text_of(v: &Json, key: &str) -> (r: String)
    ensures
        r@ == text_field(json_view(*v), key@),
{
    match v.get(key) {
        Some(x) => match x.as_str() {
            Some(s) => s.to_string(),
            None => String::new(),
        },
        None => String::new(),
    }
}

/// A filled string field.
fn filled_of(v: &Json, key: &str) -> (r: Option<String>)
    ensures
        match r {
            Some(s) => filled_field(json_view(*v), key@) == Some(s@),
            None => filled_field(json_view(*v), key@) is None,
        },
{
    match v.get(key) {
        Some(x) => match x.as_str() {
            Some(s) => {
                let t = trimmed_str(s);
                if t.len() > 0 {
                    Some(s.to_string())
                } else {
                    None
                }
            },
            None => None,
        },
        None => None,
    }
}

/// The message of a refused ticket request.
fn prepare_message_of(p: &Json) -> (r: Option<String>)
    ensures
        match r {
            Some(m) => prepare_message(json_view(*p)) == Some(m@),
            None => prepare_message(json_view(*p)) is None,
        },
{
    let v = match p.get("message") {
        Some(v) => Some(v),
        None => p.get("error"),
    };
    match v {
        Some(v) => match v.as_str() {
            Some(s) => Some(s.to_string()),
            None => None,
        },
        None => None,
    }
}

fn prepare_failure_of(p: &Json, fallback: &str) -> (r: UploadError)
    ensures
        upload_error_view(r) == prepare_failure(json_view(*p), fallback@),
{
    match prepare_message_of(p) {
        Some(m) => UploadError::PrepareFailed(m),
        None => UploadError::PrepareFailed(fallback.to_string()),
    }
}

/// Reads the answer of `/v6/upload/ossUploadPrepare`.
pub fn parse_upload_ticket(prepare: &Json) -> (r: Result<UploadTicket, UploadError>)
    ensures
        match upload_ticket(json_view(*prepare)) {
            Ok(t) => r matches Ok(x) && ticket_view(x) == t,
            Err(e) => r matches Err(x) && upload_error_view(x) == e,
        },
{
    let ghost pv = json_view(*prepare);
    let data = match prepare.get("data") {
        Some(Json::Null) => None,
        d => d,
    };
    assert(data matches Some(d) ==> get(pv, "data"@) == Some(json_view(*d)) && json_view(*d) != JsonV::Null);
    assert(data is None ==> (get(pv, "data"@) is None || get(pv, "data"@) == Some(JsonV::Null)));
    if let Some(m) = prepare_message_of(prepare) {
        if !m.as_str().is_empty() && data.is_none() {
            return Err(UploadError::PrepareFailed(m));
        }
    }
    let d = match data {
        Some(d) => d,
        None => {
            return Err(prepare_failure_of(prepare, "服务端未返回凭证数据"));
        },
    };
    let file_info = match d.get("fileInfo") {
        Some(Json::Array(items)) => {
            proof {
                lemma_views(Json::Array(*items));
            }
            if items.len() > 0 {
                Some(&items[0])
            } else {
                None
            }
        },
        _ => None,
    };
    let fi = match file_info {
        Some(fi) => fi,
        None => {
            return Err(prepare_failure_of(prepare, "fileInfo 缺失"));
        },
    };
    let info = match d.get("uploadPrepareInfo") {
        Some(info) => info,
        None => {
            return Err(prepare_failure_of(prepare, "uploadPrepareInfo 缺失"));
        },
    };
    let prefix = match filled_of(info, "uploadImagePrefix") {
        Some(p) => p,
        None => "http://image.coolapk.com".to_string(),
    };
    let pc = chars_of(prefix.as_str());
    let pb = strip_trailing_range(&pc, 0, pc.len(), '/');
    let image_prefix = string_of_range(&pc, 0, pb);
    proof {
        assert(pc@.subrange(0, pc@.len() as int) =~= pc@);
    }
    let t = UploadTicket {
        upload_file_name: text_of(fi, "uploadFileName"),
        existing_url: filled_of(fi, "url"),
        bucket: text_of(info, "bucket"),
        image_prefix,
        end_point: text_of(info, "endPoint"),
        access_key_id: text_of(info, "accessKeyId"),
        access_key_secret: text_of(info, "accessKeySecret"),
        security_token: text_of(info, "securityToken"),
    };
    assert(ticket_view(t) == ticket_of(json_view(*fi), json_view(*info)));
    if t.upload_file_name.as_str().is_empty() || t.bucket.as_str().is_empty()
        || t.end_point.as_str().is_empty() || t.access_key_id.as_str().is_empty()
        || t.access_key_secret.as_str().is_empty() {
        return Err(UploadError::Incomplete(d.deep_copy()));
    }
    Ok(t)
}

// ---------------------------------------------------------------------------
// Signing the direct upload
// ---------------------------------------------------------------------------

/// The upload callback the official client registers (base64 JSON).
pub const OSS_CALLBACK: &'static str = "eyJjYWxsYmFja0JvZHlUeXBlIjoiYXBwbGljYXRpb25cL2pzb24iLCJjYWxsYmFja0hvc3QiOiJhcGkuY29vbGFway5jb20iLCJjYWxsYmFja1VybCI6Imh0dHBzOlwvXC9hcGkuY29vbGFway5jb21cL3Y2XC9jYWxsYmFja1wvbW9iaWxlT3NzVXBsb2FkU3VjY2Vzc0NhbGxiYWNrP2NoZWNrQXJ0aWNsZUNvdmVyUmVzb2x1dGlvbj0wJnZlcnNpb25Db2RlPTIxMDIwMzEiLCJjYWxsYmFja0JvZHkiOiJ7XCJidWNrZXRcIjoke2J1Y2tldH0sXCJvYmplY3RcIjoke29iamVjdH0sXCJoYXNQcm9jZXNzXCI6JHt4OnZhcjF9fSJ9";

/// The callback's variables (base64 JSON).
pub const OSS_CALLBACK_VAR: &'static str = "eyJ4OnZhcjEiOiJmYWxzZSJ9";

/// `Content-MD5` of the upload: the base64 of the file's MD5 digest.
pub fn oss_content_md5(image_bytes: &[u8]) -> (r: String)
    ensures
        r@ == b64_encoding(md5_of(image_bytes@)),
{
    let digest = md5_digest(image_bytes);
    b64_encode(digest.as_slice())
}

/// The text an OSS V1 signature covers for the `PUT` of `/bucket/name`.
pub open spec fn oss_string_to_sign(
    content_md5: Seq<char>,
    content_type: Seq<char>,
    date: Seq<char>,
    security_token: Seq<char>,
    bucket: Seq<char>,
    file_name: Seq<char>,
) -> Seq<char> {
    "PUT\n"@ + content_md5 + "\n"@ + content_type + "\n"@ + date + "\nx-oss-callback:"@ + OSS_CALLBACK@
        + "\nx-oss-callback-var:"@ + OSS_CALLBACK_VAR@ + "\nx-oss-security-token:"@ + security_token
        + "\n/"@ + bucket + "/"@ + file_name
}

/// Builds `oss_string_to_sign`.
pub fn string_to_sign(
    content_md5: &str,
    content_type: &str,
    date: &str,
    security_token: &str,
    bucket: &str,
    file_name: &str,
) -> (r: String)
    ensures
        r@ == oss_string_to_sign(content_md5@, content_type@, date@, security_token@, bucket@, file_name@),
{
    let mut out = String::new();
    push_str(&mut out, "PUT\n");
    push_str(&mut out, content_md5);
    push_str(&mut out, "\n");
    push_str(&mut out, content_type);
    push_str(&mut out, "\n");
    push_str(&mut out, date);
    push_str(&mut out, "\nx-oss-callback:");
    push_str(&mut out, OSS_CALLBACK);
    push_str(&mut out, "\nx-oss-callback-var:");
    push_str(&mut out, OSS_CALLBACK_VAR);
    push_str(&mut out, "\nx-oss-security-token:");
    push_str(&mut out, security_token);
    push_str(&mut out, "\n/");
    push_str(&mut out, bucket);
    push_str(&mut out, "/");
    push_str(&mut out, file_name);
    assert(out@ =~= oss_string_to_sign(content_md5@, content_type@, date@, security_token@, bucket@, file_name@));
    out
}

/// `Authorization: OSS <key id>:<base64 of HMAC-SHA1(secret, text)>`.
pub open spec fn oss_authorization_of(access_key_id: Seq<char>, access_key_secret: Seq<char>, signed: Seq<char>) -> Seq<char> {
    "OSS "@ + access_key_id + ":"@ + b64_encoding(hmac_sha1_of(encode_utf8(access_key_secret), encode_utf8(signed)))
}

/// The `Authorization` header of the upload.
pub fn oss_authorization(access_key_id: &str, access_key_secret: &str, signed: &str) -> (r: String)
    ensures
        r@ == oss_authorization_of(access_key_id@, access_key_secret@, signed@),
{
    let tag = match hmac_sha1(access_key_secret.as_bytes(), signed.as_bytes()) {
        Some(tag) => tag,
        None => Vec::new(),
    };
    let signature = b64_encode(tag.as_slice());
    let mut out = String::new();
    push_str(&mut out, "OSS ");
    push_str(&mut out, access_key_id);
    push_str(&mut out, ":");
    push_str(&mut out, signature.as_str());
    assert(out@ =~= oss_authorization_of(access_key_id@, access_key_secret@, signed@));
    out
}

/// `str::replace(pattern, "")`: every occurrence of a non-empty pattern,
/// found left to right without overlap, removed.
pub open spec fn remove_all(s: Seq<char>, p: Seq<char>) -> Seq<char>
    decreases s.len(),
{
    if s.len() == 0 {
        s
    } else if p.len() > 0 && starts_with(s, p) {
        remove_all(s.skip(p.len() as int), p)
    } else {
        seq![s[0]] + remove_all(s.drop_first(), p)
    }
}

/// Removes every occurrence of `p` from `s`.
fn remove_all_of(s: &str, p: &str) -> (r: String)
    requires
        p@.len() > 0,
    ensures
        r@ == remove_all(s@, p@),
{
    let cs = chars_of(s);
    let pc = chars_of(p);
    let mut out = String::new();
    let mut i: usize = 0;
    assert(cs@.skip(0) =~= cs@);
    while i < cs.len()
        invariant
            i <= cs@.len(),
            cs@ == s@,
            pc@ == p@,
            pc@.len() > 0,
            out@ + remove_all(cs@.skip(i as int), p@) == remove_all(s@, p@),
        decreases cs@.len() - i,
    {
        let ghost rest = cs@.skip(i as int);
        assert(rest.len() > 0);
        if pc.len() <= cs.len() - i && range_starts_with(&cs, i, cs.len(), &pc) {
            assert(cs@.subrange(i as int, cs@.len() as int) =~= rest);
            assert(rest.skip(pc@.len() as int) =~= cs@.skip(i + pc@.len()));
            i = i + pc.len();
        } else {
            assert(cs@.subrange(i as int, cs@.len() as int) =~= rest);
            assert(!(p@.len() > 0 && starts_with(rest, p@)));
            assert(rest.drop_first() =~= cs@.skip(i + 1));
            assert(rest[0] == cs@[i as int]);
            push_char(&mut out, cs[i]);
            i = i + 1;
            assert(out@ + remove_all(cs@.skip(i as int), p@) =~= remove_all(s@, p@));
        }
    }
    assert(cs@.skip(i as int) =~= Seq::<char>::empty());
    assert(out@ + Seq::<char>::empty() =~= out@);
    out
}

/// The storage host: the end point with any `https://` and `http://`
/// removed (an end point not starting with `http` gets `https://` first).
pub open spec fn oss_host_of(end_point: Seq<char>) -> Seq<char> {
    let h = if starts_with(end_point, "http"@) {
        end_point
    } else {
        "https://"@ + end_point
    };
    remove_all(remove_all(h, "https://"@), "http://"@)
}

/// The address the file is `PUT` to: `https://<bucket>.<host>/<name>`.
pub open spec fn oss_object_url_of(bucket: Seq<char>, end_point: Seq<char>, file_name: Seq<char>) -> Seq<char> {
    "https://"@ + bucket + "."@ + oss_host_of(end_point) + "/"@ + file_name
}

/// Builds `oss_object_url_of`.
pub fn oss_object_url(bucket: &str, end_point: &str, file_name: &str) -> (r: String)
    ensures
        r@ == oss_object_url_of(bucket@, end_point@, file_name@),
{
    let ec = chars_of(end_point);
    let with_scheme = if chars_start_with(&ec, "http") {
        end_point.to_string()
    } else {
        let mut h = String::new();
        push_str(&mut h, "https://");
        push_str(&mut h, end_point);
        h
    };
    proof {
        reveal_strlit("https://");
        reveal_strlit("http://");
    }
    let a = remove_all_of(with_scheme.as_str(), "https://");
    let host = remove_all_of(a.as_str(), "http://");
    let mut out = String::new();
    push_str(&mut out, "https://");
    push_str(&mut out, bucket);
    push_str(&mut out, ".");
    push_str(&mut out, host.as_str());
    push_str(&mut out, "/");
    push_str(&mut out, file_name);
    assert(out@ =~= oss_object_url_of(bucket@, end_point@, file_name@));
    out
}

/// The image address after a successful upload, formed as the official
/// client does from the ticket's prefix and file name; the storage's
/// answer is kept for the error when none can be formed.
pub fn uploaded_image_address(image_prefix: &str, upload_file_name: &str, oss_body: &str) -> (r: Result<String, UploadError>)
    ensures
        match oss_image_url(image_prefix@, upload_file_name@) {
            Some(u) => r matches Ok(s) && s@ == u,
            None => r matches Err(UploadError::Unexpected(b)) && b@ == oss_body@,
        },
{
    match build_oss_image_url(image_prefix, upload_file_name) {
        Some(u) => Ok(u),
        None => Err(UploadError::Unexpected(oss_body.to_string())),
    }
}

impl UploadError {
    /// The text shown for the failure; for `Incomplete` the JSON text of
    /// the ticket's data follows it.
    pub fn message(&self) -> (r: String)
        ensures
            match self {
                UploadError::NotLoggedIn => r@ == "未登录，无法上传图片"@,
                UploadError::PrepareFailed(m) => r@ == "上传凭证获取失败（"@ + m@ + "）"@,
                UploadError::Incomplete(_) => r@ == "上传凭证不完整: "@,
                UploadError::Unexpected(b) => r@ == "OSS 直传响应异常: "@ + b@,
            },
    {
        match self {
            UploadError::NotLoggedIn => "未登录，无法上传图片".to_string(),
            UploadError::PrepareFailed(m) => {
                let mut out = String::new();
                push_str(&mut out, "上传凭证获取失败（");
                push_str(&mut out, m.as_str());
                push_str(&mut out, "）");
                out
            },
            UploadError::Incomplete(_) => "上传凭证不完整: ".to_string(),
            UploadError::Unexpected(b) => {
                let mut out = String::new();
                push_str(&mut out, "OSS 直传响应异常: ");
                push_str(&mut out, b.as_str());
                out
            },
        }
    }
}

/// The answer when the server already holds the same file: its address,
/// and the upload is skipped; `None` when the file must be uploaded.
pub open spec fn stored_upload(t: UploadTicketV) -> Option<JsonV> {
    match t.existing_url {
        Some(u) => Some(JsonV::Object(seq![("code"@, crate::feed::count(200)), ("data"@, JsonV::Str(u))])),
        None => None,
    }
}

/// Builds `stored_upload` for a ticket.
pub fn stored_upload_answer(ticket: &UploadTicket) -> (r: Option<Json>)
    ensures
        match r {
            Some(a) => stored_upload(ticket_view(*ticket)) == Some(json_view(a)),
            None => stored_upload(ticket_view(*ticket)) is None,
        },
{
    match &ticket.existing_url {
        Some(u) => {
            let mut out: Vec<(String, Json)> = Vec::new();
            assert(fields_view(out@) =~= Seq::<(Seq<char>, JsonV)>::empty());
            crate::feed::push_field(&mut out, "code", crate::feed::count_json(200));
            crate::feed::push_field(&mut out, "data", Json::Str(u.clone()));
            let ghost ov = fields_view(out@);
            let r = Json::Object(out);
            proof {
                lemma_views(r);
            }
            assert(ov =~= seq![("code"@, crate::feed::count(200)), ("data"@, JsonV::Str(u@))]);
            Some(r)
        },
        None => None,
    }
}

} // verus!
