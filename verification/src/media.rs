//! Fetching media on the user's behalf: which image addresses may be
//! fetched and with what credentials, how a fetched image becomes a data
//! URL, how a Live Photo's video is asked for and found, and what the Weibo
//! video proxy accepts and answers.

use vstd::prelude::*;
use crate::feed::{index_of_field, index_of_key};
use crate::json::{fields_view, items_view, json_view, lemma_views, Json, JsonV};
use crate::outside::{
    b64_encode, b64_encoding, url_rescheme, url_rescheme_of, url_scheme_host, url_scheme_host_of,
};
use crate::text::{
    chars_eq_str, chars_of, chars_start_with, eq_ic, is_control, is_control_char, lower_chars,
    lower_seq, push_str, starts_with, string_of, trim, trimmed_str, utf8_len, utf8_len_capped,
};
use crate::url::{is_coolapk_host, is_weibo_image_host, is_weibo_video_host, under_domain};

verus! {

// ---------------------------------------------------------------------------
// Image fetching
// ---------------------------------------------------------------------------

/// Hosts an image is never fetched from: none, the local machine, and the
/// private ranges the client rules out by prefix.
pub open spec fn blocked_image_host(h: Seq<char>) -> bool {
    ||| h.len() == 0
    ||| h == "localhost"@
    ||| h == "127.0.0.1"@
    ||| h == "0.0.0.0"@
    ||| starts_with(h, "192.168."@)
    ||| starts_with(h, "10."@)
    ||| starts_with(h, "172.16."@)
    ||| starts_with(h, "172.17."@)
    ||| starts_with(h, "172.18."@)
    ||| starts_with(h, "172.19."@)
    ||| starts_with(h, "172.20."@)
    ||| starts_with(h, "172.30."@)
    ||| starts_with(h, "172.31."@)
}

/// How an image is fetched.
pub struct ImageFetchPlan {
    /// The address to fetch (plain HTTP upgraded to HTTPS).
    pub url: String,
    /// The host, lower-cased.
    pub host: String,
    /// The image is served by the API hosts, which want the app's token
    /// and device headers.
    pub api_host: bool,
    /// The `Referer` sent to other hosts.
    pub referer: String,
    /// The login cookie (without `DDID`) goes along: Coolapk hosts only.
    pub send_cookie: bool,
}

pub struct ImageFetchPlanV {
    pub url: Seq<char>,
    pub host: Seq<char>,
    pub api_host: bool,
    pub referer: Seq<char>,
    pub send_cookie: bool,
}

pub open spec fn plan_view(p: ImageFetchPlan) -> ImageFetchPlanV {
    ImageFetchPlanV {
        url: p.url@,
        host: p.host@,
        api_host: p.api_host,
        referer: p.referer@,
        send_cookie: p.send_cookie,
    }
}

/// Why an image was not fetched or not accepted.
pub enum ImageFetchError {
    /// The address does not parse; the parser's text.
    InvalidUrl(String),
    DisallowedScheme,
    /// The host is local or private.
    PrivateHost(String),
    UpgradeFailed,
    /// The server answered with this HTTP status.
    HttpStatus(String),
    /// The answer is not an image; its content type.
    UnexpectedType(String),
    TooLarge,
}

pub enum ImageFetchErrorV {
    InvalidUrl(Seq<char>),
    DisallowedScheme,
    PrivateHost(Seq<char>),
    UpgradeFailed,
    HttpStatus(Seq<char>),
    UnexpectedType(Seq<char>),
    TooLarge,
}

pub open spec fn image_error_view(e: ImageFetchError) -> ImageFetchErrorV {
    match e {
        ImageFetchError::InvalidUrl(e) => ImageFetchErrorV::InvalidUrl(e@),
        ImageFetchError::DisallowedScheme => ImageFetchErrorV::DisallowedScheme,
        ImageFetchError::PrivateHost(h) => ImageFetchErrorV::PrivateHost(h@),
        ImageFetchError::UpgradeFailed => ImageFetchErrorV::UpgradeFailed,
        ImageFetchError::HttpStatus(s) => ImageFetchErrorV::HttpStatus(s@),
        ImageFetchError::UnexpectedType(t) => ImageFetchErrorV::UnexpectedType(t@),
        ImageFetchError::TooLarge => ImageFetchErrorV::TooLarge,
    }
}

/// The plan for fetching `source`: only HTTP(S) addresses on public hosts;
/// plain HTTP is upgraded; API hosts get the app's headers, others a
/// browser `Referer` (Weibo's for Weibo images); the cookie goes to Coolapk
/// hosts only.
pub open spec fn image_fetch(source: Seq<char>) -> Result<ImageFetchPlanV, ImageFetchErrorV> {
    match url_scheme_host_of(source) {
        Err(e) => Err(ImageFetchErrorV::InvalidUrl(e)),
        Ok((scheme, raw_host)) => {
            let sc = lower_seq(scheme);
            let host = lower_seq(raw_host);
            if sc != "http"@ && sc != "https"@ {
                Err(ImageFetchErrorV::DisallowedScheme)
            } else if blocked_image_host(host) {
                Err(ImageFetchErrorV::PrivateHost(host))
            } else {
                let url = if scheme == "http"@ {
                    match url_rescheme_of(source, "https"@) {
                        Some((true, text)) => Some(text),
                        _ => None,
                    }
                } else {
                    Some(source)
                };
                match url {
                    None => Err(ImageFetchErrorV::UpgradeFailed),
                    Some(u) => Ok(ImageFetchPlanV {
                        url: u,
                        host,
                        api_host: host == "api.coolapk.com"@ || host == "api2.coolapk.com"@,
                        referer: if under_domain(host, "sinaimg.cn"@) {
                            "https://weibo.com/"@
                        } else {
                            "https://www.coolapk.com/"@
                        },
                        send_cookie: under_domain(host, "coolapk.com"@),
                    }),
                }
            }
        },
    }
}

fn blocked_host_of(h: &Vec<char>) -> (r: bool)
    ensures
        r == blocked_image_host(h@),
{
    h.len() == 0 || chars_eq_str(h, "localhost") || chars_eq_str(h, "127.0.0.1") || chars_eq_str(h, "0.0.0.0")
        || chars_start_with(h, "192.168.") || chars_start_with(h, "10.") || chars_start_with(h, "172.16.")
        || chars_start_with(h, "172.17.") || chars_start_with(h, "172.18.") || chars_start_with(h, "172.19.")
        || chars_start_with(h, "172.20.") || chars_start_with(h, "172.30.") || chars_start_with(h, "172.31.")
}

/// Decides how an image address is fetched (see `image_fetch`).
pub fn image_fetch_plan(source_url: &str) -> (r: Result<ImageFetchPlan, ImageFetchError>)
    ensures
        match image_fetch(source_url@) {
            Ok(p) => r matches Ok(x) && plan_view(x) == p,
            Err(e) => r matches Err(x) && image_error_view(x) == e,
        },
{
    let (scheme, raw_host) = match url_scheme_host(source_url) {
        Ok(parts) => parts,
        Err(e) => {
            return Err(ImageFetchError::InvalidUrl(e));
        },
    };
    let sc = lower_chars(&chars_of(scheme.as_str()));
    let host_chars = lower_chars(&chars_of(raw_host.as_str()));
    if !chars_eq_str(&sc, "http") && !chars_eq_str(&sc, "https") {
        return Err(ImageFetchError::DisallowedScheme);
    }
    let host = string_of(&host_chars);
    if blocked_host_of(&host_chars) {
        return Err(ImageFetchError::PrivateHost(host));
    }
    let url = if chars_eq_str(&chars_of(scheme.as_str()), "http") {
        match url_rescheme(source_url, "https") {
            Some((true, text)) => text,
            _ => {
                return Err(ImageFetchError::UpgradeFailed);
            },
        }
    } else {
        source_url.to_string()
    };
    let api_host = chars_eq_str(&host_chars, "api.coolapk.com") || chars_eq_str(&host_chars, "api2.coolapk.com");
    let referer = if is_weibo_image_host(host.as_str()) {
        "https://weibo.com/".to_string()
    } else {
        "https://www.coolapk.com/".to_string()
    };
    let send_cookie = is_coolapk_host(host.as_str());
    Ok(ImageFetchPlan { url, host, api_host, referer, send_cookie })
}

/// The largest image turned into a data URL: 50 MiB.
pub const IMAGE_BYTES_LIMIT: usize = 52428800;

/// A fetched image as a data URL: the answer must be a success, of an
/// `image/` type (`image/jpeg` when none is given), and at most 50 MiB.
pub open spec fn image_data_url_of(
    success: bool,
    status: Seq<char>,
    content_type: Option<Seq<char>>,
    bytes: Seq<u8>,
) -> Result<Seq<char>, ImageFetchErrorV> {
    let ct = match content_type {
        Some(t) => t,
        None => "image/jpeg"@,
    };
    if !success {
        Err(ImageFetchErrorV::HttpStatus(status))
    } else if !starts_with(ct, "image/"@) {
        Err(ImageFetchErrorV::UnexpectedType(ct))
    } else if bytes.len() > IMAGE_BYTES_LIMIT {
        Err(ImageFetchErrorV::TooLarge)
    } else {
        Ok("data:"@ + ct + ";base64,"@ + b64_encoding(bytes))
    }
}

/// Turns a fetched image into a data URL (see `image_data_url_of`).
pub fn fetched_image_data_url(success: bool, status: &str, content_type: Option<&str>, bytes: &[u8]) -> (r: Result<String, ImageFetchError>)
    ensures
        match image_data_url_of(
            success,
            status@,
            match content_type {
                Some(t) => Some(t@),
                None => None,
            },
            bytes@,
        ) {
            Ok(u) => r matches Ok(x) && x@ == u,
            Err(e) => r matches Err(x) && image_error_view(x) == e,
        },
{
    let ct: &str = match content_type {
        Some(t) => t,
        None => "image/jpeg",
    };
    if !success {
        return Err(ImageFetchError::HttpStatus(status.to_string()));
    }
    if !chars_start_with(&chars_of(ct), "image/") {
        return Err(ImageFetchError::UnexpectedType(ct.to_string()));
    }
    if bytes.len() > IMAGE_BYTES_LIMIT {
        return Err(ImageFetchError::TooLarge);
    }
    let encoded = b64_encode(bytes);
    let mut out = String::new();
    push_str(&mut out, "data:");
    push_str(&mut out, ct);
    push_str(&mut out, ";base64,");
    push_str(&mut out, encoded.as_str());
    Ok(out)
}

// ---------------------------------------------------------------------------
// Live Photo videos
// ---------------------------------------------------------------------------

/// Why a Live Photo's video was not found.
pub enum LivePhotoError {
    /// The image address does not parse; the parser's text.
    InvalidImageUrl(String),
    /// The image is not on an HTTP(S) Coolapk host.
    NotCoolapkImage,
    /// The content id is blank, longer than 128 bytes, or holds a control
    /// character.
    InvalidContentId,
    /// The resolver failed with this status; the start of its answer.
    ResolverFailed(String, String),
    /// The resolver named no playable video.
    NoVideo,
}

pub enum LivePhotoErrorV {
    InvalidImageUrl(Seq<char>),
    NotCoolapkImage,
    InvalidContentId,
    ResolverFailed(Seq<char>, Seq<char>),
    NoVideo,
}

pub open spec fn live_error_view(e: LivePhotoError) -> LivePhotoErrorV {
    match e {
        LivePhotoError::InvalidImageUrl(e) => LivePhotoErrorV::InvalidImageUrl(e@),
        LivePhotoError::NotCoolapkImage => LivePhotoErrorV::NotCoolapkImage,
        LivePhotoError::InvalidContentId => LivePhotoErrorV::InvalidContentId,
        LivePhotoError::ResolverFailed(s, d) => LivePhotoErrorV::ResolverFailed(s@, d@),
        LivePhotoError::NoVideo => LivePhotoErrorV::NoVideo,
    }
}

/// The query of `/v6/livePhoto/showVideo`: `picUrl` and `id`.
pub struct LivePhotoRequest {
    pub pic_url: String,
    pub id: String,
}

pub struct LivePhotoRequestV {
    pub pic_url: Seq<char>,
    pub id: Seq<char>,
}

pub open spec fn live_request_view(r: LivePhotoRequest) -> LivePhotoRequestV {
    LivePhotoRequestV { pic_url: r.pic_url@, id: r.id@ }
}

/// A content id the resolver accepts.
pub open spec fn valid_content_id(id: Seq<char>) -> bool {
    id.len() > 0 && utf8_len(id) <= 128 && !(exists|i: int| 0 <= i < id.len() && is_control(#[trigger] id[i]))
}

/// The kind of content a Live Photo belongs to: `reply`, `article`, else
/// `feed`.
pub open spec fn live_content_kind(t: Seq<char>) -> Seq<char> {
    if trim(t) == "reply"@ {
        "reply"@
    } else if trim(t) == "article"@ {
        "article"@
    } else {
        "feed"@
    }
}

/// The resolver request for a Live Photo: the image must be on an HTTP(S)
/// Coolapk host; an HTTPS address on `image.coolapk.com` is handed over
/// with its scheme set back to `http`, as the API serves it; the id is
/// `<kind>_<content id>`.
pub open spec fn live_photo_request_of(image_url: Seq<char>, content_id: Seq<char>, content_type: Seq<char>) -> Result<LivePhotoRequestV, LivePhotoErrorV> {
    let u = trim(image_url);
    match url_scheme_host_of(u) {
        Err(e) => Err(LivePhotoErrorV::InvalidImageUrl(e)),
        Ok((scheme, host)) => {
            if (scheme != "http"@ && scheme != "https"@) || !under_domain(host, "coolapk.com"@) {
                Err(LivePhotoErrorV::NotCoolapkImage)
            } else {
                let pic = if scheme == "https"@ && eq_ic(host, "image.coolapk.com"@) {
                    match url_rescheme_of(u, "http"@) {
                        Some((_, text)) => text,
                        None => u,
                    }
                } else {
                    u
                };
                let id = trim(content_id);
                if !valid_content_id(id) {
                    Err(LivePhotoErrorV::InvalidContentId)
                } else {
                    Ok(LivePhotoRequestV { pic_url: pic, id: live_content_kind(content_type) + "_"@ + id })
                }
            }
        },
    }
}

pub(crate) fn has_control(cs: &Vec<char>) -> (r: bool)
    ensures
        r == exists|i: int| 0 <= i < cs@.len() && is_control(#[trigger] cs@[i]),
{
    let mut i: usize = 0;
    while i < cs.len()
        invariant
            i <= cs@.len(),
            forall|j: int| 0 <= j < i ==> !is_control(#[trigger] cs@[j]),
        decreases cs@.len() - i,
    {
        if is_control_char(cs[i]) {
            return true;
        }
        i += 1;
    }
    false
}

/// The resolver request for a Live Photo (see `live_photo_request_of`).
pub fn live_photo_request(image_url: &str, content_id: &str, content_type: &str) -> (r: Result<LivePhotoRequest, LivePhotoError>)
    ensures
        match live_photo_request_of(image_url@, content_id@, content_type@) {
            Ok(q) => r matches Ok(x) && live_request_view(x) == q,
            Err(e) => r matches Err(x) && live_error_view(x) == e,
        },
{
    let u = string_of(&trimmed_str(image_url));
    let (scheme, host) = match url_scheme_host(u.as_str()) {
        Ok(parts) => parts,
        Err(e) => {
            return Err(LivePhotoError::InvalidImageUrl(e));
        },
    };
    let sc = chars_of(scheme.as_str());
    let is_http = chars_eq_str(&sc, "http");
    let is_https = chars_eq_str(&sc, "https");
    if (!is_http && !is_https) || !is_coolapk_host(host.as_str()) {
        return Err(LivePhotoError::NotCoolapkImage);
    }
    let hc = chars_of(host.as_str());
    let pic = if is_https && crate::text::range_eq_ic(&hc, 0, hc.len(), "image.coolapk.com") {
        proof {
            assert(hc@.subrange(0, hc@.len() as int) =~= hc@);
        }
        match url_rescheme(u.as_str(), "http") {
            Some((_, text)) => text,
            None => u.clone(),
        }
    } else {
        proof {
            assert(hc@.subrange(0, hc@.len() as int) =~= hc@);
        }
        u.clone()
    };
    let id = trimmed_str(content_id);
    let too_long = match utf8_len_capped(&id, 0, id.len(), 128) {
        Some(_) => false,
        None => true,
    };
    proof {
        assert(id@.subrange(0, id@.len() as int) =~= id@);
    }
    if id.len() == 0 || too_long || has_control(&id) {
        return Err(LivePhotoError::InvalidContentId);
    }
    let kind = trimmed_str(content_type);
    let mut full = if chars_eq_str(&kind, "reply") {
        "reply".to_string()
    } else if chars_eq_str(&kind, "article") {
        "article".to_string()
    } else {
        "feed".to_string()
    };
    push_str(&mut full, "_");
    crate::text::push_range(&mut full, &id, 0, id.len());
    assert(full@ =~= live_content_kind(content_type@) + "_"@ + trim(content_id@));
    Ok(LivePhotoRequest { pic_url: pic, id: full })
}

/// An address the player can use: a string that parses as an HTTP(S) URL,
/// trimmed.
pub open spec fn http_url(s: Seq<char>) -> Option<Seq<char>> {
    match url_scheme_host_of(trim(s)) {
        Ok((scheme, _)) => if scheme == "http"@ || scheme == "https"@ {
            Some(trim(s))
        } else {
            None
        },
        Err(_) => None,
    }
}

pub open spec fn http_url_value(v: Option<JsonV>) -> Option<Seq<char>> {
    match v {
        Some(JsonV::Str(s)) => http_url(s),
        _ => None,
    }
}

/// The first of `keys` whose field is an HTTP(S) address.
pub open spec fn first_direct_url(fields: Seq<(Seq<char>, JsonV)>, keys: Seq<Seq<char>>) -> Option<Seq<char>>
    decreases keys.len(),
{
    if keys.len() == 0 {
        None
    } else {
        match http_url_value(crate::json::field_value(fields, keys[0])) {
            Some(u) => Some(u),
            None => first_direct_url(fields, keys.drop_first()),
        }
    }
}

pub open spec fn direct_url_keys() -> Seq<Seq<char>> {
    seq!["url"@, "videoUrl"@, "video_url"@, "finalUrl"@, "final_url"@]
}

pub open spec fn nested_url_keys() -> Seq<Seq<char>> {
    seq!["urlList"@, "url_list"@, "data"@]
}

/// The video address in a resolver answer: a string that is an HTTP(S)
/// address; the first element of a list that leads to one; in an object,
/// the direct address fields first, then the nested lists and `data`.
pub open spec fn live_video_url(v: JsonV) -> Option<Seq<char>>
    decreases v, 2int, 0int,
{
    match v {
        JsonV::Str(s) => http_url(s),
        JsonV::Array(_) => item_video_url(v, 0),
        JsonV::Object(fields) => match first_direct_url(fields, direct_url_keys()) {
            Some(u) => Some(u),
            None => nested_video_url(v, 0),
        },
        _ => None,
    }
}

/// The first element of a list, from index `i` on, that leads to an
/// address.
pub open spec fn item_video_url(v: JsonV, i: int) -> Option<Seq<char>>
    decreases v, 1int, match v {
        JsonV::Array(items) => items.len() - i,
        _ => 0,
    },
{
    match v {
        JsonV::Array(items) => if 0 <= i < items.len() {
            match live_video_url(items[i]) {
                Some(u) => Some(u),
                None => item_video_url(v, i + 1),
            }
        } else {
            None
        },
        _ => None,
    }
}

/// The first nested field, from the `k`-th of `nested_url_keys` on, that
/// leads to an address (a key is looked up at its first occurrence).
pub open spec fn nested_video_url(v: JsonV, k: int) -> Option<Seq<char>>
    decreases v, 1int, 3 - k,
{
    match v {
        JsonV::Object(fields) => if 0 <= k < 3 {
            match index_of_key(fields, nested_url_keys()[k]) {
                Some(i) => if 0 <= i < fields.len() {
                    match live_video_url(fields[i].1) {
                        Some(u) => Some(u),
                        None => nested_video_url(v, k + 1),
                    }
                } else {
                    nested_video_url(v, k + 1)
                },
                None => nested_video_url(v, k + 1),
            }
        } else {
            None
        },
        _ => None,
    }
}

fn http_url_of(s: &str) -> (r: Option<String>)
    ensures
        match r {
            Some(u) => http_url(s@) == Some(u@),
            None => http_url(s@) is None,
        },
{
    let t = string_of(&trimmed_str(s));
    match url_scheme_host(t.as_str()) {
        Ok((scheme, _)) => {
            let sc = chars_of(scheme.as_str());
            if chars_eq_str(&sc, "http") || chars_eq_str(&sc, "https") {
                Some(t)
            } else {
                None
            }
        },
        Err(_) => None,
    }
}

/// The first direct address field of an object.
fn first_direct_url_of(fields: &Vec<(String, Json)>) -> (r: Option<String>)
    ensures
        match r {
            Some(u) => first_direct_url(fields_view(fields@), direct_url_keys()) == Some(u@),
            None => first_direct_url(fields_view(fields@), direct_url_keys()) is None,
        },
{
    let ghost fv = fields_view(fields@);
    let direct = ["url", "videoUrl", "video_url", "finalUrl", "final_url"];
    let ghost dk = crate::text::str_views(direct@);
    assert(dk =~= direct_url_keys());
    let mut k: usize = 0;
    assert(dk.skip(0) =~= dk);
    while k < 5
        invariant
            k <= 5,
            direct@.len() == 5,
            dk == crate::text::str_views(direct@),
            dk == direct_url_keys(),
            fv == fields_view(fields@),
            first_direct_url(fv, dk) == first_direct_url(fv, dk.skip(k as int)),
        decreases 5 - k,
    {
        proof {
            assert(dk.skip(k as int)[0] == direct@[k as int]@);
            assert(dk.skip(k as int).drop_first() =~= dk.skip(k + 1));
        }
        match crate::json::field_of(fields, direct[k]) {
            Some(Json::Str(s)) => {
                if let Some(u) = http_url_of(s.as_str()) {
                    return Some(u);
                }
            },
            _ => {},
        }
        k += 1;
    }
    assert(dk.skip(5) =~= Seq::<Seq<char>>::empty());
    None
}

/// Finds the video address in a resolver answer (see `live_video_url`).
pub fn extract_live_photo_video_url(value: &Json) -> (r: Option<String>)
    ensures
        match r {
            Some(u) => live_video_url(json_view(*value)) == Some(u@),
            None => live_video_url(json_view(*value)) is None,
        },
    decreases value,
{
    proof {
        lemma_views(*value);
    }
    match value {
        Json::Str(s) => http_url_of(s.as_str()),
        Json::Array(items) => {
            let ghost vv = json_view(*value);
            let ghost iv = items_view(items@);
            assert(vv == JsonV::Array(iv));
            let mut i: usize = 0;
            while i < items.len()
                invariant
                    i <= items@.len(),
                    *value == Json::Array(*items),
                    iv == items_view(items@),
                    vv == JsonV::Array(iv),
                    vv == json_view(*value),
                    live_video_url(vv) == item_video_url(vv, i as int),
                decreases items@.len() - i,
            {
                proof {
                    assert(decreases_to!(*value => (*value)->Array_0));
                    vstd::std_specs::vec::axiom_vec_decreases_to_view(*items);
                    assert(decreases_to!(*items => items@[i as int]));
                    assert(iv[i as int] == json_view(items@[i as int]));
                }
                if let Some(u) = extract_live_photo_video_url(&items[i]) {
                    assert(item_video_url(vv, i as int) == Some(u@));
                    return Some(u);
                }
                i += 1;
            }
            None
        },
        Json::Object(fields) => {
            let ghost fv = fields_view(fields@);
            let ghost vv = json_view(*value);
            assert(vv == JsonV::Object(fv));
            if let Some(u) = first_direct_url_of(fields) {
                assert(live_video_url(vv) == Some(u@));
                return Some(u);
            }
            let nested_keys = ["urlList", "url_list", "data"];
            let ghost nk = crate::text::str_views(nested_keys@);
            assert(nk =~= nested_url_keys());
            let mut m: usize = 0;
            while m < 3
                invariant
                    m <= 3,
                    nested_keys@.len() == 3,
                    nk == crate::text::str_views(nested_keys@),
                    nk == nested_url_keys(),
                    *value == Json::Object(*fields),
                    fv == fields_view(fields@),
                    vv == JsonV::Object(fv),
                    vv == json_view(*value),
                    live_video_url(vv) == (match first_direct_url(fv, direct_url_keys()) {
                        Some(u) => Some(u),
                        None => nested_video_url(vv, m as int),
                    }),
                    first_direct_url(fv, direct_url_keys()) is None,
                decreases 3 - m,
            {
                proof {
                    assert(nk[m as int] == nested_keys@[m as int]@);
                }
                match index_of_field(fields, nested_keys[m]) {
                    Some(i) => {
                        proof {
                            assert(decreases_to!(*value => (*value)->Object_0));
                            vstd::std_specs::vec::axiom_vec_decreases_to_view(*fields);
                            assert(decreases_to!(*fields => fields@[i as int]));
                            assert(decreases_to!(fields@[i as int] => fields@[i as int].1));
                            assert(fv[i as int].1 == json_view(fields@[i as int].1));
                        }
                        if let Some(u) = extract_live_photo_video_url(&fields[i].1) {
                            assert(nested_video_url(vv, m as int) == Some(u@));
                            return Some(u);
                        }
                    },
                    None => {},
                }
                m += 1;
            }
            None
        },
        _ => None,
    }
}

/// What the resolver's answer gives. A redirection to an HTTP(S) address
/// other than the request's own is the video. Otherwise the answer must be
/// a success (else the status and the first 300 characters of the body
/// are reported), and its JSON must name an address.
pub open spec fn live_photo_outcome(
    redirection: bool,
    location: Option<Seq<char>>,
    request_url: Seq<char>,
    success: bool,
    status: Seq<char>,
    body: Seq<char>,
    answer: Option<JsonV>,
) -> Result<Seq<char>, LivePhotoErrorV> {
    let redirected = match location {
        Some(l) => if redirection && l != request_url && match url_scheme_host_of(l) {
            Ok((scheme, _)) => scheme == "http"@ || scheme == "https"@,
            Err(_) => false,
        } {
            Some(l)
        } else {
            None
        },
        None => None,
    };
    match redirected {
        Some(l) => Ok(l),
        None => if !success {
            Err(LivePhotoErrorV::ResolverFailed(status, body.take(if body.len() < 300 { body.len() as int } else { 300 })))
        } else {
            match answer {
                Some(a) => match live_video_url(a) {
                    Some(u) => Ok(u),
                    None => Err(LivePhotoErrorV::NoVideo),
                },
                None => Err(LivePhotoErrorV::NoVideo),
            }
        },
    }
}

/// Decides the video address from the resolver's answer (see
/// `live_photo_outcome`): `location` is the redirection target made
/// absolute, `answer` the body read as JSON when it is JSON.
pub fn live_photo_video(
    redirection: bool,
    location: Option<&str>,
    request_url: &str,
    success: bool,
    status: &str,
    body: &str,
    answer: Option<&Json>,
) -> (r: Result<String, LivePhotoError>)
    ensures
        match live_photo_outcome(
            redirection,
            match location {
                Some(l) => Some(l@),
                None => None,
            },
            request_url@,
            success,
            status@,
            body@,
            match answer {
                Some(a) => Some(json_view(*a)),
                None => None,
            },
        ) {
            Ok(u) => r matches Ok(x) && x@ == u,
            Err(e) => r matches Err(x) && live_error_view(x) == e,
        },
{
    if let Some(l) = location {
        if redirection && !crate::text::chars_eq(&chars_of(l), &chars_of(request_url)) {
            let ok = match url_scheme_host(l) {
                Ok((scheme, _)) => {
                    let sc = chars_of(scheme.as_str());
                    chars_eq_str(&sc, "http") || chars_eq_str(&sc, "https")
                },
                Err(_) => false,
            };
            if ok {
                return Ok(l.to_string());
            }
        }
    }
    if !success {
        let cs = chars_of(body);
        let n = if cs.len() < 300 {
            cs.len()
        } else {
            300
        };
        let detail = crate::text::string_of_range(&cs, 0, n);
        assert(detail@ =~= body@.take(n as int));
        return Err(LivePhotoError::ResolverFailed(status.to_string(), detail));
    }
    match answer {
        Some(a) => match extract_live_photo_video_url(a) {
            Some(u) => Ok(u),
            None => Err(LivePhotoError::NoVideo),
        },
        None => Err(LivePhotoError::NoVideo),
    }
}

// ---------------------------------------------------------------------------
// Video proxying and probing
// ---------------------------------------------------------------------------

/// An address of the given scheme on a host under `apex`.
pub open spec fn url_on(url: Seq<char>, scheme: Seq<char>, apex: Seq<char>) -> bool {
    match url_scheme_host_of(url) {
        Ok((s, h)) => s == scheme && under_domain(h, apex),
        Err(_) => false,
    }
}

/// The video proxy only serves HTTPS addresses on Weibo's video CDN.
pub fn is_proxyable_weibo_video(video_url: &str) -> (r: bool)
    ensures
        r == url_on(trim(video_url@), "https"@, "weibocdn.com"@),
{
    let t = string_of(&trimmed_str(video_url));
    match url_scheme_host(t.as_str()) {
        Ok((scheme, host)) => chars_eq_str(&chars_of(scheme.as_str()), "https") && is_weibo_video_host(host.as_str()),
        Err(_) => false,
    }
}

/// A Live Photo's video is only probed on HTTPS Coolapk hosts.
pub fn is_probeable_live_photo_video(video_url: &str) -> (r: bool)
    ensures
        r == url_on(trim(video_url@), "https"@, "coolapk.com"@),
{
    let t = string_of(&trimmed_str(video_url));
    match url_scheme_host(t.as_str()) {
        Ok((scheme, host)) => chars_eq_str(&chars_of(scheme.as_str()), "https") && is_coolapk_host(host.as_str()),
        Err(_) => false,
    }
}

/// A `Range` header is passed on only when it is not blank.
pub fn forwarded_range(range: Option<&str>) -> (r: Option<String>)
    ensures
        match range {
            Some(v) => if trim(v@).len() > 0 {
                r matches Some(x) && x@ == v@
            } else {
                r is None
            },
            None => r is None,
        },
{
    match range {
        Some(v) => if trimmed_str(v).len() > 0 {
            Some(v.to_string())
        } else {
            None
        },
        None => None,
    }
}

/// A proxied stretch of video, as handed to the web view.
pub struct ProxiedVideoResponse {
    pub status: u16,
    pub content_type: String,
    pub content_length: Option<u64>,
    pub content_range: Option<String>,
    pub body: Vec<u8>,
}

/// The content type passed on: the upstream one when it is a `video/`
/// type, else `video/mp4`.
pub open spec fn proxied_content_type(t: Option<Seq<char>>) -> Seq<char> {
    match t {
        Some(t) => if starts_with(t, "video/"@) {
            t
        } else {
            "video/mp4"@
        },
        None => "video/mp4"@,
    }
}

/// Assembles the proxy's answer from the upstream one.
pub fn proxied_video_response(
    status: u16,
    content_type: Option<&str>,
    content_length: Option<u64>,
    content_range: Option<String>,
    body: Vec<u8>,
) -> (r: ProxiedVideoResponse)
    ensures
        r.status == status,
        r.content_type@ == proxied_content_type(
            match content_type {
                Some(t) => Some(t@),
                None => None,
            },
        ),
        r.content_length == content_length,
        r.content_range == content_range,
        r.body@ == body@,
{
    let ct = match content_type {
        Some(t) => if chars_start_with(&chars_of(t), "video/") {
            t.to_string()
        } else {
            "video/mp4".to_string()
        },
        None => "video/mp4".to_string(),
    };
    ProxiedVideoResponse { status, content_type: ct, content_length, content_range, body }
}

/// The reading view fetches HTTP(S) pages only.
pub open spec fn fetchable_page(url: Seq<char>) -> bool {
    starts_with(url, "http://"@) || starts_with(url, "https://"@)
}

pub fn is_fetchable_page(url: &str) -> (r: bool)
    ensures
        r == fetchable_page(url@),
{
    let cs = chars_of(url);
    chars_start_with(&cs, "http://") || chars_start_with(&cs, "https://")
}

/// The login cookie goes along with a page request only to a Coolapk
/// host.
pub fn page_gets_cookie(url: &str) -> (r: bool)
    ensures
        r == match url_scheme_host_of(url@) {
            Ok((_, h)) => under_domain(h, "coolapk.com"@),
            Err(_) => false,
        },
{
    match url_scheme_host(url) {
        Ok((_, host)) => is_coolapk_host(host.as_str()),
        Err(_) => false,
    }
}

impl ImageFetchError {
    /// The text shown for the failure.
    pub fn message(&self) -> (r: String)
        ensures
            match self {
                ImageFetchError::InvalidUrl(e) => r@ == "invalid image URL: "@ + e@,
                ImageFetchError::DisallowedScheme => r@ == "only HTTP/HTTPS image schemes are allowed"@,
                ImageFetchError::PrivateHost(h) => r@ == "disallowed private or local host: "@ + h@,
                ImageFetchError::UpgradeFailed => r@ == "failed to upgrade image URL to HTTPS"@,
                ImageFetchError::HttpStatus(s) => r@ == "Coolapk image CDN returned HTTP "@ + s@,
                ImageFetchError::UnexpectedType(t) => r@ == "unexpected image content type: "@ + t@,
                ImageFetchError::TooLarge => r@ == "image exceeds the 50 MB desktop limit"@,
            },
    {
        let mut out = String::new();
        match self {
            ImageFetchError::InvalidUrl(e) => {
                push_str(&mut out, "invalid image URL: ");
                push_str(&mut out, e.as_str());
            },
            ImageFetchError::DisallowedScheme => push_str(&mut out, "only HTTP/HTTPS image schemes are allowed"),
            ImageFetchError::PrivateHost(h) => {
                push_str(&mut out, "disallowed private or local host: ");
                push_str(&mut out, h.as_str());
            },
            ImageFetchError::UpgradeFailed => push_str(&mut out, "failed to upgrade image URL to HTTPS"),
            ImageFetchError::HttpStatus(st) => {
                push_str(&mut out, "Coolapk image CDN returned HTTP ");
                push_str(&mut out, st.as_str());
            },
            ImageFetchError::UnexpectedType(t) => {
                push_str(&mut out, "unexpected image content type: ");
                push_str(&mut out, t.as_str());
            },
            ImageFetchError::TooLarge => push_str(&mut out, "image exceeds the 50 MB desktop limit"),
        }
        assert(Seq::<char>::empty() + "only HTTP/HTTPS image schemes are allowed"@ =~= "only HTTP/HTTPS image schemes are allowed"@);
        assert(Seq::<char>::empty() + "failed to upgrade image URL to HTTPS"@ =~= "failed to upgrade image URL to HTTPS"@);
        assert(Seq::<char>::empty() + "image exceeds the 50 MB desktop limit"@ =~= "image exceeds the 50 MB desktop limit"@);
        out
    }
}

impl LivePhotoError {
    /// The text shown for the failure.
    pub fn message(&self) -> (r: String)
        ensures
            match self {
                LivePhotoError::InvalidImageUrl(e) => r@ == "invalid Live Photo image URL: "@ + e@,
                LivePhotoError::NotCoolapkImage => r@ == "Live Photo 图片地址必须来自酷安官方域名"@,
                LivePhotoError::InvalidContentId => r@ == "Live Photo 内容 ID 无效"@,
                LivePhotoError::ResolverFailed(st, d) => r@ == "酷安 Live Photo 解析失败：HTTP "@ + st@ + ": "@ + d@,
                LivePhotoError::NoVideo => r@ == "酷安未返回可播放的 Live Photo 视频地址"@,
            },
    {
        match self {
            LivePhotoError::InvalidImageUrl(e) => {
                let mut out = String::new();
                push_str(&mut out, "invalid Live Photo image URL: ");
                push_str(&mut out, e.as_str());
                out
            },
            LivePhotoError::NotCoolapkImage => "Live Photo 图片地址必须来自酷安官方域名".to_string(),
            LivePhotoError::InvalidContentId => "Live Photo 内容 ID 无效".to_string(),
            LivePhotoError::ResolverFailed(st, d) => {
                let mut out = String::new();
                push_str(&mut out, "酷安 Live Photo 解析失败：HTTP ");
                push_str(&mut out, st.as_str());
                push_str(&mut out, ": ");
                push_str(&mut out, d.as_str());
                out
            },
            LivePhotoError::NoVideo => "酷安未返回可播放的 Live Photo 视频地址".to_string(),
        }
    }
}

} // verus!
