//! What goes into a request to the API: the device headers, the address
//! and cookie of an API call, the target of a private message, the check
//! that a post really created something, and the verdict on a Digital
//! Alliance ID probe.

use vstd::prelude::*;
use crate::cookie::{cookie_for_request, removed_header};
use crate::device::DeviceProfile;
use crate::json::{as_str_opt, as_u64, get, get_opt, json_view, Json, JsonV};
use crate::outside::header_value_accepted;
use crate::paths::classify_path;
use crate::text::{chars_contain, chars_of, contains, dec, is_ascii_digit, params_view, push_str, trim, trimmed_str, string_of, u64_to_string};

verus! {

// ---------------------------------------------------------------------------
// Headers
// ---------------------------------------------------------------------------

/// A character a header value may hold: a tab, or a character from the
/// space on other than DEL.
pub open spec fn header_char_ok(c: char) -> bool {
    c == '\t' || (' ' <= c && c != '\u{7f}')
}

/// A text the HTTP library accepts as a header value.
pub open spec fn valid_header_value(s: Seq<char>) -> bool {
    forall|i: int| 0 <= i < s.len() ==> header_char_ok(#[trigger] s[i])
}

/// An optional setting's text.
pub open spec fn text_opt(o: Option<String>) -> Option<Seq<char>> {
    match o {
        Some(s) => Some(s@),
        None => None,
    }
}

/// A header for a setting that is present, not blank and a valid value.
pub open spec fn header_if_set(name: Seq<char>, v: Option<Seq<char>>) -> Seq<(Seq<char>, Seq<char>)> {
    match v {
        Some(s) => if trim(s).len() > 0 && valid_header_value(s) {
            seq![(name, s)]
        } else {
            Seq::empty()
        },
        None => Seq::empty(),
    }
}

/// The device headers of a request: the device code when it is a valid
/// value, then the profile's SDK level, locale, app version and code, API
/// version and dark mode, the supported app code and the user agent, each
/// when set.
pub open spec fn device_headers(p: DeviceProfile, code: Seq<char>) -> Seq<(Seq<char>, Seq<char>)> {
    (if valid_header_value(code) {
        seq![("X-App-Device"@, code)]
    } else {
        Seq::empty()
    }) + header_if_set("X-Sdk-Int"@, text_opt(p.sdk_int)) + header_if_set("X-Sdk-Locale"@, text_opt(p.locale))
        + header_if_set("X-App-Version"@, text_opt(p.app_version)) + header_if_set(
        "X-App-Code"@,
        text_opt(p.app_code),
    ) + header_if_set("X-Api-Version"@, text_opt(p.api_version)) + header_if_set(
        "X-Dark-Mode"@,
        text_opt(p.dark_mode),
    ) + header_if_set("X-App-Supported"@, text_opt(p.app_code)) + header_if_set(
        "User-Agent"@,
        text_opt(p.user_agent),
    )
}

fn push_header_if_set(out: &mut Vec<(&'static str, String)>, name: &'static str, v: &Option<String>)
    ensures
        params_view(final(out)@) == params_view(old(out)@) + header_if_set(name@, text_opt(*v)),
{
    let ghost before = params_view(out@);
    match v {
        Some(s) => {
            if trimmed_str(s.as_str()).len() > 0 && header_value_accepted(s.as_str()) {
                out.push((name, s.clone()));
                assert(params_view(out@) =~= before + seq![(name@, s@)]);
            } else {
                assert(params_view(out@) =~= before + Seq::<(Seq<char>, Seq<char>)>::empty());
            }
        },
        None => {
            assert(params_view(out@) =~= before + Seq::<(Seq<char>, Seq<char>)>::empty());
        },
    }
}

/// `apply_device_profile_with_code`: the headers a profile and device
/// code add to a request (see `device_headers`).
pub fn device_request_headers(profile: &DeviceProfile, device_code: &str) -> (r: Vec<(&'static str, String)>)
    ensures
        params_view(r@) == device_headers(*profile, device_code@),
{
    let mut out: Vec<(&'static str, String)> = Vec::new();
    if header_value_accepted(device_code) {
        out.push(("X-App-Device", device_code.to_string()));
    }
    assert(params_view(out@) =~= if valid_header_value(device_code@) {
        seq![("X-App-Device"@, device_code@)]
    } else {
        Seq::<(Seq<char>, Seq<char>)>::empty()
    });
    push_header_if_set(&mut out, "X-Sdk-Int", &profile.sdk_int);
    push_header_if_set(&mut out, "X-Sdk-Locale", &profile.locale);
    push_header_if_set(&mut out, "X-App-Version", &profile.app_version);
    push_header_if_set(&mut out, "X-App-Code", &profile.app_code);
    push_header_if_set(&mut out, "X-Api-Version", &profile.api_version);
    push_header_if_set(&mut out, "X-Dark-Mode", &profile.dark_mode);
    push_header_if_set(&mut out, "X-App-Supported", &profile.app_code);
    push_header_if_set(&mut out, "User-Agent", &profile.user_agent);
    assert(params_view(out@) =~= device_headers(*profile, device_code@));
    out
}

/// The fixed headers of an APK download request, before the device
/// headers: the token, then the app's identity as the official client
/// sends it.
pub open spec fn download_headers(token: Seq<char>) -> Seq<(Seq<char>, Seq<char>)> {
    seq![
        ("X-App-Token"@, token),
        ("X-Requested-With"@, "XMLHttpRequest"@),
        ("X-Sdk-Int"@, "35"@),
        ("X-Sdk-Locale"@, "zh-CN"@),
        ("X-App-Mode"@, "universal"@),
        ("X-App-Channel"@, "coolapk"@),
        ("X-App-Id"@, "com.coolapk.market"@),
        ("X-App-Version"@, "16.2.0"@),
        ("X-App-Code"@, "2604201"@),
        ("X-Api-Version"@, "16"@),
        ("X-App-Supported"@, "2604201"@),
        ("X-Dark-Mode"@, "0"@),
    ]
}

/// `apply_download_headers`: the fixed download headers followed by the
/// device headers.
pub fn download_request_headers(token: &str, profile: &DeviceProfile, device_code: &str) -> (r: Vec<
    (&'static str, String),
>)
    ensures
        params_view(r@) == download_headers(token@) + device_headers(*profile, device_code@),
{
    let mut out: Vec<(&'static str, String)> = Vec::new();
    out.push(("X-App-Token", token.to_string()));
    out.push(("X-Requested-With", "XMLHttpRequest".to_string()));
    out.push(("X-Sdk-Int", "35".to_string()));
    out.push(("X-Sdk-Locale", "zh-CN".to_string()));
    out.push(("X-App-Mode", "universal".to_string()));
    out.push(("X-App-Channel", "coolapk".to_string()));
    out.push(("X-App-Id", "com.coolapk.market".to_string()));
    out.push(("X-App-Version", "16.2.0".to_string()));
    out.push(("X-App-Code", "2604201".to_string()));
    out.push(("X-Api-Version", "16".to_string()));
    out.push(("X-App-Supported", "2604201".to_string()));
    out.push(("X-Dark-Mode", "0".to_string()));
    let ghost fixed = params_view(out@);
    assert(fixed =~= download_headers(token@));
    let mut dev = device_request_headers(profile, device_code);
    let ghost dv = params_view(dev@);
    out.append(&mut dev);
    assert(params_view(out@) =~= fixed + dv);
    out
}

// ---------------------------------------------------------------------------
// API calls
// ---------------------------------------------------------------------------

/// The API hosts credentials may be sent to.
pub open spec fn trusted_api_origin(origin: Seq<char>) -> bool {
    origin == "https://api.coolapk.com"@ || origin == "https://api2.coolapk.com"@
}

/// The address of an API call: the origin followed by the path; `None`
/// for an origin that is not a trusted API host, which is refused.
pub open spec fn api_call_url(origin: Seq<char>, path: Seq<char>) -> Option<Seq<char>> {
    if trusted_api_origin(origin) {
        Some(origin + path)
    } else {
        None
    }
}

/// Builds `api_call_url`.
pub fn api_request_url(origin: &str, path: &str) -> (r: Option<String>)
    ensures
        match r {
            Some(u) => api_call_url(origin@, path@) == Some(u@),
            None => api_call_url(origin@, path@) is None,
        },
{
    let o = chars_of(origin);
    proof {
        reveal_strlit("https://api.coolapk.com");
        reveal_strlit("https://api2.coolapk.com");
    }
    if !crate::text::chars_eq_str(&o, "https://api.coolapk.com") && !crate::text::chars_eq_str(
        &o,
        "https://api2.coolapk.com",
    ) {
        return None;
    }
    let mut u = origin.to_string();
    push_str(&mut u, path);
    Some(u)
}

/// The cookie header of an API call: the saved cookie without `ddid`,
/// sent only when it is a valid header value.
pub open spec fn api_cookie_header(cookie: Seq<char>) -> Option<Seq<char>> {
    let c = removed_header(cookie, seq!["ddid"@]);
    if valid_header_value(c) {
        Some(c)
    } else {
        None
    }
}

/// Builds `api_cookie_header` for a call to `path`.
pub fn api_request_cookie(cookie: &str, path: &str) -> (r: Option<String>)
    ensures
        match r {
            Some(c) => api_cookie_header(cookie@) == Some(c@),
            None => api_cookie_header(cookie@) is None,
        },
{
    let req = classify_path(path);
    let full = cookie_for_request(cookie, req.needs_ddid);
    if header_value_accepted(full.as_str()) {
        Some(full)
    } else {
        None
    }
}

// ---------------------------------------------------------------------------
// Private messages
// ---------------------------------------------------------------------------

/// Why a private message was not sent.
#[derive(Debug)]
pub enum MessageError {
    /// The target uid is blank or not all digits.
    InvalidUid,
    /// The text is blank.
    EmptyMessage,
    /// The picture address is blank.
    EmptyPicture,
    /// The message endpoint's address does not parse.
    BadAddress,
}

impl MessageError {
    /// The message shown for the error.
    pub fn message(&self) -> (r: String)
        ensures
            match self {
                MessageError::InvalidUid => r@ == "目标用户 UID 格式无效"@,
                MessageError::EmptyMessage => r@ == "私信内容不能为空"@,
                MessageError::EmptyPicture => r@ == "私信图片地址不能为空"@,
                MessageError::BadAddress => r@ == "私信接口地址无效"@,
            },
    {
        match self {
            MessageError::InvalidUid => "目标用户 UID 格式无效".to_string(),
            MessageError::EmptyMessage => "私信内容不能为空".to_string(),
            MessageError::EmptyPicture => "私信图片地址不能为空".to_string(),
            MessageError::BadAddress => "私信接口地址无效".to_string(),
        }
    }
}

/// Model of `MessageError`.
pub enum MessageErrorV {
    InvalidUid,
    EmptyMessage,
    EmptyPicture,
    BadAddress,
}

pub open spec fn message_error_view(e: MessageError) -> MessageErrorV {
    match e {
        MessageError::InvalidUid => MessageErrorV::InvalidUid,
        MessageError::EmptyMessage => MessageErrorV::EmptyMessage,
        MessageError::EmptyPicture => MessageErrorV::EmptyPicture,
        MessageError::BadAddress => MessageErrorV::BadAddress,
    }
}

/// Whether every character is an ASCII digit.
pub open spec fn all_ascii_digits(s: Seq<char>) -> bool {
    forall|i: int| 0 <= i < s.len() ==> is_ascii_digit(#[trigger] s[i])
}

/// The message endpoint with the target uid and `quick_reply=1` appended
/// by the URL library.
pub open spec fn message_send_url(uid: Seq<char>) -> Option<Seq<char>> {
    match crate::outside::url_append_pair_of("https://api.coolapk.com/v6/message/send"@, "uid"@, uid) {
        Some(u) => crate::outside::url_append_pair_of(u, "quick_reply"@, "1"@),
        None => None,
    }
}

/// The address a private message goes to: the trimmed uid must be a
/// non-empty run of digits, and the content (text or picture, as
/// `picture` says) must not be blank.
pub open spec fn message_target(uid: Seq<char>, content: Seq<char>, picture: bool) -> Result<Seq<char>, MessageErrorV> {
    let u = trim(uid);
    if u.len() == 0 || !all_ascii_digits(u) {
        Err(MessageErrorV::InvalidUid)
    } else if trim(content).len() == 0 {
        if picture {
            Err(MessageErrorV::EmptyPicture)
        } else {
            Err(MessageErrorV::EmptyMessage)
        }
    } else {
        match message_send_url(u) {
            Some(url) => Ok(url),
            None => Err(MessageErrorV::BadAddress),
        }
    }
}

/// The checked target of `send_private_message` (text) or
/// `send_private_image` (picture address); see `message_target`.
pub fn private_message_url(uid: &str, content: &str, picture: bool) -> (r: Result<String, MessageError>)
    ensures
        match r {
            Ok(u) => message_target(uid@, content@, picture) == Ok::<Seq<char>, MessageErrorV>(u@),
            Err(e) => message_target(uid@, content@, picture) == Err::<Seq<char>, MessageErrorV>(message_error_view(e)),
        },
{
    let u = trimmed_str(uid);
    let mut i: usize = 0;
    while i < u.len()
        invariant
            i <= u@.len(),
            u@ == trim(uid@),
            forall|j: int| 0 <= j < i ==> is_ascii_digit(#[trigger] u@[j]),
        decreases u@.len() - i,
    {
        if !('0' <= u[i] && u[i] <= '9') {
            assert(!is_ascii_digit(u@[i as int]));
            return Err(MessageError::InvalidUid);
        }
        i += 1;
    }
    if u.len() == 0 {
        return Err(MessageError::InvalidUid);
    }
    if trimmed_str(content).len() == 0 {
        return if picture {
            Err(MessageError::EmptyPicture)
        } else {
            Err(MessageError::EmptyMessage)
        };
    }
    let us = string_of(&u);
    match crate::outside::url_append_pair("https://api.coolapk.com/v6/message/send", "uid", us.as_str()) {
        Some(a) => match crate::outside::url_append_pair(a.as_str(), "quick_reply", "1") {
            Some(b) => Ok(b),
            None => Err(MessageError::BadAddress),
        },
        None => Err(MessageError::BadAddress),
    }
}

// ---------------------------------------------------------------------------
// Posting
// ---------------------------------------------------------------------------

/// The id of what a post created: the answer's `data.id` as a string or
/// as a count; `None` when the server created nothing.
pub open spec fn created_id(wrapped: JsonV) -> Option<Seq<char>> {
    let id = get_opt(get(wrapped, "data"@), "id"@);
    match as_str_opt(id) {
        Some(s) => Some(s),
        None => match id {
            Some(v) => match as_u64(v) {
                Some(n) => Some(dec(n as nat)),
                None => None,
            },
            None => None,
        },
    }
}

/// Reads `created_id`; a post whose answer has none failed.
pub fn created_entity_id(wrapped: &Json) -> (r: Option<String>)
    ensures
        match r {
            Some(s) => created_id(json_view(*wrapped)) == Some(s@),
            None => created_id(json_view(*wrapped)) is None,
        },
{
    let id = match wrapped.get("data") {
        Some(d) => d.get("id"),
        None => None,
    };
    match id {
        Some(v) => match v.as_str() {
            Some(s) => Some(s.to_string()),
            None => match v {
                Json::Number(crate::json::JsonNumber::PosInt(n)) => Some(u64_to_string(*n)),
                _ => None,
            },
        },
        None => None,
    }
}

// ---------------------------------------------------------------------------
// Digital Alliance ID check
// ---------------------------------------------------------------------------

/// Words in a refusal that mean the device was not accepted.
pub open spec fn device_reject_hints() -> Seq<Seq<char>> {
    seq!["环境"@, "风控"@, "异常"@, "设备"@, "415"@, "验证失败"@, "操作频繁"@]
}

/// Whether a text holds one of `words`.
pub open spec fn holds_any(s: Seq<char>, words: Seq<Seq<char>>) -> bool {
    exists|k: int| 0 <= k < words.len() && contains(s, #[trigger] words[k])
}

/// The verdict on probing a write endpoint with an ID: a success passes;
/// a refusal that asks for a login, or names the device, fails; any other
/// refusal (the expected complaint about the probe's bogus argument)
/// passes. The detail repeats the trimmed refusal.
pub open spec fn probe_verdict(probe: Result<(), Seq<char>>) -> (bool, Seq<char>) {
    match probe {
        Ok(()) => (true, "接口校验通过"@),
        Err(msg) => {
            let m = trim(msg);
            if contains(m, "登录"@) {
                (false, "服务端要求登录："@ + m)
            } else if holds_any(m, device_reject_hints()) {
                (false, "设备校验未通过："@ + m)
            } else {
                (true, "设备校验通过（接口返回预期的参数错误）："@ + m)
            }
        },
    }
}

/// Decides `probe_verdict`; `probe` is the outcome of the probe request,
/// with the refusal's text.
pub fn szlm_probe_verdict(probe: Result<(), &str>) -> (r: (bool, String))
    ensures
        (r.0, r.1@) == probe_verdict(
            match probe {
                Ok(()) => Ok(()),
                Err(m) => Err(m@),
            },
        ),
{
    match probe {
        Ok(()) => (true, "接口校验通过".to_string()),
        Err(msg) => {
            let m = trimmed_str(msg);
            let ms = string_of(&m);
            if chars_contain(&m, "登录") {
                let mut out = "服务端要求登录：".to_string();
                push_str(&mut out, ms.as_str());
                return (false, out);
            }
            let hints = ["环境", "风控", "异常", "设备", "415", "验证失败", "操作频繁"];
            assert(crate::text::str_views(hints@) =~= device_reject_hints());
            let mut k: usize = 0;
            while k < 7
                invariant
                    k <= 7,
                    hints@.len() == 7,
                    probe == Err::<(), &str>(msg),
                    m@ == trim(msg@),
                    ms@ == m@,
                    !contains(m@, "登录"@),
                    crate::text::str_views(hints@) == device_reject_hints(),
                    forall|j: int| 0 <= j < k ==> !contains(m@, #[trigger] device_reject_hints()[j]),
                decreases 7 - k,
            {
                assert(device_reject_hints()[k as int] == hints@[k as int]@);
                if chars_contain(&m, hints[k]) {
                    assert(contains(m@, device_reject_hints()[k as int]));
                    let mut out = "设备校验未通过：".to_string();
                    push_str(&mut out, ms.as_str());
                    return (false, out);
                }
                k += 1;
            }
            let mut out = "设备校验通过（接口返回预期的参数错误）：".to_string();
            push_str(&mut out, ms.as_str());
            (true, out)
        },
    }
}

/// The address of a delete action: the API host, the path and the id as
/// given.
pub open spec fn delete_url(path: Seq<char>, id: Seq<char>) -> Seq<char> {
    "https://api.coolapk.com"@ + path + "?id="@ + id
}

/// Builds `delete_url`.
pub fn delete_action_url(path: &str, id: &str) -> (r: String)
    ensures
        r@ == delete_url(path@, id@),
{
    let mut u = "https://api.coolapk.com".to_string();
    push_str(&mut u, path);
    push_str(&mut u, "?id=");
    push_str(&mut u, id);
    u
}

/// The answer of a Digital Alliance ID check: whether it passed, with the
/// detail.
pub open spec fn szlm_answer(ok: bool, detail: Seq<char>) -> JsonV {
    JsonV::Object(seq![
        ("code"@, crate::feed::count(200)),
        ("data"@, JsonV::Object(seq![("detail"@, JsonV::Str(detail)), ("ok"@, JsonV::Bool(ok))])),
    ])
}

/// The answer given before any probe: a blank ID, or no login (write
/// endpoints check the device only for a logged-in user), fails at once;
/// `None` when the probe is to be made.
pub open spec fn szlm_precheck(szlm_id: Seq<char>, logged_in: bool) -> Option<JsonV> {
    if trim(szlm_id).len() == 0 {
        Some(szlm_answer(false, "数字联盟ID为空"@))
    } else if !logged_in {
        Some(szlm_answer(false, "请先登录：写接口的设备校验需要登录态"@))
    } else {
        None
    }
}

/// Builds `szlm_answer`.
pub fn szlm_check_answer(ok: bool, detail: String) -> (r: Json)
    ensures
        json_view(r) == szlm_answer(ok, detail@),
{
    let ghost d = detail@;
    let mut inner: Vec<(String, Json)> = Vec::new();
    assert(crate::json::fields_view(inner@) =~= Seq::<(Seq<char>, JsonV)>::empty());
    crate::feed::push_field(&mut inner, "detail", Json::Str(detail));
    crate::feed::push_field(&mut inner, "ok", Json::Bool(ok));
    let ghost iv = crate::json::fields_view(inner@);
    let data = Json::Object(inner);
    proof {
        crate::json::lemma_views(data);
    }
    let mut out: Vec<(String, Json)> = Vec::new();
    assert(crate::json::fields_view(out@) =~= Seq::<(Seq<char>, JsonV)>::empty());
    crate::feed::push_field(&mut out, "code", crate::feed::count_json(200));
    crate::feed::push_field(&mut out, "data", data);
    let ghost ov = crate::json::fields_view(out@);
    let r = Json::Object(out);
    proof {
        crate::json::lemma_views(r);
    }
    assert(iv =~= seq![("detail"@, JsonV::Str(d)), ("ok"@, JsonV::Bool(ok))]);
    assert(ov =~= szlm_answer(ok, d)->Object_0);
    r
}

/// `verify_szlm_id`'s answer before the probe (see `szlm_precheck`).
pub fn szlm_check_precheck(szlm_id: &str, logged_in: bool) -> (r: Option<Json>)
    ensures
        match r {
            Some(a) => szlm_precheck(szlm_id@, logged_in) == Some(json_view(a)),
            None => szlm_precheck(szlm_id@, logged_in) is None,
        },
{
    if trimmed_str(szlm_id).len() == 0 {
        return Some(szlm_check_answer(false, "数字联盟ID为空".to_string()));
    }
    if !logged_in {
        return Some(szlm_check_answer(false, "请先登录：写接口的设备校验需要登录态".to_string()));
    }
    None
}

} // verus!
