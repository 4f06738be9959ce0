//! The API's answer envelope: when a response is a refusal, what the user
//! is told, and the shape a successful answer is handed on in.

use vstd::prelude::*;
use crate::feed::{fstr, index_of_key, insert_field, FieldsV};
use crate::json::{
    as_i64, as_str, as_str_opt, all_digits, digits_value, field_of, field_value, fields_view, get,
    json_view, lemma_views, Json, JsonNumber, JsonV, NumberV,
};
use crate::text::{chars_of, starts_with, str_views, trim};

verus! {

/// `i64::from_str`: an optional sign, then at least one decimal digit, and
/// a value that fits.
pub open spec fn parse_i64(s: Seq<char>) -> Option<i64> {
    let neg = s.len() > 0 && s[0] == '-';
    let d = if s.len() > 0 && (s[0] == '+' || s[0] == '-') {
        s.drop_first()
    } else {
        s
    };
    if d.len() > 0 && all_digits(d) {
        let v: int = if neg {
            -(digits_value(d) as int)
        } else {
            digits_value(d) as int
        };
        if i64::MIN <= v <= i64::MAX {
            Some(v as i64)
        } else {
            None
        }
    } else {
        None
    }
}

/// A refused request.
pub enum ApiError {
    /// The message to show.
    Message(String),
    /// The server asks for a captcha; the whole response is what the front
    /// end needs to show it.
    Captcha(Json),
}

impl ApiError {
    /// The error handed to the front end: the message, or for a captcha
    /// request the whole response as JSON text.
    pub fn message(&self) -> (r: String)
        ensures
            match self {
                ApiError::Message(m) => r@ == m@,
                ApiError::Captcha(j) => r@ == crate::outside::json_text_of(json_view(*j)),
            },
    {
        match self {
            ApiError::Message(m) => m.clone(),
            ApiError::Captcha(j) => crate::outside::json_to_text(j),
        }
    }
}

/// Model of a refusal.
pub enum ApiErrorV {
    Message(Seq<char>),
    Captcha(JsonV),
}

pub open spec fn api_error_view(e: ApiError) -> ApiErrorV {
    match e {
        ApiError::Message(m) => ApiErrorV::Message(m@),
        ApiError::Captcha(j) => ApiErrorV::Captcha(json_view(j)),
    }
}

/// `code`: an integer, or a text holding one; 200 when absent or
/// unreadable.
pub open spec fn response_code(r: JsonV) -> i64 {
    match get(r, "code"@) {
        Some(v) => match as_i64(v) {
            Some(c) => c,
            None => match as_str(v) {
                Some(s) => match parse_i64(s) {
                    Some(c) => c,
                    None => 200,
                },
                None => 200,
            },
        },
        None => 200,
    }
}

/// `status` as an integer, when it is one.
pub open spec fn response_status(r: JsonV) -> Option<i64> {
    match get(r, "status"@) {
        Some(v) => as_i64(v),
        None => None,
    }
}

/// The refusal a response carries, if any. In order: a non-empty `error`
/// other than `"0"`; a `message` envelope that asks for a captcha (or has
/// `messageExtra`), or whose code is not 200/0/1, whose status is not 0/1,
/// or whose `messageStatus` starts with `err_`; a negative status.
pub open spec fn response_refusal(r: JsonV) -> Option<ApiErrorV> {
    match as_str_opt(get(r, "error"@)) {
        Some(e) if e.len() > 0 && e != "0"@ => Some(ApiErrorV::Message(e)),
        _ => match envelope_refusal(r) {
            Some(e) => Some(e),
            None => match response_status(r) {
                Some(status) if status < 0 => Some(ApiErrorV::Message(
                    match as_str_opt(
                        match get(r, "message"@) {
                            Some(v) => Some(v),
                            None => get(r, "error"@),
                        },
                    ) {
                        Some(m) => m,
                        None => "酷安服务端拒绝请求"@,
                    },
                )),
                _ => None,
            },
        },
    }
}

/// The refusal a `message` envelope carries.
pub open spec fn envelope_refusal(r: JsonV) -> Option<ApiErrorV> {
    match as_str_opt(get(r, "message"@)) {
        Some(message) => {
            let code = response_code(r);
            let status = match response_status(r) {
                Some(s) => s,
                None => 1,
            };
            let msg_status = match as_str_opt(get(r, "messageStatus"@)) {
                Some(s) => s,
                None => Seq::empty(),
            };
            if msg_status == "err_request_captcha_v2"@ || get(r, "messageExtra"@) is Some {
                Some(ApiErrorV::Captcha(r))
            } else if (code != 200 && code != 0 && code != 1) || !(status == 0 || status == 1)
                || starts_with(msg_status, "err_"@) {
                Some(ApiErrorV::Message(message))
            } else {
                None
            }
        },
        None => None,
    }
}

/// A successful answer: `{ code: 200, data }`, the data being the
/// response's `data`, or the whole response when it has none.
pub open spec fn wrapped_answer(r: JsonV) -> JsonV {
    JsonV::Object(
        seq![
            ("code"@, JsonV::Number(NumberV::PosInt(200))),
            ("data"@, match get(r, "data"@) {
                Some(d) => d,
                None => r,
            }),
        ],
    )
}

/// `i64::from_str` on a character sequence.
pub fn parse_i64_chars(cs: &Vec<char>) -> (r: Option<i64>)
    ensures
        r == parse_i64(cs@),
{
    let n = cs.len();
    let signed = n > 0 && (cs[0] == '+' || cs[0] == '-');
    let neg = n > 0 && cs[0] == '-';
    let start: usize = if signed {
        1
    } else {
        0
    };
    let mut digits: Vec<char> = Vec::new();
    let mut i = start;
    while i < n
        invariant
            start <= i <= n == cs@.len(),
            digits@ == cs@.subrange(start as int, i as int),
        decreases n - i,
    {
        digits.push(cs[i]);
        i += 1;
        assert(digits@ =~= cs@.subrange(start as int, i as int));
    }
    assert(digits@ =~= if cs@.len() > 0 && (cs@[0] == '+' || cs@[0] == '-') {
        cs@.drop_first()
    } else {
        cs@
    });
    let mut unsigned: Vec<char> = Vec::new();
    unsigned.push('+');
    let mut k: usize = 0;
    while k < digits.len()
        invariant
            k <= digits@.len(),
            unsigned@ == seq!['+'] + digits@.take(k as int),
        decreases digits@.len() - k,
    {
        unsigned.push(digits[k]);
        k += 1;
        assert(unsigned@ =~= seq!['+'] + digits@.take(k as int));
    }
    assert(digits@.take(k as int) =~= digits@);
    assert(unsigned@.drop_first() =~= digits@);
    let magnitude = match crate::json::parse_u64_chars(&unsigned) {
        Some(m) => m,
        None => {
            return None;
        },
    };
    if neg {
        if magnitude <= 9223372036854775808u64 {
            if magnitude == 9223372036854775808u64 {
                Some(i64::MIN)
            } else {
                Some(-(magnitude as i64))
            }
        } else {
            None
        }
    } else {
        if magnitude <= 9223372036854775807u64 {
            Some(magnitude as i64)
        } else {
            None
        }
    }
}

pub(crate) fn json_i64(v: &Json) -> (r: Option<i64>)
    ensures
        r == as_i64(json_view(*v)),
{
    match v {
        Json::Number(JsonNumber::PosInt(u)) => if *u <= 9223372036854775807u64 {
            Some(*u as i64)
        } else {
            None
        },
        Json::Number(JsonNumber::NegInt(i)) => Some(*i),
        _ => None,
    }
}

fn code_of(response: &Json) -> (r: i64)
    ensures
        r == response_code(json_view(*response)),
{
    match response.get("code") {
        Some(v) => match json_i64(v) {
            Some(c) => c,
            None => match v.as_str() {
                Some(s) => match parse_i64_chars(&chars_of(s)) {
                    Some(c) => c,
                    None => 200,
                },
                None => 200,
            },
        },
        None => 200,
    }
}

fn status_of(response: &Json) -> (r: Option<i64>)
    ensures
        r == response_status(json_view(*response)),
{
    match response.get("status") {
        Some(v) => json_i64(v),
        None => None,
    }
}

fn str_at<'a>(response: &'a Json, key: &str) -> (r: Option<&'a str>)
    ensures
        match r {
            Some(s) => as_str_opt(get(json_view(*response), key@)) == Some(s@),
            None => as_str_opt(get(json_view(*response), key@)) is None,
        },
{
    match response.get(key) {
        Some(v) => v.as_str(),
        None => None,
    }
}

fn envelope_refusal_of(response: &Json) -> (r: Option<ApiError>)
    ensures
        match r {
            Some(e) => envelope_refusal(json_view(*response)) == Some(api_error_view(e)),
            None => envelope_refusal(json_view(*response)) is None,
        },
{
    let message = match str_at(response, "message") {
        Some(m) => m,
        None => return None,
    };
    let code = code_of(response);
    let status = match status_of(response) {
        Some(s) => s,
        None => 1,
    };
    proof {
        reveal_strlit("");
        assert(""@ =~= Seq::<char>::empty());
    }
    let msg_status: &str = match str_at(response, "messageStatus") {
        Some(s) => s,
        None => "",
    };
    let ms = chars_of(msg_status);
    if crate::text::chars_eq_str(&ms, "err_request_captcha_v2") || response.get("messageExtra").is_some() {
        return Some(ApiError::Captcha(response.deep_copy()));
    }
    if (code != 200 && code != 0 && code != 1) || !(status == 0 || status == 1)
        || crate::text::chars_start_with(&ms, "err_") {
        return Some(ApiError::Message(message.to_string()));
    }
    None
}

/// The refusal a response carries (see `response_refusal`).
pub fn response_refusal_of(response: &Json) -> (r: Option<ApiError>)
    ensures
        match r {
            Some(e) => response_refusal(json_view(*response)) == Some(api_error_view(e)),
            None => response_refusal(json_view(*response)) is None,
        },
{
    if let Some(e) = str_at(response, "error") {
        let ec = chars_of(e);
        if ec.len() > 0 && !crate::text::chars_eq_str(&ec, "0") {
            return Some(ApiError::Message(e.to_string()));
        }
    }
    if let Some(err) = envelope_refusal_of(response) {
        return Some(err);
    }
    if let Some(status) = status_of(response) {
        if status < 0 {
            let m = match response.get("message") {
                Some(v) => Some(v),
                None => response.get("error"),
            };
            let text = match m {
                Some(v) => match v.as_str() {
                    Some(s) => s.to_string(),
                    None => "酷安服务端拒绝请求".to_string(),
                },
                None => "酷安服务端拒绝请求".to_string(),
            };
            return Some(ApiError::Message(text));
        }
    }
    None
}

/// `wrap_api_data`: the refusal a response carries, or the answer
/// `{ code: 200, data }`.
pub fn wrap_api_data(response: Json) -> (r: Result<Json, ApiError>)
    ensures
        match response_refusal(json_view(response)) {
            Some(e) => r matches Err(x) && api_error_view(x) == e,
            None => r matches Ok(a) && json_view(a) == wrapped_answer(json_view(response)),
        },
{
    if let Some(e) = response_refusal_of(&response) {
        return Err(e);
    }
    let data = match response.get("data") {
        Some(d) => d.deep_copy(),
        None => response.deep_copy(),
    };
    let mut out: Vec<(String, Json)> = Vec::new();
    let ghost dv = json_view(data);
    assert(dv == match get(json_view(response), "data"@) {
        Some(d) => d,
        None => json_view(response),
    });
    out.push(("code".to_string(), Json::Number(JsonNumber::PosInt(200))));
    out.push(("data".to_string(), data));
    assert(fields_view(out@) =~= seq![
        ("code"@, JsonV::Number(NumberV::PosInt(200))),
        ("data"@, dv),
    ]);
    let ghost ov = fields_view(out@);
    let a = Json::Object(out);
    proof {
        lemma_views(a);
    }
    assert(json_view(a) == JsonV::Object(ov));
    assert(ov == seq![
        ("code"@, JsonV::Number(NumberV::PosInt(200))),
        ("data"@, match get(json_view(response), "data"@) {
            Some(d) => d,
            None => json_view(response),
        }),
    ]);
    assert(json_view(a) == wrapped_answer(json_view(response)));
    Ok(a)
}

// ---------------------------------------------------------------------------
// Likes
// ---------------------------------------------------------------------------

/// The refusal of a like request, read before the envelope: a status of
/// 401 or 403 means the user is not logged in (the server's message, or a
/// default one, with a note); a negative status carries the server's
/// message (or error), or a default.
pub open spec fn like_refusal(res: JsonV) -> Option<Seq<char>> {
    match response_status(res) {
        Some(s) => if s == 401 || s == 403 {
            Some(
                match as_str_opt(get(res, "message"@)) {
                    Some(m) => m,
                    None => "请先登录后再点赞"@,
                } + "（当前未登录或登录已失效）"@,
            )
        } else if s < 0 {
            Some(
                match as_str_opt(
                    match get(res, "message"@) {
                        Some(v) => Some(v),
                        None => get(res, "error"@),
                    },
                ) {
                    Some(m) => m,
                    None => "点赞失败"@,
                },
            )
        } else {
            None
        },
        None => None,
    }
}

/// `like_action`'s handling of the answer: its like refusal, else the
/// envelope's refusal, else the wrapped answer.
pub fn like_answer(res: Json) -> (r: Result<Json, ApiError>)
    ensures
        match like_refusal(json_view(res)) {
            Some(m) => r matches Err(x) && api_error_view(x) == ApiErrorV::Message(m),
            None => match response_refusal(json_view(res)) {
                Some(e) => r matches Err(x) && api_error_view(x) == e,
                None => r matches Ok(a) && json_view(a) == wrapped_answer(json_view(res)),
            },
        },
{
    if let Some(status) = status_of(&res) {
        if status == 401 || status == 403 {
            let mut m = match str_at(&res, "message") {
                Some(t) => t.to_string(),
                None => "请先登录后再点赞".to_string(),
            };
            crate::text::push_str(&mut m, "（当前未登录或登录已失效）");
            return Err(ApiError::Message(m));
        }
        if status < 0 {
            let v = match res.get("message") {
                Some(v) => Some(v),
                None => res.get("error"),
            };
            let m = match v {
                Some(x) => match x.as_str() {
                    Some(t) => t.to_string(),
                    None => "点赞失败".to_string(),
                },
                None => "点赞失败".to_string(),
            };
            return Err(ApiError::Message(m));
        }
    }
    wrap_api_data(res)
}

} // verus!
