//! Logging in with a one-time access code: the session the code is
//! redeemed in, the credentials the server grants for it, and the cookie
//! that is saved for the account; and the session a login answer opens.

use vstd::prelude::*;
use crate::api::response_status;
use crate::apk::{value_text, value_to_string};
use crate::outside::{hex_encode, hex_lower_text, md5_digest, md5_of};
use crate::cookie::{
    cookie_key, encode_cookie_bytes, encode_login_cookie_value, has_live_session, has_valid_session_cookie,
    lemma_kept_pieces_unnamed, merge_cookie_value, merged_header, named, remove_cookie_values, removed_header,
    sanitize_cookie, sanitized_cookie, without_names,
};
use crate::feed::{count, count_json, push_field};
use crate::json::{as_str_opt, fields_view, get, json_view, lemma_views, Json, JsonV};
use crate::text::{
    chars_of, contains, join, params_view, push_str, range_eq_str, ranges_of, ranges_within, split, split_bounds, str_views, string_of,
    string_of_range, trim, trimmed, trimmed_str,
};

verus! {

/// Why an access-code login failed.
#[derive(Debug)]
pub enum LoginError {
    /// The access code is blank.
    EmptyCode,
    /// Neither the callback nor the client holds a cookie.
    NoCallbackCookie,
    /// The cookie holds no live `SESSID`.
    NoSession,
    /// The grant lacks a usable uid, the username or the token.
    IncompleteGrant,
}

impl LoginError {
    /// The message shown for the error.
    pub fn message(&self) -> (r: String)
        ensures
            match self {
                LoginError::EmptyCode => r@ == "酷安授权码为空"@,
                LoginError::NoCallbackCookie => r@ == "授权回调没有带回登录 Cookie"@,
                LoginError::NoSession => r@ == "授权回调没有带回有效的 SESSID"@,
                LoginError::IncompleteGrant => r@ == "酷安授权接口未返回完整登录信息"@,
            },
    {
        match self {
            LoginError::EmptyCode => "酷安授权码为空".to_string(),
            LoginError::NoCallbackCookie => "授权回调没有带回登录 Cookie".to_string(),
            LoginError::NoSession => "授权回调没有带回有效的 SESSID".to_string(),
            LoginError::IncompleteGrant => "酷安授权接口未返回完整登录信息".to_string(),
        }
    }
}

/// Model of `LoginError`.
pub enum LoginErrorV {
    EmptyCode,
    NoCallbackCookie,
    NoSession,
    IncompleteGrant,
}

pub open spec fn login_error_view(e: LoginError) -> LoginErrorV {
    match e {
        LoginError::EmptyCode => LoginErrorV::EmptyCode,
        LoginError::NoCallbackCookie => LoginErrorV::NoCallbackCookie,
        LoginError::NoSession => LoginErrorV::NoSession,
        LoginError::IncompleteGrant => LoginErrorV::IncompleteGrant,
    }
}

/// The cookies a grant replaces.
pub open spec fn identity_cookie_names() -> Seq<Seq<char>> {
    seq!["uid"@, "username"@, "token"@]
}

/// The code and session an access code is redeemed with: the trimmed code;
/// the callback's cookie (cleaned) when it is not blank, else the client's
/// own; with its `uid`, `username` and `token` removed, so that no earlier
/// account's identity goes with the code. Refused when the code is blank,
/// when there is no cookie, or when the cookie holds no live session.
pub open spec fn access_code_session(
    code: Seq<char>,
    callback_cookie: Option<Seq<char>>,
    current_cookie: Option<Seq<char>>,
) -> Result<(Seq<char>, Seq<char>), LoginErrorV> {
    let c = trim(code);
    if c.len() == 0 {
        Err(LoginErrorV::EmptyCode)
    } else {
        let raw = match callback_cookie {
            Some(v) if trim(v).len() > 0 => Some(sanitized_cookie(v)),
            _ => current_cookie,
        };
        match raw {
            None => Err(LoginErrorV::NoCallbackCookie),
            Some(r) => {
                let cookie = removed_header(r, identity_cookie_names());
                if !has_live_session(cookie) {
                    Err(LoginErrorV::NoSession)
                } else {
                    Ok((c, cookie))
                }
            },
        }
    }
}

/// An access code is never redeemed with an earlier account's identity:
/// the cookie it is redeemed with is made of pieces none of which is
/// named `uid`, `username` or `token`.
pub proof fn law_access_code_session_has_no_identity(
    code: Seq<char>,
    callback_cookie: Option<Seq<char>>,
    current_cookie: Option<Seq<char>>,
)
    requires
        access_code_session(code, callback_cookie, current_cookie) is Ok,
    ensures
        exists|pieces: Seq<Seq<char>>|
            #![trigger join(pieces, "; "@)]
            access_code_session(code, callback_cookie, current_cookie)->Ok_0.1 == join(pieces, "; "@) && forall|k: int|
                0 <= k < pieces.len() ==> !named(cookie_key(#[trigger] pieces[k]), identity_cookie_names()),
{
    let raw = match callback_cookie {
        Some(v) if trim(v).len() > 0 => Some(sanitized_cookie(v)),
        _ => current_cookie,
    };
    let r = raw->Some_0;
    let pieces = without_names(split(r, ';'), identity_cookie_names());
    lemma_kept_pieces_unnamed(split(r, ';'), identity_cookie_names());
    assert(access_code_session(code, callback_cookie, current_cookie)->Ok_0.1 == join(pieces, "; "@));
}

/// Builds `access_code_session`.
pub fn access_code_login_session(code: &str, callback_cookie: Option<&str>, current_cookie: Option<&str>) -> (r: Result<
    (String, String),
    LoginError,
>)
    ensures
        match r {
            Ok((c, k)) => access_code_session(
                code@,
                match callback_cookie {
                    Some(s) => Some(s@),
                    None => None,
                },
                match current_cookie {
                    Some(s) => Some(s@),
                    None => None,
                },
            ) == Ok::<(Seq<char>, Seq<char>), LoginErrorV>((c@, k@)),
            Err(e) => access_code_session(
                code@,
                match callback_cookie {
                    Some(s) => Some(s@),
                    None => None,
                },
                match current_cookie {
                    Some(s) => Some(s@),
                    None => None,
                },
            ) == Err::<(Seq<char>, Seq<char>), LoginErrorV>(login_error_view(e)),
        },
{
    let c = trimmed_str(code);
    if c.len() == 0 {
        return Err(LoginError::EmptyCode);
    }
    let from_callback = match callback_cookie {
        Some(v) => if trimmed_str(v).len() > 0 {
            Some(sanitize_cookie(v))
        } else {
            None
        },
        None => None,
    };
    let raw: String = match from_callback {
        Some(s) => s,
        None => match current_cookie {
            Some(s) => s.to_string(),
            None => {
                return Err(LoginError::NoCallbackCookie);
            },
        },
    };
    let names = ["uid", "username", "token"];
    assert(str_views(names@) =~= identity_cookie_names());
    let cookie = remove_cookie_values(raw.as_str(), &names);
    if !has_valid_session_cookie(cookie.as_str()) {
        return Err(LoginError::NoSession);
    }
    Ok((string_of(&c), cookie))
}

/// What the server grants for an access code.
pub struct LoginGrant {
    pub uid: String,
    pub username: String,
    pub token: String,
    pub avatar: String,
}

/// Model of `LoginGrant`.
pub struct LoginGrantV {
    pub uid: Seq<char>,
    pub username: Seq<char>,
    pub token: Seq<char>,
    pub avatar: Seq<char>,
}

pub open spec fn grant_view(g: LoginGrant) -> LoginGrantV {
    LoginGrantV { uid: g.uid@, username: g.username@, token: g.token@, avatar: g.avatar@ }
}

/// A field read under either of two names (the first present), as text.
pub open spec fn either_text(d: JsonV, a: Seq<char>, b: Seq<char>) -> Seq<char> {
    match get(d, a) {
        Some(v) => value_text(v),
        None => match get(d, b) {
            Some(v) => value_text(v),
            None => Seq::empty(),
        },
    }
}

/// The credentials of an access-token answer, read from its `data` (the
/// answer itself when it has none): the uid (`uid` or `id`), username
/// (`username` or `userName`), token (a non-empty `refreshToken`, else
/// `token`) and avatar (`userAvatar` or `avatar`). Refused when the uid is
/// empty, `0` or the guest id `10000`, or the username or token is empty.
pub open spec fn access_grant(result: JsonV) -> Option<LoginGrantV> {
    let d = match get(result, "data"@) {
        Some(v) => v,
        None => result,
    };
    let uid = either_text(d, "uid"@, "id"@);
    let username = either_text(d, "username"@, "userName"@);
    let refresh = match get(d, "refreshToken"@) {
        Some(v) => value_text(v),
        None => Seq::empty(),
    };
    let token = if refresh.len() > 0 {
        refresh
    } else {
        match get(d, "token"@) {
            Some(v) => value_text(v),
            None => Seq::empty(),
        }
    };
    let avatar = either_text(d, "userAvatar"@, "avatar"@);
    if uid.len() == 0 || uid == "0"@ || uid == "10000"@ || username.len() == 0 || token.len() == 0 {
        None
    } else {
        Some(LoginGrantV { uid, username, token, avatar })
    }
}

fn either_text_of(d: &Json, a: &str, b: &str) -> (r: String)
    ensures
        r@ == either_text(json_view(*d), a@, b@),
{
    match d.get(a) {
        Some(v) => value_to_string(v),
        None => match d.get(b) {
            Some(v) => value_to_string(v),
            None => String::new(),
        },
    }
}

/// The credentials of an access-token answer (see `access_grant`).
pub fn access_token_grant(result: &Json) -> (r: Result<LoginGrant, LoginError>)
    ensures
        match r {
            Ok(g) => access_grant(json_view(*result)) == Some(grant_view(g)),
            Err(e) => access_grant(json_view(*result)) is None && e is IncompleteGrant,
        },
{
    let d: &Json = match result.get("data") {
        Some(v) => v,
        None => result,
    };
    let uid = either_text_of(d, "uid", "id");
    let username = either_text_of(d, "username", "userName");
    let refresh = match d.get("refreshToken") {
        Some(v) => value_to_string(v),
        None => String::new(),
    };
    let token = if !refresh.as_str().is_empty() {
        refresh
    } else {
        match d.get("token") {
            Some(v) => value_to_string(v),
            None => String::new(),
        }
    };
    let avatar = either_text_of(d, "userAvatar", "avatar");
    proof {
        reveal_strlit("0");
        reveal_strlit("10000");
    }
    let uc = crate::text::chars_of(uid.as_str());
    if uid.as_str().is_empty() || crate::text::chars_eq_str(&uc, "0") || crate::text::chars_eq_str(&uc, "10000")
        || username.as_str().is_empty() || token.as_str().is_empty() {
        return Err(LoginError::IncompleteGrant);
    }
    Ok(LoginGrant { uid, username, token, avatar })
}

/// The cookie saved for a granted account: the redeeming session's cookie
/// with the encoded `uid`, `username` and `token` merged in, in that order.
pub open spec fn granted_cookie(cookie: Seq<char>, uid_enc: Seq<char>, name_enc: Seq<char>, token_enc: Seq<char>) -> Seq<char> {
    merged_header(merged_header(merged_header(cookie, "uid"@, uid_enc), "username"@, name_enc), "token"@, token_enc)
}

/// Builds `granted_cookie` for a grant, each value encoded as a login
/// cookie value.
pub fn granted_account_cookie(cookie: &str, grant: &LoginGrant) -> (r: String)
    ensures
        r@ == granted_cookie(
            cookie@,
            encode_cookie_bytes(vstd::utf8::encode_utf8(grant.uid@)),
            encode_cookie_bytes(vstd::utf8::encode_utf8(grant.username@)),
            encode_cookie_bytes(vstd::utf8::encode_utf8(grant.token@)),
        ),
{
    let a = merge_cookie_value(cookie, "uid", encode_login_cookie_value(grant.uid.as_str()).as_str());
    let b = merge_cookie_value(a.as_str(), "username", encode_login_cookie_value(grant.username.as_str()).as_str());
    merge_cookie_value(b.as_str(), "token", encode_login_cookie_value(grant.token.as_str()).as_str())
}

/// The session cookie a login answer opens: `SESSID` from the answer's
/// `sessid` (else `token`) and, when given, its `uid` (else `id`), both as
/// strings; `None` when the answer has no `data` or no session string.
pub open spec fn answer_session(response: JsonV) -> Option<Seq<char>> {
    match get(response, "data"@) {
        Some(d) => {
            let sess = as_str_opt(
                match get(d, "sessid"@) {
                    Some(v) => Some(v),
                    None => get(d, "token"@),
                },
            );
            let uid = as_str_opt(
                match get(d, "uid"@) {
                    Some(v) => Some(v),
                    None => get(d, "id"@),
                },
            );
            match sess {
                Some(s) => match uid {
                    Some(u) => Some("SESSID="@ + s + "; uid="@ + u),
                    None => Some("SESSID="@ + s),
                },
                None => None,
            }
        },
        None => None,
    }
}

/// `extract_and_set_session`: the cookie a login answer opens (see
/// `answer_session`).
pub fn session_cookie_of(response: &Json) -> (r: Option<String>)
    ensures
        match r {
            Some(c) => answer_session(json_view(*response)) == Some(c@),
            None => answer_session(json_view(*response)) is None,
        },
{
    let d = match response.get("data") {
        Some(d) => d,
        None => {
            return None;
        },
    };
    let sv = match d.get("sessid") {
        Some(v) => Some(v),
        None => d.get("token"),
    };
    let uv = match d.get("uid") {
        Some(v) => Some(v),
        None => d.get("id"),
    };
    let sess = match sv {
        Some(v) => v.as_str(),
        None => None,
    };
    let uid = match uv {
        Some(v) => v.as_str(),
        None => None,
    };
    match sess {
        Some(s) => {
            let mut out = "SESSID=".to_string();
            push_str(&mut out, s);
            if let Some(u) = uid {
                push_str(&mut out, "; uid=");
                push_str(&mut out, u);
            }
            Some(out)
        },
        None => None,
    }
}

// ---------------------------------------------------------------------------
// Login status
// ---------------------------------------------------------------------------

/// The uid of one cookie piece as the status check reads it: the trimmed
/// piece must split at `=` into exactly `uid` and a value.
pub open spec fn status_uid_piece(item: Seq<char>) -> Option<Seq<char>> {
    let parts = split(trim(item), '=');
    if parts.len() == 2 && parts[0] == "uid"@ {
        Some(parts[1])
    } else {
        None
    }
}

/// The first piece that names the uid.
pub open spec fn status_uid(parts: Seq<Seq<char>>) -> Option<Seq<char>>
    decreases parts.len(),
{
    if parts.len() == 0 {
        None
    } else {
        match status_uid_piece(parts[0]) {
            Some(u) => Some(u),
            None => status_uid(parts.drop_first()),
        }
    }
}

/// The uid whose space page completes a login status check: that of the
/// saved cookie, if it names one.
pub open spec fn login_status_uid(cookie: Seq<char>) -> Option<Seq<char>> {
    status_uid(split(cookie, ';'))
}

/// Reads `login_status_uid`.
pub fn login_status_uid_of(cookie: &str) -> (r: Option<String>)
    ensures
        match r {
            Some(u) => login_status_uid(cookie@) == Some(u@),
            None => login_status_uid(cookie@) is None,
        },
{
    let cs = chars_of(cookie);
    let pieces = split_bounds(&cs, ';');
    let ghost parts = split(cs@, ';');
    assert(cs@ == cookie@);
    let mut k: usize = 0;
    assert(parts.skip(0) =~= parts);
    while k < pieces.len()
        invariant
            k <= pieces@.len(),
            ranges_within(pieces@, cs@.len() as int),
            ranges_of(cs@, pieces@) == parts,
            cs@ == cookie@,
            parts == split(cookie@, ';'),
            status_uid(parts) == status_uid(parts.skip(k as int)),
        decreases pieces@.len() - k,
    {
        let (lo, hi) = pieces[k];
        proof {
            assert(pieces@[k as int].0 <= pieces@[k as int].1 <= cs@.len());
            assert(parts[k as int] == cs@.subrange(lo as int, hi as int));
            assert(parts.skip(k as int)[0] == parts[k as int]);
            assert(parts.skip(k as int).drop_first() =~= parts.skip(k + 1));
        }
        let t = trimmed(&cs, lo, hi);
        let sub = split_bounds(&t, '=');
        if sub.len() == 2 {
            let (a, b) = sub[0];
            let (c, d) = sub[1];
            proof {
                assert(sub@[0].0 <= sub@[0].1 <= t@.len());
                assert(sub@[1].0 <= sub@[1].1 <= t@.len());
                assert(ranges_of(t@, sub@)[0] == t@.subrange(a as int, b as int));
                assert(ranges_of(t@, sub@)[1] == t@.subrange(c as int, d as int));
            }
            if range_eq_str(&t, a, b, "uid") {
                return Some(string_of_range(&t, c, d));
            }
        }
        k += 1;
    }
    None
}

/// The answer of a login status check: the user's space data as an
/// answer when the space request succeeded with data, else the login
/// check's own answer.
pub open spec fn login_status_answer(login_info: JsonV, space: Option<JsonV>) -> JsonV {
    match space {
        Some(res) => match get(res, "data"@) {
            Some(d) => JsonV::Object(seq![("code"@, count(200)), ("data"@, d)]),
            None => login_info,
        },
        None => login_info,
    }
}

/// Builds `login_status_answer`; `space` is the space request's answer,
/// `None` when it was not made or failed.
pub fn login_status_result(login_info: Json, space: Option<&Json>) -> (r: Json)
    ensures
        json_view(r) == login_status_answer(
            json_view(login_info),
            match space {
                Some(j) => Some(json_view(*j)),
                None => None,
            },
        ),
{
    if let Some(res) = space {
        if let Some(d) = res.get("data") {
            let mut out: Vec<(String, Json)> = Vec::new();
            assert(fields_view(out@) =~= Seq::<(Seq<char>, JsonV)>::empty());
            push_field(&mut out, "code", count_json(200));
            push_field(&mut out, "data", d.deep_copy());
            let ghost ov = fields_view(out@);
            let r = Json::Object(out);
            proof {
                lemma_views(r);
            }
            assert(ov =~= seq![("code"@, count(200)), ("data"@, json_view(*d))]);
            return r;
        }
    }
    login_info
}

// ---------------------------------------------------------------------------
// Logging in through the official web page
// ---------------------------------------------------------------------------

/// The cookie a login page hands back, cleaned; `None` when it holds no
/// live session, which is refused.
pub open spec fn webview_session(cookie: Seq<char>) -> Option<Seq<char>> {
    let c = sanitized_cookie(cookie);
    if has_live_session(c) {
        Some(c)
    } else {
        None
    }
}

/// Builds `webview_session`.
pub fn webview_login_cookie(cookie: &str) -> (r: Option<String>)
    ensures
        match r {
            Some(c) => webview_session(cookie@) == Some(c@),
            None => webview_session(cookie@) is None,
        },
{
    let c = sanitize_cookie(cookie);
    if has_valid_session_cookie(c.as_str()) {
        Some(c)
    } else {
        None
    }
}

/// The account a login check names, from its `data` (the answer itself
/// when it has none): uid (`uid` or `id`), username (`username` or
/// `userName`) and avatar (`userAvatar` or `avatar`); `None` when the uid
/// is empty, `0` or the guest id `10000`.
pub open spec fn login_identity(result: JsonV) -> Option<(Seq<char>, Seq<char>, Seq<char>)> {
    let d = match get(result, "data"@) {
        Some(v) => v,
        None => result,
    };
    let uid = either_text(d, "uid"@, "id"@);
    if uid.len() == 0 || uid == "0"@ || uid == "10000"@ {
        None
    } else {
        Some((uid, either_text(d, "username"@, "userName"@), either_text(d, "userAvatar"@, "avatar"@)))
    }
}

/// Reads `login_identity`.
pub fn login_identity_of(result: &Json) -> (r: Option<(String, String, String)>)
    ensures
        match r {
            Some((u, n, a)) => login_identity(json_view(*result)) == Some((u@, n@, a@)),
            None => login_identity(json_view(*result)) is None,
        },
{
    let d: &Json = match result.get("data") {
        Some(v) => v,
        None => result,
    };
    let uid = either_text_of(d, "uid", "id");
    proof {
        reveal_strlit("0");
        reveal_strlit("10000");
    }
    let uc = chars_of(uid.as_str());
    if uid.as_str().is_empty() || crate::text::chars_eq_str(&uc, "0") || crate::text::chars_eq_str(&uc, "10000") {
        return None;
    }
    Some((uid, either_text_of(d, "username", "userName"), either_text_of(d, "userAvatar", "avatar")))
}

// ---------------------------------------------------------------------------
// Logging in with account and password
// ---------------------------------------------------------------------------

/// The form of `/v6/account/login`: the account, the password, and the
/// password's MD5 digest in lower-case hexadecimal under both names the
/// server reads.
pub open spec fn account_login_fields(account: Seq<char>, password: Seq<char>) -> Seq<(Seq<char>, Seq<char>)> {
    let h = hex_lower_text(md5_of(vstd::utf8::encode_utf8(password)));
    seq![("login"@, account), ("password"@, password), ("md5_pass"@, h), ("md5_password"@, h)]
}

/// Builds `account_login_fields`.
pub fn account_login_form(account: &str, password: &str) -> (r: Vec<(&'static str, String)>)
    ensures
        params_view(r@) == account_login_fields(account@, password@),
{
    let digest = md5_digest(password.as_bytes());
    let h = hex_encode(digest.as_slice());
    let mut q: Vec<(&'static str, String)> = Vec::new();
    q.push(("login", account.to_string()));
    q.push(("password", password.to_string()));
    q.push(("md5_pass", h.clone()));
    q.push(("md5_password", h));
    assert(params_view(q@) =~= account_login_fields(account@, password@));
    q
}

/// Whether the server refuses password logins: a message that says
/// `unsupported`, or one that comes with status 403.
pub open spec fn password_login_refused(res: JsonV) -> bool {
    match as_str_opt(get(res, "message"@)) {
        Some(m) => contains(m, "unsupported"@) || response_status(res) == Some(403i64),
        None => false,
    }
}

/// Decides `password_login_refused`.
pub fn is_password_login_refused(res: &Json) -> (r: bool)
    ensures
        r == password_login_refused(json_view(*res)),
{
    let m = match res.get("message") {
        Some(v) => v.as_str(),
        None => None,
    };
    match m {
        Some(t) => {
            let st = match res.get("status") {
                Some(v) => crate::api::json_i64(v),
                None => None,
            };
            crate::text::chars_contain(&chars_of(t), "unsupported") || st == Some(403i64)
        },
        None => false,
    }
}

// ---------------------------------------------------------------------------
// Checking the session
// ---------------------------------------------------------------------------

/// Why the saved session cannot be checked.
#[derive(Debug)]
pub enum SessionError {
    /// No cookie is saved.
    NoCookie,
    /// The cookie holds no live session.
    NoSession,
    /// The server names no account for the session.
    NotLoggedIn,
}

impl SessionError {
    /// The message shown for the error.
    pub fn message(&self) -> (r: String)
        ensures
            match self {
                SessionError::NoCookie => r@ == "当前没有登录凭据"@,
                SessionError::NoSession => r@ == "当前 Cookie 不包含有效会话"@,
                SessionError::NotLoggedIn => r@ == "酷安账号尚未登录"@,
            },
    {
        match self {
            SessionError::NoCookie => "当前没有登录凭据".to_string(),
            SessionError::NoSession => "当前 Cookie 不包含有效会话".to_string(),
            SessionError::NotLoggedIn => "酷安账号尚未登录".to_string(),
        }
    }
}

/// Whether the saved cookie can be checked with the server: there is one
/// and it holds a live session (`Ok(true)`); else which of the two is
/// missing.
pub open spec fn session_checkable(cookie: Option<Seq<char>>) -> Result<(), SessionError> {
    match cookie {
        None => Err(SessionError::NoCookie),
        Some(c) => if has_live_session(c) {
            Ok(())
        } else {
            Err(SessionError::NoSession)
        },
    }
}

/// Decides `session_checkable`.
pub fn check_session_cookie(cookie: Option<&str>) -> (r: Result<(), SessionError>)
    ensures
        r == session_checkable(
            match cookie {
                Some(c) => Some(c@),
                None => None,
            },
        ),
{
    match cookie {
        None => Err(SessionError::NoCookie),
        Some(c) => if has_valid_session_cookie(c) {
            Ok(())
        } else {
            Err(SessionError::NoSession)
        },
    }
}

/// The outcome of the login check: the check's answer when it names an
/// account (see `login_identity`), else not logged in.
pub fn checked_login_info(result: Json) -> (r: Result<Json, SessionError>)
    ensures
        match r {
            Ok(j) => j == result && login_identity(json_view(result)) is Some,
            Err(e) => e is NotLoggedIn && login_identity(json_view(result)) is None,
        },
{
    match login_identity_of(&result) {
        Some(_) => Ok(result),
        None => Err(SessionError::NotLoggedIn),
    }
}

// ---------------------------------------------------------------------------
// Home tab configuration
// ---------------------------------------------------------------------------

/// The answer of saving the home tab configuration: without a login it is
/// kept locally only; otherwise the server's answer, or its refusal as a
/// warning (the local copy is kept either way).
pub open spec fn home_tab_answer(outcome: Option<Result<JsonV, Seq<char>>>) -> JsonV {
    match outcome {
        None => JsonV::Object(seq![("code"@, count(200)), ("message"@, JsonV::Str("未登录，已保存至本地"@))]),
        Some(Ok(raw)) => JsonV::Object(seq![("code"@, count(200)), ("data"@, raw)]),
        Some(Err(w)) => JsonV::Object(seq![("code"@, count(200)), ("warning"@, JsonV::Str(w))]),
    }
}

/// The model of a request's outcome.
pub open spec fn outcome_view(o: Option<Result<Json, String>>) -> Option<Result<JsonV, Seq<char>>> {
    match o {
        None => None,
        Some(Ok(j)) => Some(Ok(json_view(j))),
        Some(Err(w)) => Some(Err(w@)),
    }
}

/// Builds `home_tab_answer`; `outcome` is `None` when no user is logged in,
/// else the sync request's answer or error.
pub fn home_tab_config_result(outcome: Option<Result<Json, String>>) -> (r: Json)
    ensures
        json_view(r) == home_tab_answer(outcome_view(outcome)),
{
    let ghost want = home_tab_answer(outcome_view(outcome));
    let mut out: Vec<(String, Json)> = Vec::new();
    assert(fields_view(out@) =~= Seq::<(Seq<char>, JsonV)>::empty());
    push_field(&mut out, "code", count_json(200));
    match outcome {
        None => push_field(&mut out, "message", Json::Str("未登录，已保存至本地".to_string())),
        Some(Ok(j)) => push_field(&mut out, "data", j),
        Some(Err(w)) => push_field(&mut out, "warning", Json::Str(w)),
    }
    let ghost ov = fields_view(out@);
    let r = Json::Object(out);
    proof {
        lemma_views(r);
    }
    assert(ov =~= want->Object_0);
    r
}

} // verus!
