//! The saved-account store: `{ lastLoginUid, accounts: [...] }`, where
//! each account is `{ uid, username, userAvatar, cookie }`. Reading it,
//! saving and removing accounts, and choosing the cookie to log in with.

use vstd::prelude::*;
use crate::cookie::{
    cookie_uid_field, first_uid_field, has_live_session, has_valid_session_cookie, sanitize_cookie,
    law_plain_cookie_is_stored_unchanged, plain_ascii_cookie, sanitized_cookie,
};
use crate::feed::{insert_field, insert_json_field, push_field, FieldsV};
use crate::json::{
    as_array, as_str, as_str_opt, field_of, field_value, fields_view, get, items_view, json_view,
    lemma_views, Json, JsonV,
};
use crate::text::{chars_eq, chars_eq_str, chars_of, split, string_of, trim, trimmed_str};

verus! {

// ---------------------------------------------------------------------------
// Model
// ---------------------------------------------------------------------------

/// The uid an account is saved under, when it is a string.
pub open spec fn account_uid(e: JsonV) -> Option<Seq<char>> {
    as_str_opt(get(e, "uid"@))
}

/// The accounts of a store: its `accounts` list, else none.
pub open spec fn stored_accounts(root: JsonV) -> Seq<JsonV> {
    match get(root, "accounts"@) {
        Some(JsonV::Array(items)) => items,
        _ => Seq::empty(),
    }
}

/// The store an unreadable or missing file stands for.
pub open spec fn empty_store() -> JsonV {
    JsonV::Object(seq![("lastLoginUid"@, JsonV::Str(Seq::empty())), ("accounts"@, JsonV::Array(Seq::empty()))])
}

/// A store can be written to: an object, or `null` (which becomes one).
pub open spec fn writable_store(root: JsonV) -> bool {
    root is Object || root is Null
}

/// `root[key] = value`: the field replaced or added; `null` becomes an
/// object first.
pub open spec fn store_set(root: JsonV, key: Seq<char>, value: JsonV) -> JsonV {
    match root {
        JsonV::Object(f) => JsonV::Object(insert_field(f, key, value)),
        _ => JsonV::Object(seq![(key, value)]),
    }
}

/// The saved form of an account.
pub open spec fn account_entry(uid: Seq<char>, username: Seq<char>, avatar: Seq<char>, cookie: Seq<char>) -> JsonV {
    JsonV::Object(seq![
        ("uid"@, JsonV::Str(uid)),
        ("username"@, JsonV::Str(username)),
        ("userAvatar"@, JsonV::Str(avatar)),
        ("cookie"@, JsonV::Str(cookie)),
    ])
}

/// Position of the first account saved under `uid`.
pub open spec fn account_index(accounts: Seq<JsonV>, uid: Seq<char>) -> Option<int>
    decreases accounts.len(),
{
    if accounts.len() == 0 {
        None
    } else if account_uid(accounts[0]) == Some(uid) {
        Some(0)
    } else {
        match account_index(accounts.drop_first(), uid) {
            Some(i) => Some(i + 1),
            None => None,
        }
    }
}

/// The list with the account saved under `uid` replaced by `entry`, or
/// with `entry` added at the end.
pub open spec fn upsert_account(accounts: Seq<JsonV>, uid: Seq<char>, entry: JsonV) -> Seq<JsonV> {
    match account_index(accounts, uid) {
        Some(i) => accounts.update(i, entry),
        None => accounts.push(entry),
    }
}

/// The list without the accounts saved under `uid`.
pub open spec fn without_account(accounts: Seq<JsonV>, uid: Seq<char>) -> Seq<JsonV>
    decreases accounts.len(),
{
    if accounts.len() == 0 {
        Seq::empty()
    } else {
        without_account(accounts.drop_last(), uid) + if account_uid(accounts.last()) == Some(uid) {
            Seq::empty()
        } else {
            seq![accounts.last()]
        }
    }
}

/// Why an account was not saved or not used.
pub enum AccountError {
    /// Blank, `0` or the guest id `10000`.
    InvalidUid,
    /// The cookie has no live `SESSID`.
    NoSession,
    /// No account is saved under the uid.
    NotFound,
    /// The saved cookie is empty.
    EmptyCookie,
}

impl AccountError {
    /// The message shown for the error.
    pub fn message(&self) -> (r: String)
        ensures
            match self {
                AccountError::InvalidUid => r@ == "账户 UID 无效"@,
                AccountError::NoSession => r@ == "账户凭据缺少有效的 SESSID"@,
                AccountError::NotFound => r@ == "未找到该账户的已保存凭据"@,
                AccountError::EmptyCookie => r@ == "该账户凭据为空"@,
            },
    {
        match self {
            AccountError::InvalidUid => "账户 UID 无效".to_string(),
            AccountError::NoSession => "账户凭据缺少有效的 SESSID".to_string(),
            AccountError::NotFound => "未找到该账户的已保存凭据".to_string(),
            AccountError::EmptyCookie => "该账户凭据为空".to_string(),
        }
    }
}

/// A uid that may own a saved account.
pub open spec fn valid_account_uid(uid: Seq<char>) -> bool {
    trim(uid).len() > 0 && uid != "0"@ && uid != "10000"@
}

/// The store after saving an account and making it the last login: the
/// uid must be valid and the sanitized cookie must hold a live session.
pub open spec fn saved_store(
    root: JsonV,
    uid: Seq<char>,
    username: Seq<char>,
    avatar: Seq<char>,
    cookie: Seq<char>,
) -> Result<JsonV, AccountError> {
    let safe = sanitized_cookie(cookie);
    if !valid_account_uid(uid) {
        Err(AccountError::InvalidUid)
    } else if !has_live_session(safe) {
        Err(AccountError::NoSession)
    } else {
        let accounts = upsert_account(stored_accounts(root), uid, account_entry(uid, username, avatar, safe));
        Ok(store_set(store_set(root, "accounts"@, JsonV::Array(accounts)), "lastLoginUid"@, JsonV::Str(uid)))
    }
}

// ---------------------------------------------------------------------------
// Reading and writing the store
// ---------------------------------------------------------------------------

/// The store of a missing or unreadable file.
pub fn default_accounts_root() -> (r: Json)
    ensures
        json_view(r) == empty_store(),
{
    let accounts: Vec<Json> = Vec::new();
    let list = Json::Array(accounts);
    proof {
        lemma_views(list);
        assert(items_view(accounts@) =~= Seq::<JsonV>::empty());
    }
    let mut f: Vec<(String, Json)> = Vec::new();
    assert(fields_view(f@) =~= Seq::<(Seq<char>, JsonV)>::empty());
    push_field(&mut f, "lastLoginUid", Json::Str(String::new()));
    push_field(&mut f, "accounts", list);
    let ghost fv = fields_view(f@);
    let r = Json::Object(f);
    proof {
        lemma_views(r);
    }
    assert(fv =~= empty_store()->Object_0);
    r
}

/// The accounts of a store.
pub fn load_accounts(root: &Json) -> (r: Vec<Json>)
    ensures
        items_view(r@) == stored_accounts(json_view(*root)),
{
    match root.get("accounts") {
        Some(Json::Array(items)) => {
            proof {
                lemma_views(Json::Array(*items));
            }
            let mut out: Vec<Json> = Vec::new();
            let mut i: usize = 0;
            while i < items.len()
                invariant
                    i <= items@.len(),
                    out@.len() == i,
                    forall|k: int| 0 <= k < i ==> json_view(#[trigger] out@[k]) == json_view(items@[k]),
                decreases items@.len() - i,
            {
                out.push(items[i].deep_copy());
                i += 1;
            }
            assert(items_view(out@) =~= items_view(items@));
            out
        },
        other => {
            let out: Vec<Json> = Vec::new();
            proof {
                match other {
                    Some(v) => {
                        lemma_views(*v);
                    },
                    None => {},
                }
            }
            assert(items_view(out@) =~= Seq::<JsonV>::empty());
            out
        },
    }
}

/// `root[key] = value`.
fn store_set_of(root: Json, key: &str, value: Json) -> (r: Json)
    requires
        writable_store(json_view(root)),
    ensures
        json_view(r) == store_set(json_view(root), key@, json_view(value)),
{
    proof {
        lemma_views(root);
    }
    match root {
        Json::Object(fields) => {
            let mut fields = fields;
            insert_json_field(&mut fields, key, value);
            let ghost fv = fields_view(fields@);
            let r = Json::Object(fields);
            proof {
                lemma_views(r);
            }
            r
        },
        _ => {
            let mut f: Vec<(String, Json)> = Vec::new();
            assert(fields_view(f@) =~= Seq::<(Seq<char>, JsonV)>::empty());
            push_field(&mut f, key, value);
            let ghost fv = fields_view(f@);
            let r = Json::Object(f);
            proof {
                lemma_views(r);
            }
            assert(fv =~= seq![(key@, json_view(value))]);
            r
        },
    }
}

/// The uid an account is saved under.
fn account_uid_of(e: &Json) -> (r: Option<&str>)
    ensures
        match r {
            Some(u) => account_uid(json_view(*e)) == Some(u@),
            None => account_uid(json_view(*e)) is None,
        },
{
    match e.get("uid") {
        Some(v) => v.as_str(),
        None => None,
    }
}

proof fn lemma_account_index(a: Seq<JsonV>, uid: Seq<char>, i: int)
    requires
        0 <= i <= a.len(),
        forall|j: int| 0 <= j < i ==> account_uid(#[trigger] a[j]) != Some(uid),
    ensures
        i < a.len() && account_uid(a[i]) == Some(uid) ==> account_index(a, uid) == Some(i),
        i == a.len() ==> account_index(a, uid) is None,
    decreases a.len(),
{
    if a.len() > 0 && i > 0 {
        assert forall|j: int| 0 <= j < i - 1 implies account_uid(#[trigger] a.drop_first()[j]) != Some(uid) by {
            assert(a.drop_first()[j] == a[j + 1]);
        }
        lemma_account_index(a.drop_first(), uid, i - 1);
    }
}

/// Position of the first account saved under `uid`.
fn account_index_of(accounts: &Vec<Json>, uid: &str) -> (r: Option<usize>)
    ensures
        match r {
            Some(i) => account_index(items_view(accounts@), uid@) == Some(i as int) && i < accounts@.len(),
            None => account_index(items_view(accounts@), uid@) is None,
        },
{
    let ghost a = items_view(accounts@);
    let uc = chars_of(uid);
    let mut i: usize = 0;
    while i < accounts.len()
        invariant
            i <= accounts@.len(),
            a == items_view(accounts@),
            uc@ == uid@,
            forall|j: int| 0 <= j < i ==> account_uid(#[trigger] a[j]) != Some(uid@),
        decreases accounts@.len() - i,
    {
        if let Some(u) = account_uid_of(&accounts[i]) {
            if chars_eq(&chars_of(u), &uc) {
                proof {
                    lemma_account_index(a, uid@, i as int);
                }
                return Some(i);
            }
        }
        i += 1;
    }
    proof {
        lemma_account_index(a, uid@, i as int);
    }
    None
}

/// The saved form of an account.
fn account_entry_of(uid: &str, username: &str, avatar: &str, cookie: String) -> (r: Json)
    ensures
        json_view(r) == account_entry(uid@, username@, avatar@, cookie@),
{
    let ghost c = cookie@;
    let mut f: Vec<(String, Json)> = Vec::new();
    assert(fields_view(f@) =~= Seq::<(Seq<char>, JsonV)>::empty());
    push_field(&mut f, "uid", Json::Str(uid.to_string()));
    push_field(&mut f, "username", Json::Str(username.to_string()));
    push_field(&mut f, "userAvatar", Json::Str(avatar.to_string()));
    push_field(&mut f, "cookie", Json::Str(cookie));
    let ghost fv = fields_view(f@);
    let r = Json::Object(f);
    proof {
        lemma_views(r);
    }
    assert(fv =~= account_entry(uid@, username@, avatar@, c)->Object_0);
    r
}

/// Saves an account (replacing the one under the same uid) and makes it
/// the last login (see `saved_store`).
pub fn save_account_to(
    root: Json,
    uid: &str,
    username: &str,
    user_avatar: &str,
    cookie: &str,
) -> (r: Result<Json, AccountError>)
    requires
        writable_store(json_view(root)),
    ensures
        match saved_store(json_view(root), uid@, username@, user_avatar@, cookie@) {
            Ok(s) => r matches Ok(x) && json_view(x) == s,
            Err(e) => r matches Err(x) && x == e,
        },
{
    let uc = chars_of(uid);
    if trimmed_str(uid).len() == 0 || chars_eq_str(&uc, "0") || chars_eq_str(&uc, "10000") {
        return Err(AccountError::InvalidUid);
    }
    let safe = sanitize_cookie(cookie);
    if !has_valid_session_cookie(safe.as_str()) {
        return Err(AccountError::NoSession);
    }
    let ghost rv = json_view(root);
    let mut accounts = load_accounts(&root);
    let ghost a = items_view(accounts@);
    let entry = account_entry_of(uid, username, user_avatar, safe);
    let ghost ev = json_view(entry);
    match account_index_of(&accounts, uid) {
        Some(i) => {
            accounts.set(i, entry);
        },
        None => {
            accounts.push(entry);
        },
    }
    assert(items_view(accounts@) =~= upsert_account(a, uid@, ev));
    let ghost av = items_view(accounts@);
    let list = Json::Array(accounts);
    proof {
        lemma_views(list);
    }
    let with_list = store_set_of(root, "accounts", list);
    let r = store_set_of(with_list, "lastLoginUid", Json::Str(uid.to_string()));
    Ok(r)
}

/// The accounts kept when `uid` is removed.
pub fn remove_account_of(accounts: &Vec<Json>, uid: &str) -> (r: Vec<Json>)
    ensures
        items_view(r@) == without_account(items_view(accounts@), uid@),
{
    let ghost a = items_view(accounts@);
    let uc = chars_of(uid);
    let mut out: Vec<Json> = Vec::new();
    let mut i: usize = 0;
    while i < accounts.len()
        invariant
            i <= accounts@.len(),
            a == items_view(accounts@),
            uc@ == uid@,
            items_view(out@) == without_account(a.take(i as int), uid@),
        decreases accounts@.len() - i,
    {
        proof {
            assert(a.take(i + 1).drop_last() =~= a.take(i as int));
            assert(a.take(i + 1).last() == json_view(accounts@[i as int]));
        }
        let ghost before = items_view(out@);
        let keep = match account_uid_of(&accounts[i]) {
            Some(u) => !chars_eq(&chars_of(u), &uc),
            None => true,
        };
        if keep {
            let c = accounts[i].deep_copy();
            out.push(c);
            assert(items_view(out@) =~= before + seq![json_view(c)]);
        } else {
            assert(items_view(out@) =~= before + Seq::<JsonV>::empty());
        }
        i += 1;
    }
    assert(a.take(accounts@.len() as int) =~= a);
    out
}

/// The store after removing `uid`, and whether the current login must be
/// cleared: it belongs to `uid` (by the cookie's `uid` field, empty when
/// there is none) or `uid` was the last login.
pub open spec fn removed_store(root: JsonV, uid: Seq<char>, current_cookie: Seq<char>) -> (JsonV, bool) {
    let last = match as_str_opt(get(root, "lastLoginUid"@)) {
        Some(s) => s,
        None => Seq::empty(),
    };
    let current = match first_uid_field(split(current_cookie, ';')) {
        Some(u) => u,
        None => Seq::empty(),
    };
    (
        store_set(root, "accounts"@, JsonV::Array(without_account(stored_accounts(root), uid))),
        current == uid || last == uid,
    )
}

/// Removes the accounts saved under `uid` (see `removed_store`).
pub fn remove_account_from(root: Json, uid: &str, current_cookie: &str) -> (r: (Json, bool))
    requires
        writable_store(json_view(root)),
    ensures
        (json_view(r.0), r.1) == removed_store(json_view(root), uid@, current_cookie@),
{
    let last = match root.get("lastLoginUid") {
        Some(v) => match v.as_str() {
            Some(s) => s.to_string(),
            None => String::new(),
        },
        None => String::new(),
    };
    let current = match cookie_uid_field(current_cookie) {
        Some(u) => u,
        None => String::new(),
    };
    let accounts = load_accounts(&root);
    let kept = remove_account_of(&accounts, uid);
    let ghost kv = items_view(kept@);
    let list = Json::Array(kept);
    proof {
        lemma_views(list);
    }
    let uc = chars_of(uid);
    let clear = chars_eq(&chars_of(current.as_str()), &uc) || chars_eq(&chars_of(last.as_str()), &uc);
    let r = store_set_of(root, "accounts", list);
    (r, clear)
}

// ---------------------------------------------------------------------------
// Logging in with a saved account
// ---------------------------------------------------------------------------

/// The account to switch to and its cookie: the first account saved under
/// `uid`, whose cookie must not be empty.
pub open spec fn login_target(root: JsonV, uid: Seq<char>) -> Result<(JsonV, Seq<char>), AccountError> {
    let accounts = stored_accounts(root);
    match account_index(accounts, uid) {
        None => Err(AccountError::NotFound),
        Some(i) => {
            let cookie = match as_str_opt(get(accounts[i], "cookie"@)) {
                Some(c) => c,
                None => Seq::empty(),
            };
            if cookie.len() == 0 {
                Err(AccountError::EmptyCookie)
            } else {
                Ok((accounts[i], cookie))
            }
        },
    }
}

proof fn lemma_account_index_bounds(a: Seq<JsonV>, uid: Seq<char>)
    ensures
        account_index(a, uid) matches Some(i) ==> 0 <= i < a.len() && account_uid(a[i]) == Some(uid),
    decreases a.len(),
{
    if a.len() > 0 {
        lemma_account_index_bounds(a.drop_first(), uid);
    }
}

/// Picks the saved account to switch to (see `login_target`).
pub fn login_account(root: &Json, uid: &str) -> (r: Result<(Json, String), AccountError>)
    ensures
        match login_target(json_view(*root), uid@) {
            Ok((e, c)) => r matches Ok((x, y)) && json_view(x) == e && y@ == c,
            Err(e) => r matches Err(x) && x == e,
        },
{
    let accounts = load_accounts(root);
    proof {
        lemma_account_index_bounds(items_view(accounts@), uid@);
    }
    match account_index_of(&accounts, uid) {
        None => Err(AccountError::NotFound),
        Some(i) => {
            let target = &accounts[i];
            let cookie = match target.get("cookie") {
                Some(v) => match v.as_str() {
                    Some(c) => c.to_string(),
                    None => String::new(),
                },
                None => String::new(),
            };
            if cookie.as_str().is_empty() {
                Err(AccountError::EmptyCookie)
            } else {
                Ok((target.deep_copy(), cookie))
            }
        },
    }
}

/// The list shown to the user: each account's `uid`, `username` and
/// `userAvatar` (`null` when absent), never its cookie.
pub open spec fn account_summary(e: JsonV) -> JsonV {
    JsonV::Object(seq![
        ("uid"@, match get(e, "uid"@) {
            Some(v) => v,
            None => JsonV::Null,
        }),
        ("username"@, match get(e, "username"@) {
            Some(v) => v,
            None => JsonV::Null,
        }),
        ("userAvatar"@, match get(e, "userAvatar"@) {
            Some(v) => v,
            None => JsonV::Null,
        }),
    ])
}

/// `{ code: 200, data: [summaries] }`.
pub open spec fn account_listing(root: JsonV) -> JsonV {
    let a = stored_accounts(root);
    JsonV::Object(seq![
        ("code"@, crate::feed::count(200)),
        ("data"@, JsonV::Array(Seq::new(a.len(), |i: int| account_summary(a[i])))),
    ])
}

fn field_or_null(e: &Json, key: &str) -> (r: Json)
    ensures
        json_view(r) == match get(json_view(*e), key@) {
            Some(v) => v,
            None => JsonV::Null,
        },
{
    match e.get(key) {
        Some(v) => v.deep_copy(),
        None => Json::Null,
    }
}

/// The saved accounts without their cookies (see `account_listing`).
pub fn list_accounts(root: &Json) -> (r: Json)
    ensures
        json_view(r) == account_listing(json_view(*root)),
{
    let accounts = load_accounts(root);
    let ghost a = items_view(accounts@);
    let mut list: Vec<Json> = Vec::new();
    let mut i: usize = 0;
    while i < accounts.len()
        invariant
            i <= accounts@.len(),
            a == items_view(accounts@),
            list@.len() == i,
            forall|k: int| 0 <= k < i ==> json_view(#[trigger] list@[k]) == account_summary(a[k]),
        decreases accounts@.len() - i,
    {
        let e = &accounts[i];
        let mut f: Vec<(String, Json)> = Vec::new();
        assert(fields_view(f@) =~= Seq::<(Seq<char>, JsonV)>::empty());
        push_field(&mut f, "uid", field_or_null(e, "uid"));
        push_field(&mut f, "username", field_or_null(e, "username"));
        push_field(&mut f, "userAvatar", field_or_null(e, "userAvatar"));
        let ghost fv = fields_view(f@);
        let s = Json::Object(f);
        proof {
            lemma_views(s);
            assert(fv =~= account_summary(a[i as int])->Object_0);
        }
        list.push(s);
        i += 1;
    }
    let ghost lv = items_view(list@);
    assert(lv =~= Seq::new(a.len(), |k: int| account_summary(a[k])));
    let data = Json::Array(list);
    proof {
        lemma_views(data);
    }
    let mut f: Vec<(String, Json)> = Vec::new();
    assert(fields_view(f@) =~= Seq::<(Seq<char>, JsonV)>::empty());
    push_field(&mut f, "code", crate::feed::count_json(200));
    push_field(&mut f, "data", data);
    let ghost fv = fields_view(f@);
    let r = Json::Object(f);
    proof {
        lemma_views(r);
    }
    assert(fv =~= account_listing(json_view(*root))->Object_0);
    r
}

/// The uid a login check names: `uid`, else `id`, of its `data` (or of
/// the answer itself when it has none), as text.
pub open spec fn checked_uid(answer: JsonV) -> Seq<char> {
    let data = match get(answer, "data"@) {
        Some(d) => d,
        None => answer,
    };
    match get(data, "uid"@) {
        Some(v) => crate::apk::value_text(v),
        None => match get(data, "id"@) {
            Some(v) => crate::apk::value_text(v),
            None => Seq::empty(),
        },
    }
}

/// The uid a login check answered with (see `checked_uid`).
pub fn checked_login_uid(answer: &Json) -> (r: String)
    ensures
        r@ == checked_uid(json_view(*answer)),
{
    let data = match answer.get("data") {
        Some(d) => d,
        None => answer,
    };
    match data.get("uid") {
        Some(v) => crate::apk::value_to_string(v),
        None => match data.get("id") {
            Some(v) => crate::apk::value_to_string(v),
            None => String::new(),
        },
    }
}

/// The name and avatar saved after switching: the login check's, else
/// those saved with the account, else empty.
pub open spec fn switched_profile(answer: JsonV, target: JsonV) -> (Seq<char>, Seq<char>) {
    let data = match get(answer, "data"@) {
        Some(d) => d,
        None => answer,
    };
    let name = match as_str_opt(get(data, "username"@)) {
        Some(n) => n,
        None => match as_str_opt(get(target, "username"@)) {
            Some(n) => n,
            None => Seq::empty(),
        },
    };
    let avatar_value = match get(data, "userAvatar"@) {
        Some(v) => Some(v),
        None => get(data, "avatar"@),
    };
    let avatar = match as_str_opt(avatar_value) {
        Some(a) => a,
        None => match as_str_opt(get(target, "userAvatar"@)) {
            Some(a) => a,
            None => Seq::empty(),
        },
    };
    (name, avatar)
}

fn str_or_empty(v: Option<&Json>) -> (r: Option<String>)
    ensures
        match r {
            Some(s) => as_str_opt(crate::feed::json_opt(v)) == Some(s@),
            None => as_str_opt(crate::feed::json_opt(v)) is None,
        },
{
    match v {
        Some(j) => match j.as_str() {
            Some(s) => Some(s.to_string()),
            None => None,
        },
        None => None,
    }
}

/// The profile saved after switching (see `switched_profile`).
pub fn switched_account_profile(answer: &Json, target: &Json) -> (r: (String, String))
    ensures
        (r.0@, r.1@) == switched_profile(json_view(*answer), json_view(*target)),
{
    let data = match answer.get("data") {
        Some(d) => d,
        None => answer,
    };
    let name = match str_or_empty(data.get("username")) {
        Some(n) => n,
        None => match str_or_empty(target.get("username")) {
            Some(n) => n,
            None => String::new(),
        },
    };
    let avatar_value = match data.get("userAvatar") {
        Some(v) => Some(v),
        None => data.get("avatar"),
    };
    let avatar = match str_or_empty(avatar_value) {
        Some(a) => a,
        None => match str_or_empty(target.get("userAvatar")) {
            Some(a) => a,
            None => String::new(),
        },
    };
    (name, avatar)
}

// ---------------------------------------------------------------------------
// Restoring the login at start-up
// ---------------------------------------------------------------------------

/// The cookie to restore: that of the first account saved under
/// `lastLoginUid` (empty when absent), when not empty.
pub open spec fn last_login_cookie(root: JsonV) -> Option<Seq<char>> {
    let last = match as_str_opt(get(root, "lastLoginUid"@)) {
        Some(s) => s,
        None => Seq::empty(),
    };
    let accounts = match get(root, "accounts"@) {
        Some(JsonV::Array(items)) => items,
        _ => Seq::empty(),
    };
    match account_index(accounts, last) {
        Some(i) => match as_str_opt(get(accounts[i], "cookie"@)) {
            Some(c) => if c.len() > 0 {
                Some(c)
            } else {
                None
            },
            None => None,
        },
        None => None,
    }
}

/// The cookie to restore from a store (see `last_login_cookie`).
pub fn restored_cookie(root: &Json) -> (r: Option<String>)
    ensures
        match r {
            Some(c) => last_login_cookie(json_view(*root)) == Some(c@),
            None => last_login_cookie(json_view(*root)) is None,
        },
{
    let last = match root.get("lastLoginUid") {
        Some(v) => match v.as_str() {
            Some(s) => s.to_string(),
            None => String::new(),
        },
        None => String::new(),
    };
    let accounts = load_accounts(root);
    proof {
        lemma_account_index_bounds(items_view(accounts@), last@);
    }
    match account_index_of(&accounts, last.as_str()) {
        Some(i) => match accounts[i].get("cookie") {
            Some(v) => match v.as_str() {
                Some(c) => if c.is_empty() {
                    None
                } else {
                    Some(c.to_string())
                },
                None => None,
            },
            None => None,
        },
        None => None,
    }
}

/// The store a cookie kept in the old text file becomes: the trimmed
/// cookie saved under its `uid` (first `uid` field, blank names and
/// avatar) as the last login; nothing when it names no uid.
pub open spec fn legacy_store_of(content: Seq<char>) -> Option<JsonV> {
    let c = trim(content);
    match first_uid_field(split(c, ';')) {
        Some(uid) => if uid.len() > 0 {
            Some(JsonV::Object(seq![
                ("lastLoginUid"@, JsonV::Str(uid)),
                ("accounts"@, JsonV::Array(seq![account_entry(uid, Seq::empty(), Seq::empty(), c)])),
            ]))
        } else {
            None
        },
        None => None,
    }
}

/// Moves a cookie kept in the old text file into a store (see
/// `legacy_store_of`).
pub fn legacy_account_store(content: &str) -> (r: Option<Json>)
    ensures
        match r {
            Some(j) => legacy_store_of(content@) == Some(json_view(j)),
            None => legacy_store_of(content@) is None,
        },
{
    let c = string_of(&trimmed_str(content));
    let uid = match cookie_uid_field(c.as_str()) {
        Some(u) => u,
        None => {
            return None;
        },
    };
    if uid.as_str().is_empty() {
        return None;
    }
    let entry = account_entry_of(uid.as_str(), "", "", c);
    proof {
        reveal_strlit("");
        assert(""@ =~= Seq::<char>::empty());
    }
    let ghost ev = json_view(entry);
    let mut items: Vec<Json> = Vec::new();
    items.push(entry);
    let ghost iv = items_view(items@);
    assert(iv =~= seq![ev]);
    let list = Json::Array(items);
    proof {
        lemma_views(list);
    }
    let mut f: Vec<(String, Json)> = Vec::new();
    assert(fields_view(f@) =~= Seq::<(Seq<char>, JsonV)>::empty());
    push_field(&mut f, "lastLoginUid", Json::Str(uid));
    push_field(&mut f, "accounts", list);
    let ghost fv = fields_view(f@);
    let r = Json::Object(f);
    proof {
        lemma_views(r);
    }
    assert(fv =~= legacy_store_of(content@)->Some_0->Object_0);
    Some(r)
}

// ---------------------------------------------------------------------------
// Laws of the store
// ---------------------------------------------------------------------------

proof fn lemma_value_after_update(f: FieldsV, i: int, p: (Seq<char>, JsonV), k: Seq<char>)
    requires
        0 <= i < f.len(),
        f[i].0 != k,
        p.0 != k,
    ensures
        field_value(f.update(i, p), k) == field_value(f, k),
    decreases f.len(),
{
    if i == 0 {
        assert(f.update(0, p).drop_first() =~= f.drop_first());
    } else {
        assert(f.update(i, p)[0] == f[0]);
        if f[0].0 != k {
            assert(f.update(i, p).drop_first() =~= f.drop_first().update(i - 1, p));
            lemma_value_after_update(f.drop_first(), i - 1, p, k);
        }
    }
}

proof fn lemma_value_at_update(f: FieldsV, i: int, p: (Seq<char>, JsonV))
    requires
        crate::feed::index_of_key(f, p.0) == Some(i),
    ensures
        field_value(f.update(i, p), p.0) == Some(p.1),
    decreases f.len(),
{
    if f.len() > 0 && f[0].0 != p.0 {
        let j = i - 1;
        assert(crate::feed::index_of_key(f.drop_first(), p.0) == Some(j));
        lemma_index_in_bounds(f.drop_first(), p.0);
        assert(f.update(i, p).drop_first() =~= f.drop_first().update(j, p));
        lemma_value_at_update(f.drop_first(), j, p);
    }
}

proof fn lemma_index_in_bounds(f: FieldsV, k: Seq<char>)
    ensures
        crate::feed::index_of_key(f, k) matches Some(i) ==> 0 <= i < f.len() && f[i].0 == k,
        crate::feed::index_of_key(f, k) is None ==> field_value(f, k) is None,
    decreases f.len(),
{
    if f.len() > 0 {
        lemma_index_in_bounds(f.drop_first(), k);
    }
}

proof fn lemma_value_after_push(f: FieldsV, p: (Seq<char>, JsonV), k: Seq<char>)
    ensures
        field_value(f.push(p), k) == match field_value(f, k) {
            Some(v) => Some(v),
            None => if p.0 == k {
                Some(p.1)
            } else {
                None
            },
        },
    decreases f.len(),
{
    if f.len() > 0 {
        assert(f.push(p)[0] == f[0]);
        assert(f.push(p).drop_first() =~= f.drop_first().push(p));
        lemma_value_after_push(f.drop_first(), p, k);
    } else {
        assert(f.push(p) =~= seq![p]);
        assert(f.push(p).drop_first() =~= Seq::<(Seq<char>, JsonV)>::empty());
        assert(field_value(f.push(p).drop_first(), k) is None);
        assert(field_value(f, k) is None);
    }
}

/// Reading a field of a store after setting it, and any other field.
proof fn lemma_store_set(root: JsonV, key: Seq<char>, value: JsonV, other: Seq<char>)
    requires
        writable_store(root),
    ensures
        get(store_set(root, key, value), key) == Some(value),
        other != key ==> get(store_set(root, key, value), other) == get(root, other),
{
    match root {
        JsonV::Object(f) => {
            lemma_index_in_bounds(f, key);
            match crate::feed::index_of_key(f, key) {
                Some(i) => {
                    lemma_value_at_update(f, i, (key, value));
                    if other != key {
                        lemma_value_after_update(f, i, (key, value), other);
                    }
                },
                None => {
                    lemma_value_after_push(f, (key, value), key);
                    lemma_value_after_push(f, (key, value), other);
                },
            }
        },
        _ => {
            let f = seq![(key, value)];
            assert(f.drop_first() =~= Seq::<(Seq<char>, JsonV)>::empty());
            assert(field_value(f.drop_first(), other) is None);
        },
    }
}

proof fn lemma_account_index_update(a: Seq<JsonV>, i: int, e: JsonV, uid: Seq<char>)
    requires
        account_index(a, uid) == Some(i),
        account_uid(e) == Some(uid),
    ensures
        account_index(a.update(i, e), uid) == Some(i),
    decreases a.len(),
{
    lemma_account_index_bounds(a, uid);
    if i > 0 {
        assert(account_index(a.drop_first(), uid) == Some(i - 1));
        assert(a.update(i, e).drop_first() =~= a.drop_first().update(i - 1, e));
        lemma_account_index_update(a.drop_first(), i - 1, e, uid);
    }
}

proof fn lemma_account_index_push(a: Seq<JsonV>, e: JsonV, uid: Seq<char>)
    requires
        account_index(a, uid) is None,
        account_uid(e) == Some(uid),
    ensures
        account_index(a.push(e), uid) == Some(a.len() as int),
    decreases a.len(),
{
    if a.len() > 0 {
        assert(a.push(e).drop_first() =~= a.drop_first().push(e));
        lemma_account_index_push(a.drop_first(), e, uid);
    } else {
        assert(a.push(e)[0] == e);
    }
}

proof fn lemma_account_index_none(a: Seq<JsonV>, uid: Seq<char>, j: int)
    requires
        account_index(a, uid) is None,
        0 <= j < a.len(),
    ensures
        account_uid(a[j]) != Some(uid),
    decreases a.len(),
{
    if j > 0 {
        lemma_account_index_none(a.drop_first(), uid, j - 1);
    }
}

proof fn lemma_without_account(a: Seq<JsonV>, uid: Seq<char>)
    ensures
        forall|j: int| 0 <= j < without_account(a, uid).len() ==> account_uid(#[trigger] without_account(a, uid)[j]) != Some(uid),
        forall|e: JsonV| a.contains(e) && account_uid(e) != Some(uid) ==> without_account(a, uid).contains(e),
    decreases a.len(),
{
    if a.len() > 0 {
        let rest = a.drop_last();
        lemma_without_account(rest, uid);
        let w = without_account(a, uid);
        let wr = without_account(rest, uid);
        assert forall|e: JsonV| a.contains(e) && account_uid(e) != Some(uid) implies w.contains(e) by {
            let k = choose|k: int| 0 <= k < a.len() && a[k] == e;
            if k < a.len() - 1 {
                assert(rest[k] == e);
                assert(rest.contains(e));
                let m = choose|m: int| 0 <= m < wr.len() && wr[m] == e;
                assert(w[m] == e);
            } else {
                assert(w[wr.len() as int] == e);
            }
        }
        assert forall|j: int| 0 <= j < w.len() implies account_uid(#[trigger] w[j]) != Some(uid) by {
            if j < wr.len() {
                assert(w[j] == wr[j]);
            }
        }
    }
}

proof fn lemma_store_keys_differ()
    ensures
        "accounts"@ != "lastLoginUid"@,
{
    reveal_strlit("accounts");
    reveal_strlit("lastLoginUid");
    assert("accounts"@.len() == 8);
    assert("lastLoginUid"@.len() == 12);
}

proof fn lemma_live_session_not_empty(c: Seq<char>)
    requires
        has_live_session(c),
    ensures
        c.len() > 0,
{
    if c.len() == 0 {
        assert(split(c, ';') =~= seq![c]);
        let k = choose|k: int| 0 <= k < split(c, ';').len() && crate::cookie::live_session_piece(#[trigger] split(c, ';')[k]);
        assert(k == 0);
        assert(trim(c) =~= c);
    }
}

/// Saving an account makes it the last login, and a later switch to its
/// uid finds it, with the cookie that was saved (sanitized).
pub proof fn law_saved_account_is_found(
    root: JsonV,
    uid: Seq<char>,
    username: Seq<char>,
    avatar: Seq<char>,
    cookie: Seq<char>,
)
    requires
        writable_store(root),
        saved_store(root, uid, username, avatar, cookie) is Ok,
    ensures
        ({
            let s = saved_store(root, uid, username, avatar, cookie)->Ok_0;
            let entry = account_entry(uid, username, avatar, sanitized_cookie(cookie));
            &&& get(s, "lastLoginUid"@) == Some(JsonV::Str(uid))
            &&& account_index(stored_accounts(s), uid) matches Some(i) && stored_accounts(s)[i] == entry
            &&& login_target(s, uid) == Ok::<(JsonV, Seq<char>), AccountError>((entry, sanitized_cookie(cookie)))
            &&& last_login_cookie(s) == Some(sanitized_cookie(cookie))
        }),
{
    let safe = sanitized_cookie(cookie);
    let entry = account_entry(uid, username, avatar, safe);
    let a = stored_accounts(root);
    let up = upsert_account(a, uid, entry);
    let r1 = store_set(root, "accounts"@, JsonV::Array(up));
    let s = store_set(r1, "lastLoginUid"@, JsonV::Str(uid));
    lemma_store_keys_differ();
    assert(account_uid(entry) == Some(uid));
    lemma_store_set(root, "accounts"@, JsonV::Array(up), "lastLoginUid"@);
    lemma_store_set(r1, "lastLoginUid"@, JsonV::Str(uid), "accounts"@);
    assert(get(s, "accounts"@) == Some(JsonV::Array(up)));
    assert(stored_accounts(s) == up);
    lemma_account_index_bounds(a, uid);
    match account_index(a, uid) {
        Some(i) => {
            lemma_account_index_update(a, i, entry, uid);
        },
        None => {
            lemma_account_index_push(a, entry, uid);
        },
    }
    lemma_account_index_bounds(up, uid);
    lemma_live_session_not_empty(safe);
    assert(get(entry, "cookie"@) == Some(JsonV::Str(safe))) by {
        reveal_strlit("cookie");
        reveal_strlit("uid");
        reveal_strlit("username");
        reveal_strlit("userAvatar");
        assert("cookie"@.len() == 6 && "uid"@.len() == 3 && "username"@.len() == 8 && "userAvatar"@.len() == 10);
        reveal_with_fuel(crate::json::field_value, 5);
    }
    assert(get(s, "lastLoginUid"@) == Some(JsonV::Str(uid)));
    let i = account_index(up, uid)->Some_0;
    assert(up[i] == entry);
    assert(login_target(s, uid) == Ok::<(JsonV, Seq<char>), AccountError>((entry, safe)));
}

/// Saving an account leaves every account saved under another uid where
/// it was.
pub proof fn law_save_keeps_other_accounts(
    root: JsonV,
    uid: Seq<char>,
    username: Seq<char>,
    avatar: Seq<char>,
    cookie: Seq<char>,
)
    requires
        writable_store(root),
        saved_store(root, uid, username, avatar, cookie) is Ok,
    ensures
        ({
            let before = stored_accounts(root);
            let after = stored_accounts(saved_store(root, uid, username, avatar, cookie)->Ok_0);
            &&& after.len() >= before.len()
            &&& forall|j: int| 0 <= j < before.len() && account_uid(before[j]) != Some(uid) ==> after[j] == before[j]
        }),
{
    let safe = sanitized_cookie(cookie);
    let entry = account_entry(uid, username, avatar, safe);
    let a = stored_accounts(root);
    let up = upsert_account(a, uid, entry);
    let r1 = store_set(root, "accounts"@, JsonV::Array(up));
    lemma_store_keys_differ();
    lemma_store_set(root, "accounts"@, JsonV::Array(up), "lastLoginUid"@);
    lemma_store_set(r1, "lastLoginUid"@, JsonV::Str(uid), "accounts"@);
    assert(stored_accounts(saved_store(root, uid, username, avatar, cookie)->Ok_0) == up);
    lemma_account_index_bounds(a, uid);
}

/// After removing a uid no account is saved under it, a switch to it is
/// refused, and every account saved under another uid is kept.
pub proof fn law_removed_account_is_gone(root: JsonV, uid: Seq<char>, current_cookie: Seq<char>)
    requires
        writable_store(root),
    ensures
        ({
            let after = removed_store(root, uid, current_cookie).0;
            &&& forall|j: int| 0 <= j < stored_accounts(after).len() ==> account_uid(#[trigger] stored_accounts(after)[j]) != Some(uid)
            &&& forall|e: JsonV| stored_accounts(root).contains(e) && account_uid(e) != Some(uid) ==> stored_accounts(after).contains(e)
            &&& login_target(after, uid) == Err::<(JsonV, Seq<char>), AccountError>(AccountError::NotFound)
        }),
{
    let kept = without_account(stored_accounts(root), uid);
    let after = store_set(root, "accounts"@, JsonV::Array(kept));
    lemma_store_set(root, "accounts"@, JsonV::Array(kept), "accounts"@);
    assert(stored_accounts(after) == kept);
    lemma_without_account(stored_accounts(root), uid);
    lemma_account_index_bounds(kept, uid);
    if account_index(kept, uid) is Some {
        let i = account_index(kept, uid)->Some_0;
        assert(account_uid(kept[i]) == Some(uid));
    }
}

/// The account list shown to the user never carries a cookie.
pub proof fn law_listing_hides_cookies(root: JsonV)
    ensures
        ({
            let data = get(account_listing(root), "data"@)->Some_0->Array_0;
            &&& data.len() == stored_accounts(root).len()
            &&& forall|i: int| 0 <= i < data.len() ==> get(#[trigger] data[i], "cookie"@) is None
        }),
{
    reveal_strlit("code");
    reveal_strlit("data");
    assert("code"@[0] != "data"@[0]);
    reveal_strlit("cookie");
    reveal_strlit("uid");
    reveal_strlit("username");
    reveal_strlit("userAvatar");
    let a = stored_accounts(root);
    let l = account_listing(root);
    let f = l->Object_0;
    assert(f.drop_first()[0] == f[1]);
    assert(get(l, "data"@) == Some(f[1].1)) by {
        reveal_with_fuel(crate::json::field_value, 3);
    }
    let d = f[1].1->Array_0;
    assert forall|i: int| 0 <= i < d.len() implies get(#[trigger] d[i], "cookie"@) is None by {
        assert(d[i] == account_summary(a[i]));
        assert("cookie"@.len() == 6 && "uid"@.len() == 3 && "username"@.len() == 8 && "userAvatar"@.len() == 10);
        reveal_with_fuel(crate::json::field_value, 4);
    }
}

// ---------------------------------------------------------------------------
// Device codes of accounts
// ---------------------------------------------------------------------------

/// The accounts with the device code of `uid` recorded: set on the
/// account saved under `uid`, else kept in a new entry with an empty
/// cookie.
pub open spec fn with_device_code(accounts: Seq<JsonV>, uid: Seq<char>, code: Seq<char>) -> Seq<JsonV> {
    match account_index(accounts, uid) {
        Some(i) => accounts.update(
            i,
            match accounts[i] {
                JsonV::Object(f) => JsonV::Object(insert_field(f, "deviceCode"@, JsonV::Str(code))),
                other => other,
            },
        ),
        None => accounts.push(
            JsonV::Object(
                seq![
                    ("cookie"@, JsonV::Str(Seq::empty())),
                    ("deviceCode"@, JsonV::Str(code)),
                    ("uid"@, JsonV::Str(uid)),
                ],
            ),
        ),
    }
}

/// The store after recording an account's device code.
pub open spec fn device_code_store(root: JsonV, uid: Seq<char>, code: Seq<char>) -> JsonV {
    store_set(root, "accounts"@, JsonV::Array(with_device_code(stored_accounts(root), uid, code)))
}

/// `account_device_code`: the device code derived from the account's uid,
/// and the store with it recorded (see `device_code_store`).
pub fn account_device_code(root: Json, uid: &str) -> (r: (Json, String))
    requires
        writable_store(json_view(root)),
    ensures
        r.1@ == crate::device::device_code_of(crate::device::account_description(uid@)),
        json_view(r.0) == device_code_store(json_view(root), uid@, r.1@),
{
    let code = crate::device::generate_device_code_for_id(uid);
    let mut accounts = load_accounts(&root);
    let ghost a = items_view(accounts@);
    match account_index_of(&accounts, uid) {
        Some(i) => {
            let updated = match &accounts[i] {
                Json::Object(f) => {
                    proof {
                        lemma_views(accounts@[i as int]);
                    }
                    let mut g = match accounts[i].deep_copy() {
                        Json::Object(g) => g,
                        _ => Vec::new(),
                    };
                    proof {
                        lemma_views(Json::Object(g));
                    }
                    assert(fields_view(g@) == fields_view(f@));
                    insert_json_field(&mut g, "deviceCode", Json::Str(code.clone()));
                    let u = Json::Object(g);
                    proof {
                        lemma_views(u);
                    }
                    u
                },
                other => other.deep_copy(),
            };
            proof {
                lemma_views(accounts@[i as int]);
            }
            accounts.set(i, updated);
        },
        None => {
            let mut f: Vec<(String, Json)> = Vec::new();
            assert(fields_view(f@) =~= Seq::<(Seq<char>, JsonV)>::empty());
            push_field(&mut f, "cookie", Json::Str(String::new()));
            push_field(&mut f, "deviceCode", Json::Str(code.clone()));
            push_field(&mut f, "uid", Json::Str(uid.to_string()));
            let ghost fv = fields_view(f@);
            let e = Json::Object(f);
            proof {
                lemma_views(e);
            }
            assert(fv =~= seq![
                ("cookie"@, JsonV::Str(Seq::empty())),
                ("deviceCode"@, JsonV::Str(code@)),
                ("uid"@, JsonV::Str(uid@)),
            ]);
            accounts.push(e);
        },
    }
    assert(items_view(accounts@) =~= with_device_code(a, uid@, code@));
    let list = Json::Array(accounts);
    proof {
        lemma_views(list);
    }
    (store_set_of(root, "accounts", list), code)
}

/// The guest device code: the store's `guestDeviceCode` when it is a valid
/// code (the store is left as it is), else the code drawn from `seed`,
/// recorded in the store.
pub open spec fn guest_code(root: JsonV, seed: u64) -> (JsonV, Seq<char>) {
    match as_str_opt(get(root, "guestDeviceCode"@)) {
        Some(c) if crate::device::device_code_valid(c) => (root, c),
        _ => {
            let code = crate::device::device_code_of(crate::device::account_description(crate::text::dec(seed as nat)));
            (store_set(root, "guestDeviceCode"@, JsonV::Str(code)), code)
        },
    }
}

/// `guest_device_code` (see `guest_code`); `seed` is a random number the
/// caller draws.
pub fn guest_device_code(root: Json, seed: u64) -> (r: (Json, String))
    requires
        writable_store(json_view(root)),
    ensures
        (json_view(r.0), r.1@) == guest_code(json_view(root), seed),
{
    let stored: Option<String> = match root.get("guestDeviceCode") {
        Some(v) => match v.as_str() {
            Some(c) => if crate::device::is_valid_device_code(c) {
                Some(c.to_string())
            } else {
                None
            },
            None => None,
        },
        None => None,
    };
    match stored {
        Some(c) => (root, c),
        None => {
            let code = crate::device::device_code_for_seed(seed);
            let r = store_set_of(root, "guestDeviceCode", Json::Str(code.clone()));
            (r, code)
        },
    }
}

/// The store after logging out: no account is the last login; the saved
/// accounts stay for a later switch.
pub open spec fn logged_out_store(root: JsonV) -> JsonV {
    store_set(root, "lastLoginUid"@, JsonV::Str(Seq::empty()))
}

/// `clear_user_cookie`'s change to the store (see `logged_out_store`).
pub fn logged_out_accounts(root: Json) -> (r: Json)
    requires
        writable_store(json_view(root)),
    ensures
        json_view(r) == logged_out_store(json_view(root)),
{
    store_set_of(root, "lastLoginUid", Json::Str(String::new()))
}

/// Restoring after a save gives the saved cookie: once an account is saved
/// (the store made the last login), the cookie restored from the store is
/// the account's cleaned cookie.
pub proof fn law_restore_after_save_gives_saved_cookie(
    root: JsonV,
    uid: Seq<char>,
    username: Seq<char>,
    avatar: Seq<char>,
    cookie: Seq<char>,
)
    requires
        writable_store(root),
        saved_store(root, uid, username, avatar, cookie) is Ok,
    ensures
        last_login_cookie(saved_store(root, uid, username, avatar, cookie)->Ok_0) == Some(sanitized_cookie(cookie)),
{
    law_saved_account_is_found(root, uid, username, avatar, cookie);
}

/// A saved plain cookie is restored exactly: a cookie of ASCII without
/// line breaks or surrounding blanks comes back from the store as it was
/// given.
pub proof fn law_plain_cookie_restored_as_given(
    root: JsonV,
    uid: Seq<char>,
    username: Seq<char>,
    avatar: Seq<char>,
    cookie: Seq<char>,
)
    requires
        writable_store(root),
        saved_store(root, uid, username, avatar, cookie) is Ok,
        plain_ascii_cookie(cookie),
        trim(cookie) == cookie,
    ensures
        last_login_cookie(saved_store(root, uid, username, avatar, cookie)->Ok_0) == Some(cookie),
{
    law_restore_after_save_gives_saved_cookie(root, uid, username, avatar, cookie);
    law_plain_cookie_is_stored_unchanged(cookie);
}

/// Logging out keeps every saved account and leaves no last login, so
/// nothing is restored afterwards (no account can be saved under the
/// empty uid).
pub proof fn law_logout_keeps_accounts_and_restores_nothing(root: JsonV)
    requires
        writable_store(root),
        account_index(stored_accounts(root), Seq::empty()) is None,
    ensures
        stored_accounts(logged_out_store(root)) == stored_accounts(root),
        get(logged_out_store(root), "lastLoginUid"@) == Some(JsonV::Str(Seq::empty())),
        last_login_cookie(logged_out_store(root)) is None,
{
    lemma_store_keys_differ();
    lemma_store_set(root, "lastLoginUid"@, JsonV::Str(Seq::empty()), "accounts"@);
}

} // verus!
