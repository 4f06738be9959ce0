//! Follow and fan lists: the server puts the other user's data in one of
//! two author objects (and the requester's own placeholders in the
//! other); each entry is rewritten so the front end reads the other user
//! at the top level, and the requester's own entries are dropped.

use vstd::prelude::*;
use crate::apk::{value_text, value_to_string};
use crate::feed::{count, count_json, insert_field, insert_json_field, json_opt, push_field, FieldsV};
use crate::json::{as_str_opt, fields_view, get, get_opt, items_view, json_view, lemma_views, Json, JsonV};
use crate::text::{chars_eq, chars_of, trim, trimmed_str};

verus! {

/// Which list: the users followed, or the fans.
pub open spec fn info_keys(fans: bool) -> (Seq<char>, Seq<char>) {
    if fans {
        ("userInfo"@, "fUserInfo"@)
    } else {
        ("fUserInfo"@, "userInfo"@)
    }
}

/// The entry's own fields read when the author object lacks a value.
pub open spec fn own_keys(fans: bool) -> (Seq<char>, Seq<char>, Seq<char>) {
    if fans {
        ("uid"@, "username"@, "userAvatar"@)
    } else {
        ("fuid"@, "fusername"@, "fUserAvatar"@)
    }
}

/// The other user's author object.
pub open spec fn other_info(item: JsonV, fans: bool) -> Option<JsonV> {
    match get(item, info_keys(fans).0) {
        Some(v) => Some(v),
        None => get(item, info_keys(fans).1),
    }
}

/// `value_to_string`, when not empty.
pub open spec fn text_nonempty(v: Option<JsonV>) -> Option<Seq<char>> {
    match v {
        Some(x) => if value_text(x).len() > 0 {
            Some(value_text(x))
        } else {
            None
        },
        None => None,
    }
}

/// The other user's id.
pub open spec fn other_uid(item: JsonV, fans: bool) -> Seq<char> {
    match text_nonempty(get_opt(other_info(item, fans), "uid"@)) {
        Some(u) => u,
        None => match text_nonempty(get(item, own_keys(fans).0)) {
            Some(u) => u,
            None => Seq::empty(),
        },
    }
}

/// `info.get(a).or_else(|| info.get(b)).and_then(as_str)`.
pub open spec fn info_text(info: Option<JsonV>, a: Seq<char>, b: Seq<char>) -> Option<Seq<char>> {
    as_str_opt(
        match get_opt(info, a) {
            Some(v) => Some(v),
            None => get_opt(info, b),
        },
    )
}

/// A text from the author object, else from the entry, else `default`.
pub open spec fn text_or(first: Option<Seq<char>>, second: Option<Seq<char>>, default: Seq<char>) -> Seq<char> {
    match first {
        Some(s) => s,
        None => match second {
            Some(s) => s,
            None => default,
        },
    }
}

/// A value from the author object, else from the entry, else `default`.
pub open spec fn value_from(info: Option<JsonV>, item: JsonV, key: Seq<char>, default: JsonV) -> JsonV {
    match get_opt(info, key) {
        Some(v) => v,
        None => match get(item, key) {
            Some(v) => v,
            None => default,
        },
    }
}

/// An entry rewritten for the front end: id, name, avatar and bio under
/// both the plain and the `f` keys, and the follow state and level.
pub open spec fn rewritten_user(item: JsonV, fans: bool) -> JsonV {
    let info = other_info(item, fans);
    let uid = other_uid(item, fans);
    let name = text_or(info_text(info, "username"@, "displayUserName"@), as_str_opt(get(item, own_keys(fans).1)), "酷友"@);
    let avatar = text_or(info_text(info, "userAvatar"@, "avatar"@), as_str_opt(get(item, own_keys(fans).2)), Seq::empty());
    let bio = text_or(info_text(info, "bio"@, "signature"@), None, Seq::empty());
    match item {
        JsonV::Object(f) => {
            let f1 = insert_field(insert_field(f, "uid"@, JsonV::Str(uid)), "fuid"@, JsonV::Str(uid));
            let f2 = insert_field(insert_field(f1, "username"@, JsonV::Str(name)), "fusername"@, JsonV::Str(name));
            let f3 = insert_field(insert_field(f2, "userAvatar"@, JsonV::Str(avatar)), "fUserAvatar"@, JsonV::Str(avatar));
            let f4 = insert_field(insert_field(f3, "bio"@, JsonV::Str(bio)), "signature"@, JsonV::Str(bio));
            let f5 = insert_field(f4, "isFollow"@, value_from(info, item, "isFollow"@, count(if fans { 0 } else { 1 })));
            let f6 = insert_field(f5, "isSpecialFollow"@, value_from(info, item, "isSpecialFollow"@, count(0)));
            JsonV::Object(insert_field(f6, "level"@, value_from(info, item, "level"@, count(0))))
        },
        _ => item,
    }
}

/// The kept entries: those naming another user than `self_uid`.
pub open spec fn relation_users(items: Seq<JsonV>, self_uid: Seq<char>, fans: bool) -> Seq<JsonV>
    decreases items.len(),
{
    if items.len() == 0 {
        Seq::empty()
    } else {
        let x = items.last();
        let uid = other_uid(x, fans);
        relation_users(items.drop_last(), self_uid, fans) + if uid.len() == 0 || uid == trim(self_uid) {
            Seq::empty()
        } else {
            seq![rewritten_user(x, fans)]
        }
    }
}

/// `{ code: 200, data: [users] }` for a follow or fan list answer.
pub open spec fn relation_page(raw: JsonV, self_uid: Seq<char>, fans: bool) -> JsonV {
    JsonV::Object(seq![
        ("code"@, count(200)),
        ("data"@, JsonV::Array(match get(raw, "data"@) {
            Some(JsonV::Array(items)) => relation_users(items, self_uid, fans),
            _ => Seq::empty(),
        })),
    ])
}

fn get_either<'a>(item: &'a Json, a: &str, b: &str) -> (r: Option<&'a Json>)
    ensures
        json_opt(r) == match get(json_view(*item), a@) {
            Some(v) => Some(v),
            None => get(json_view(*item), b@),
        },
{
    match item.get(a) {
        Some(v) => Some(v),
        None => item.get(b),
    }
}

fn opt_get<'a>(v: Option<&'a Json>, key: &str) -> (r: Option<&'a Json>)
    ensures
        json_opt(r) == get_opt(json_opt(v), key@),
{
    match v {
        Some(x) => x.get(key),
        None => None,
    }
}

fn text_nonempty_of(v: Option<&Json>) -> (r: Option<String>)
    ensures
        match r {
            Some(s) => text_nonempty(json_opt(v)) == Some(s@),
            None => text_nonempty(json_opt(v)) is None,
        },
{
    match v {
        Some(x) => {
            let t = value_to_string(x);
            if t.as_str().is_empty() {
                None
            } else {
                Some(t)
            }
        },
        None => None,
    }
}

fn str_of(v: Option<&Json>) -> (r: Option<String>)
    ensures
        match r {
            Some(s) => as_str_opt(json_opt(v)) == Some(s@),
            None => as_str_opt(json_opt(v)) is None,
        },
{
    match v {
        Some(x) => match x.as_str() {
            Some(s) => Some(s.to_string()),
            None => None,
        },
        None => None,
    }
}

fn info_text_of(info: Option<&Json>, a: &str, b: &str) -> (r: Option<String>)
    ensures
        match r {
            Some(s) => info_text(json_opt(info), a@, b@) == Some(s@),
            None => info_text(json_opt(info), a@, b@) is None,
        },
{
    let v = match opt_get(info, a) {
        Some(x) => Some(x),
        None => opt_get(info, b),
    };
    str_of(v)
}

fn value_from_of(info: Option<&Json>, item: &Json, key: &str, default: Json) -> (r: Json)
    ensures
        json_view(r) == value_from(json_opt(info), json_view(*item), key@, json_view(default)),
{
    match opt_get(info, key) {
        Some(v) => v.deep_copy(),
        None => match item.get(key) {
            Some(v) => v.deep_copy(),
            None => default,
        },
    }
}

/// The other user's id in an entry (see `other_uid`).
fn other_uid_of(item: &Json, fans: bool) -> (r: String)
    ensures
        r@ == other_uid(json_view(*item), fans),
{
    let info = if fans {
        get_either(item, "userInfo", "fUserInfo")
    } else {
        get_either(item, "fUserInfo", "userInfo")
    };
    match text_nonempty_of(opt_get(info, "uid")) {
        Some(u) => u,
        None => {
            let own = if fans {
                item.get("uid")
            } else {
                item.get("fuid")
            };
            match text_nonempty_of(own) {
                Some(u) => u,
                None => String::new(),
            }
        },
    }
}

/// Rewrites one entry (see `rewritten_user`).
fn rewrite_user(item: &Json, fans: bool) -> (r: Json)
    ensures
        json_view(r) == rewritten_user(json_view(*item), fans),
{
    let info = if fans {
        get_either(item, "userInfo", "fUserInfo")
    } else {
        get_either(item, "fUserInfo", "userInfo")
    };
    let uid = other_uid_of(item, fans);
    let own_name = if fans {
        item.get("username")
    } else {
        item.get("fusername")
    };
    let own_avatar = if fans {
        item.get("userAvatar")
    } else {
        item.get("fUserAvatar")
    };
    let name = match info_text_of(info, "username", "displayUserName") {
        Some(s) => s,
        None => match str_of(own_name) {
            Some(s) => s,
            None => "酷友".to_string(),
        },
    };
    let avatar = match info_text_of(info, "userAvatar", "avatar") {
        Some(s) => s,
        None => match str_of(own_avatar) {
            Some(s) => s,
            None => String::new(),
        },
    };
    let bio = match info_text_of(info, "bio", "signature") {
        Some(s) => s,
        None => String::new(),
    };
    let follow_default: u64 = if fans {
        0
    } else {
        1
    };
    let is_follow = value_from_of(info, item, "isFollow", count_json(follow_default));
    let special = value_from_of(info, item, "isSpecialFollow", count_json(0));
    let level = value_from_of(info, item, "level", count_json(0));
    proof {
        lemma_views(*item);
    }
    match item {
        Json::Object(_) => {
            let copy = item.deep_copy();
            proof {
                lemma_views(copy);
            }
            let mut f: Vec<(String, Json)> = match copy {
                Json::Object(f) => f,
                _ => Vec::new(),
            };
            insert_json_field(&mut f, "uid", Json::Str(uid.clone()));
            insert_json_field(&mut f, "fuid", Json::Str(uid));
            insert_json_field(&mut f, "username", Json::Str(name.clone()));
            insert_json_field(&mut f, "fusername", Json::Str(name));
            insert_json_field(&mut f, "userAvatar", Json::Str(avatar.clone()));
            insert_json_field(&mut f, "fUserAvatar", Json::Str(avatar));
            insert_json_field(&mut f, "bio", Json::Str(bio.clone()));
            insert_json_field(&mut f, "signature", Json::Str(bio));
            insert_json_field(&mut f, "isFollow", is_follow);
            insert_json_field(&mut f, "isSpecialFollow", special);
            insert_json_field(&mut f, "level", level);
            let ghost fv = fields_view(f@);
            let r = Json::Object(f);
            proof {
                lemma_views(r);
            }
            r
        },
        _ => item.deep_copy(),
    }
}

/// Cleans a follow list (`fans` false) or a fan list (`fans` true) answer
/// for the user `self_uid` (see `relation_page`).
pub fn relation_user_list(raw: &Json, self_uid: &str, fans: bool) -> (r: Json)
    ensures
        json_view(r) == relation_page(json_view(*raw), self_uid@, fans),
{
    let me = trimmed_str(self_uid);
    let mut out: Vec<Json> = Vec::new();
    let d = raw.get("data");
    match d {
        Some(Json::Array(items)) => {
            proof {
                lemma_views(Json::Array(*items));
            }
            let ghost iv = items_view(items@);
            let mut i: usize = 0;
            assert(items_view(out@) =~= relation_users(iv.take(0), self_uid@, fans));
            while i < items.len()
                invariant
                    i <= items@.len(),
                    iv == items_view(items@),
                    me@ == trim(self_uid@),
                    items_view(out@) == relation_users(iv.take(i as int), self_uid@, fans),
                decreases items@.len() - i,
            {
                proof {
                    assert(iv.take(i + 1).drop_last() =~= iv.take(i as int));
                    assert(iv.take(i + 1).last() == json_view(items@[i as int]));
                }
                let ghost before = items_view(out@);
                let uid = other_uid_of(&items[i], fans);
                let uc = chars_of(uid.as_str());
                if uc.len() == 0 || chars_eq(&uc, &me) {
                    assert(items_view(out@) =~= before + Seq::<JsonV>::empty());
                } else {
                    let u = rewrite_user(&items[i], fans);
                    out.push(u);
                    assert(items_view(out@) =~= before + seq![json_view(u)]);
                }
                i += 1;
            }
            assert(iv.take(items@.len() as int) =~= iv);
        },
        Some(other) => {
            proof {
                lemma_views(*other);
            }
            assert(items_view(out@) =~= Seq::<JsonV>::empty());
        },
        None => {
            assert(items_view(out@) =~= Seq::<JsonV>::empty());
        },
    }
    let ghost ov = items_view(out@);
    let data = Json::Array(out);
    proof {
        lemma_views(data);
    }
    let mut f: Vec<(String, Json)> = Vec::new();
    assert(fields_view(f@) =~= Seq::<(Seq<char>, JsonV)>::empty());
    push_field(&mut f, "code", count_json(200));
    push_field(&mut f, "data", data);
    let ghost fv = fields_view(f@);
    let r = Json::Object(f);
    proof {
        lemma_views(r);
    }
    assert(fv =~= relation_page(json_view(*raw), self_uid@, fans)->Object_0);
    r
}

} // verus!
