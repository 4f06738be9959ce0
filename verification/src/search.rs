//! Search answers: sponsored entries are taken out at any depth, the rest
//! of the server's structure is kept; entity rows are flattened.

use vstd::prelude::*;
use crate::feed::{count, count_json, insert_field, insert_json_field, push_field, FieldsV};
use crate::json::{
    as_array, as_str_opt, field_of, field_value, fields_view, get, get_str_by_keys, get_u64_by_keys, items_view,
    json_view, lemma_views, str_by_keys, u64_by_keys, Json, JsonNumber, JsonV, NumberV,
};
use crate::text::{
    chars_of, chars_start_with, lower_chars, lower_seq, push_range, starts_with, str_views, strip_leading,
    strip_leading_range, trim, trimmed,
};

verus! {

/// `get(key)`, else `get(alt)`, as trimmed lower-case text (empty when
/// absent or not a string).
pub open spec fn kind_text(f: FieldsV, key: Seq<char>, alt: Seq<char>) -> Seq<char> {
    let v = match field_value(f, key) {
        Some(v) => Some(v),
        None => field_value(f, alt),
    };
    match as_str_opt(v) {
        Some(s) => lower_seq(trim(s)),
        None => Seq::empty(),
    }
}

/// A `sponsorType` that marks an advertisement: a non-blank text, `true`,
/// a number other than 0 (or one beyond `i64`), a non-empty list or
/// object.
pub open spec fn sponsor_flag(v: JsonV) -> bool {
    match v {
        JsonV::Null => false,
        JsonV::Str(s) => trim(s).len() > 0,
        JsonV::Bool(b) => b,
        JsonV::Number(NumberV::PosInt(n)) => n != 0,
        JsonV::Number(NumberV::NegInt(_)) => true,
        JsonV::Number(NumberV::Float(_)) => true,
        JsonV::Array(items) => items.len() > 0,
        JsonV::Object(fields) => fields.len() > 0,
    }
}

/// A sponsored search entry: an object whose type or template starts with
/// `sponsor`, or that carries a sponsor flag.
pub open spec fn is_sponsor(v: JsonV) -> bool {
    match v {
        JsonV::Object(f) => {
            ||| starts_with(kind_text(f, "entityType"@, "entity_type"@), "sponsor"@)
            ||| starts_with(kind_text(f, "entityTemplate"@, "entity_template"@), "sponsor"@)
            ||| match field_value(f, "sponsorType"@) {
                Some(s) => sponsor_flag(s),
                None => match field_value(f, "sponsor_type"@) {
                    Some(s) => sponsor_flag(s),
                    None => false,
                },
            }
        },
        _ => false,
    }
}

/// A value without its sponsored entries; `None` for a sponsored entry.
/// Lists keep their other elements in order; objects their other fields,
/// each inserted in turn.
pub open spec fn sanitized(v: JsonV) -> Option<JsonV>
    decreases v, 2int, 0int,
{
    if is_sponsor(v) {
        None
    } else {
        match v {
            JsonV::Array(items) => Some(JsonV::Array(sanitized_items(v, items.len() as int))),
            JsonV::Object(fields) => Some(JsonV::Object(sanitized_fields(v, fields.len() as int))),
            _ => Some(v),
        }
    }
}

/// The kept elements among the first `n` of a list.
pub open spec fn sanitized_items(v: JsonV, n: int) -> Seq<JsonV>
    decreases v, 1int, n,
{
    match v {
        JsonV::Array(items) => if 0 < n <= items.len() {
            let prev = sanitized_items(v, n - 1);
            match sanitized(items[n - 1]) {
                Some(c) => prev.push(c),
                None => prev,
            }
        } else {
            Seq::empty()
        },
        _ => Seq::empty(),
    }
}

/// The kept fields among the first `n` of an object.
pub open spec fn sanitized_fields(v: JsonV, n: int) -> FieldsV
    decreases v, 1int, n,
{
    match v {
        JsonV::Object(fields) => if 0 < n <= fields.len() {
            let prev = sanitized_fields(v, n - 1);
            match sanitized(fields[n - 1].1) {
                Some(c) => insert_field(prev, fields[n - 1].0, c),
                None => prev,
            }
        } else {
            Seq::empty()
        },
        _ => Seq::empty(),
    }
}

fn kind_text_of(fields: &Vec<(String, Json)>, key: &str, alt: &str) -> (r: Vec<char>)
    ensures
        r@ == kind_text(fields_view(fields@), key@, alt@),
{
    let v = match field_of(fields, key) {
        Some(v) => Some(v),
        None => field_of(fields, alt),
    };
    match v {
        Some(Json::Str(s)) => {
            let t = crate::text::trimmed_str(s.as_str());
            lower_chars(&t)
        },
        _ => Vec::new(),
    }
}

fn sponsor_flag_of(v: &Json) -> (r: bool)
    ensures
        r == sponsor_flag(json_view(*v)),
{
    proof {
        lemma_views(*v);
    }
    match v {
        Json::Null => false,
        Json::Str(s) => crate::text::trimmed_str(s.as_str()).len() > 0,
        Json::Bool(b) => *b,
        Json::Number(JsonNumber::PosInt(n)) => *n != 0,
        Json::Number(JsonNumber::NegInt(_)) => true,
        Json::Number(JsonNumber::Float(_)) => true,
        Json::Array(items) => items.len() > 0,
        Json::Object(fields) => fields.len() > 0,
    }
}

/// Whether a search entry is sponsored (see `is_sponsor`).
pub fn is_sponsor_search_entity(value: &Json) -> (r: bool)
    ensures
        r == is_sponsor(json_view(*value)),
{
    proof {
        lemma_views(*value);
    }
    match value {
        Json::Object(fields) => {
            let t = kind_text_of(fields, "entityType", "entity_type");
            let m = kind_text_of(fields, "entityTemplate", "entity_template");
            if chars_start_with(&t, "sponsor") || chars_start_with(&m, "sponsor") {
                return true;
            }
            match field_of(fields, "sponsorType") {
                Some(s) => sponsor_flag_of(s),
                None => match field_of(fields, "sponsor_type") {
                    Some(s) => sponsor_flag_of(s),
                    None => false,
                },
            }
        },
        _ => false,
    }
}

/// A search value without its sponsored entries (see `sanitized`).
pub fn sanitize_search_value(value: &Json) -> (r: Option<Json>)
    ensures
        match r {
            Some(c) => sanitized(json_view(*value)) == Some(json_view(c)),
            None => sanitized(json_view(*value)) is None,
        },
    decreases value,
{
    if is_sponsor_search_entity(value) {
        return None;
    }
    proof {
        lemma_views(*value);
    }
    let ghost vv = json_view(*value);
    match value {
        Json::Array(items) => {
            let ghost iv = items_view(items@);
            let mut out: Vec<Json> = Vec::new();
            let mut i: usize = 0;
            while i < items.len()
                invariant
                    i <= items@.len(),
                    *value == Json::Array(*items),
                    iv == items_view(items@),
                    vv == JsonV::Array(iv),
                    vv == json_view(*value),
                    items_view(out@) == sanitized_items(vv, i as int),
                decreases items@.len() - i,
            {
                proof {
                    assert(decreases_to!(*value => (*value)->Array_0));
                    vstd::std_specs::vec::axiom_vec_decreases_to_view(*items);
                    assert(decreases_to!(*items => items@[i as int]));
                    assert(iv[i as int] == json_view(items@[i as int]));
                }
                let ghost before = items_view(out@);
                match sanitize_search_value(&items[i]) {
                    Some(c) => {
                        out.push(c);
                        assert(items_view(out@) =~= before.push(json_view(c)));
                    },
                    None => {},
                }
                i += 1;
            }
            let ghost ov = items_view(out@);
            let r = Json::Array(out);
            proof {
                lemma_views(r);
            }
            assert(json_view(r) == JsonV::Array(ov));
            Some(r)
        },
        Json::Object(fields) => {
            let ghost fv = fields_view(fields@);
            let mut out: Vec<(String, Json)> = Vec::new();
            assert(fields_view(out@) =~= Seq::<(Seq<char>, JsonV)>::empty());
            let mut i: usize = 0;
            while i < fields.len()
                invariant
                    i <= fields@.len(),
                    *value == Json::Object(*fields),
                    fv == fields_view(fields@),
                    vv == JsonV::Object(fv),
                    vv == json_view(*value),
                    fields_view(out@) == sanitized_fields(vv, i as int),
                decreases fields@.len() - i,
            {
                proof {
                    assert(decreases_to!(*value => (*value)->Object_0));
                    vstd::std_specs::vec::axiom_vec_decreases_to_view(*fields);
                    assert(decreases_to!(*fields => fields@[i as int]));
                    assert(decreases_to!(fields@[i as int] => fields@[i as int].1));
                    assert(fv[i as int] == (fields@[i as int].0@, json_view(fields@[i as int].1)));
                }
                match sanitize_search_value(&fields[i].1) {
                    Some(c) => {
                        insert_json_field(&mut out, fields[i].0.as_str(), c);
                    },
                    None => {},
                }
                i += 1;
            }
            let ghost ov = fields_view(out@);
            let r = Json::Object(out);
            proof {
                lemma_views(r);
            }
            assert(json_view(r) == JsonV::Object(ov));
            Some(r)
        },
        Json::Null => Some(Json::Null),
        Json::Bool(b) => Some(Json::Bool(*b)),
        Json::Number(n) => Some(value.deep_copy()),
        Json::Str(s) => Some(Json::Str(s.clone())),
    }
}

/// A search answer with its sponsored entries removed: the answer's
/// fields, with `code` 200 and `data` the sanitized data (an empty list
/// when there is none or it is itself sponsored).
pub open spec fn sanitized_response(raw: JsonV) -> JsonV {
    let data = match get(raw, "data"@) {
        Some(d) => match sanitized(d) {
            Some(c) => c,
            None => JsonV::Array(Seq::empty()),
        },
        None => JsonV::Array(Seq::empty()),
    };
    let base = match raw {
        JsonV::Object(f) => f,
        _ => Seq::empty(),
    };
    JsonV::Object(insert_field(insert_field(base, "code"@, count(200)), "data"@, data))
}

fn empty_list() -> (r: Json)
    ensures
        json_view(r) == JsonV::Array(Seq::empty()),
{
    let v: Vec<Json> = Vec::new();
    let r = Json::Array(v);
    proof {
        lemma_views(r);
        assert(items_view(v@) =~= Seq::<JsonV>::empty());
    }
    r
}

/// Removes the sponsored entries of a search answer (see
/// `sanitized_response`).
pub fn wrap_sanitized_search_data(raw: &Json) -> (r: Json)
    ensures
        json_view(r) == sanitized_response(json_view(*raw)),
{
    proof {
        lemma_views(*raw);
    }
    let data = match raw.get("data") {
        Some(d) => match sanitize_search_value(d) {
            Some(c) => c,
            None => empty_list(),
        },
        None => empty_list(),
    };
    let mut out: Vec<(String, Json)> = match raw {
        Json::Object(fields) => {
            let copy = raw.deep_copy();
            proof {
                lemma_views(copy);
            }
            match copy {
                Json::Object(f) => f,
                _ => Vec::new(),
            }
        },
        _ => Vec::new(),
    };
    assert(fields_view(out@) == match json_view(*raw) {
        JsonV::Object(f) => f,
        _ => Seq::<(Seq<char>, JsonV)>::empty(),
    });
    insert_json_field(&mut out, "code", count_json(200));
    insert_json_field(&mut out, "data", data);
    let ghost ov = fields_view(out@);
    let r = Json::Object(out);
    proof {
        lemma_views(r);
    }
    r
}

/// The rows of an entity answer: each element of a `data` list, with
/// cards replaced by their `entities`; or the `entities` of a `data`
/// object.
pub open spec fn entity_rows(raw: JsonV) -> Seq<JsonV> {
    match get(raw, "data"@) {
        None => Seq::empty(),
        Some(JsonV::Array(items)) => flattened_rows(items),
        Some(d) => match get(d, "entities"@) {
            Some(JsonV::Array(e)) => e,
            _ => Seq::empty(),
        },
    }
}

/// Elements in order, a card's `entities` in its place.
pub open spec fn flattened_rows(items: Seq<JsonV>) -> Seq<JsonV>
    decreases items.len(),
{
    if items.len() == 0 {
        Seq::empty()
    } else {
        flattened_rows(items.drop_last()) + match get(items.last(), "entities"@) {
            Some(JsonV::Array(e)) => e,
            _ => seq![items.last()],
        }
    }
}

fn copy_items(items: &Vec<Json>, out: &mut Vec<Json>)
    ensures
        items_view(final(out)@) == items_view(old(out)@) + items_view(items@),
{
    let ghost start = items_view(out@);
    let mut i: usize = 0;
    while i < items.len()
        invariant
            i <= items@.len(),
            items_view(out@) == start + items_view(items@).take(i as int),
        decreases items@.len() - i,
    {
        let c = items[i].deep_copy();
        let ghost before = items_view(out@);
        out.push(c);
        assert(items_view(out@) =~= before.push(json_view(c)));
        assert(items_view(items@).take(i + 1) =~= items_view(items@).take(i as int).push(json_view(items@[i as int])));
        i += 1;
    }
    assert(items_view(items@).take(items@.len() as int) =~= items_view(items@));
}

fn array_of(v: Option<&Json>) -> (r: Option<&Vec<Json>>)
    ensures
        match r {
            Some(items) => v matches Some(j) && json_view(*j) == JsonV::Array(items_view(items@)),
            None => !(v matches Some(j) && json_view(*j) is Array),
        },
{
    match v {
        Some(j) => {
            proof {
                lemma_views(*j);
            }
            match j {
                Json::Array(items) => Some(items),
                _ => None,
            }
        },
        None => None,
    }
}

/// The rows of an entity answer (see `entity_rows`).
pub fn extract_entity_rows(raw: &Json) -> (r: Vec<Json>)
    ensures
        items_view(r@) == entity_rows(json_view(*raw)),
{
    let mut out: Vec<Json> = Vec::new();
    let d = match raw.get("data") {
        Some(d) => d,
        None => {
            assert(items_view(out@) =~= Seq::<JsonV>::empty());
            return out;
        },
    };
    if let Some(items) = array_of(Some(d)) {
        let ghost iv = items_view(items@);
        let mut i: usize = 0;
        assert(items_view(out@) =~= flattened_rows(iv.take(0)));
        while i < items.len()
            invariant
                i <= items@.len(),
                iv == items_view(items@),
                items_view(out@) == flattened_rows(iv.take(i as int)),
            decreases items@.len() - i,
        {
            proof {
                assert(iv.take(i + 1).drop_last() =~= iv.take(i as int));
                assert(iv.take(i + 1).last() == json_view(items@[i as int]));
            }
            match array_of(items[i].get("entities")) {
                Some(entities) => {
                    copy_items(entities, &mut out);
                },
                None => {
                    let c = items[i].deep_copy();
                    let ghost before = items_view(out@);
                    out.push(c);
                    assert(items_view(out@) =~= before + seq![json_view(c)]);
                },
            }
            i += 1;
        }
        assert(iv.take(items@.len() as int) =~= iv);
        return out;
    }
    match array_of(d.get("entities")) {
        Some(entities) => {
            copy_items(entities, &mut out);
            assert(items_view(out@) =~= items_view(entities@));
        },
        None => {
            assert(items_view(out@) =~= Seq::<JsonV>::empty());
        },
    }
    out
}

// ---------------------------------------------------------------------------
// User search
// ---------------------------------------------------------------------------

/// A string field read as `get_str_by_keys` does, empty when absent.
pub open spec fn str_or_empty(f: FieldsV, keys: Seq<Seq<char>>) -> Seq<char> {
    match str_by_keys(f, keys) {
        Some(s) => s,
        None => Seq::empty(),
    }
}

/// A user's avatar as an address: kept when it starts with `http`, else
/// put on the avatar host without its leading slashes; empty stays empty.
pub open spec fn user_avatar(raw: Seq<char>) -> Seq<char> {
    if starts_with(raw, "http"@) {
        raw
    } else if raw.len() > 0 {
        "https://avatar.coolapk.com/"@ + strip_leading(raw, '/')
    } else {
        Seq::empty()
    }
}

/// A user entry of a user search: objects of type `user` with a uid and a
/// username, in the shape the user list shows.
pub open spec fn searched_user(item: JsonV) -> Option<JsonV> {
    match item {
        JsonV::Object(f) => {
            let uid = str_or_empty(f, seq!["uid"@]);
            let username = str_or_empty(f, seq!["username"@]);
            if as_str_opt(field_value(f, "entityType"@)) != Some("user"@) || uid.len() == 0 || username.len() == 0 {
                None
            } else {
                Some(JsonV::Object(seq![
                    ("avatar"@, JsonV::Str(user_avatar(str_or_empty(f, seq!["userAvatar"@])))),
                    ("bio"@, JsonV::Str(str_or_empty(f, seq!["bio"@, "sign"@]))),
                    ("fans"@, count(u64_by_keys(f, seq!["fans"@, "fansnum"@]))),
                    ("follow"@, count(u64_by_keys(f, seq!["follow"@, "follownum"@]))),
                    ("level"@, count(u64_by_keys(f, seq!["level"@]))),
                    ("uid"@, JsonV::Str(uid)),
                    ("username"@, JsonV::Str(username)),
                    ("verifyTitle"@, JsonV::Str(str_or_empty(f, seq!["verify_title"@]))),
                ]))
            }
        },
        _ => None,
    }
}

/// The users among `items`, in order.
pub open spec fn searched_users(items: Seq<JsonV>) -> Seq<JsonV>
    decreases items.len(),
{
    if items.len() == 0 {
        Seq::empty()
    } else {
        searched_users(items.drop_last()) + match searched_user(items.last()) {
            Some(u) => seq![u],
            None => Seq::empty(),
        }
    }
}

/// The answer of a user search: code 200 and the users of its `data` list.
pub open spec fn user_search_answer(raw: JsonV) -> JsonV {
    let users = match get(raw, "data"@) {
        Some(JsonV::Array(items)) => searched_users(items),
        _ => Seq::empty(),
    };
    JsonV::Object(seq![("code"@, count(200)), ("data"@, JsonV::Array(users))])
}

fn str_or_empty_of(fields: &Vec<(String, Json)>, keys: &[&str]) -> (r: String)
    ensures
        r@ == str_or_empty(fields_view(fields@), str_views(keys@)),
{
    match get_str_by_keys(fields, keys) {
        Some(s) => s,
        None => String::new(),
    }
}

fn user_avatar_of(raw: String) -> (r: String)
    ensures
        r@ == user_avatar(raw@),
{
    let cs = chars_of(raw.as_str());
    if chars_start_with(&cs, "http") {
        raw
    } else if cs.len() > 0 {
        let start = strip_leading_range(&cs, 0, cs.len(), '/');
        assert(cs@.subrange(0, cs@.len() as int) =~= cs@);
        let mut out = "https://avatar.coolapk.com/".to_string();
        push_range(&mut out, &cs, start, cs.len());
        out
    } else {
        String::new()
    }
}

fn searched_user_of(item: &Json) -> (r: Option<Json>)
    ensures
        match r {
            Some(u) => searched_user(json_view(*item)) == Some(json_view(u)),
            None => searched_user(json_view(*item)) is None,
        },
{
    proof {
        lemma_views(*item);
    }
    let fields = match item {
        Json::Object(f) => f,
        _ => {
            return None;
        },
    };
    let ghost f = fields_view(fields@);
    let k_uid = ["uid"];
    let k_name = ["username"];
    let k_avatar = ["userAvatar"];
    let k_bio = ["bio", "sign"];
    let k_fans = ["fans", "fansnum"];
    let k_follow = ["follow", "follownum"];
    let k_level = ["level"];
    let k_verify = ["verify_title"];
    assert(str_views(k_uid@) =~= seq!["uid"@]);
    assert(str_views(k_name@) =~= seq!["username"@]);
    assert(str_views(k_avatar@) =~= seq!["userAvatar"@]);
    assert(str_views(k_bio@) =~= seq!["bio"@, "sign"@]);
    assert(str_views(k_fans@) =~= seq!["fans"@, "fansnum"@]);
    assert(str_views(k_follow@) =~= seq!["follow"@, "follownum"@]);
    assert(str_views(k_level@) =~= seq!["level"@]);
    assert(str_views(k_verify@) =~= seq!["verify_title"@]);
    let is_user = match field_of(fields, "entityType") {
        Some(v) => match v.as_str() {
            Some(t) => {
                proof {
                    reveal_strlit("user");
                }
                crate::text::chars_eq_str(&chars_of(t), "user")
            },
            None => false,
        },
        None => false,
    };
    let uid = str_or_empty_of(fields, &k_uid);
    let username = str_or_empty_of(fields, &k_name);
    if !is_user || uid.as_str().is_empty() || username.as_str().is_empty() {
        return None;
    }
    let avatar = user_avatar_of(str_or_empty_of(fields, &k_avatar));
    let mut out: Vec<(String, Json)> = Vec::new();
    assert(fields_view(out@) =~= Seq::<(Seq<char>, JsonV)>::empty());
    push_field(&mut out, "avatar", Json::Str(avatar));
    push_field(&mut out, "bio", Json::Str(str_or_empty_of(fields, &k_bio)));
    push_field(&mut out, "fans", count_json(get_u64_by_keys(fields, &k_fans)));
    push_field(&mut out, "follow", count_json(get_u64_by_keys(fields, &k_follow)));
    push_field(&mut out, "level", count_json(get_u64_by_keys(fields, &k_level)));
    push_field(&mut out, "uid", Json::Str(uid));
    push_field(&mut out, "username", Json::Str(username));
    push_field(&mut out, "verifyTitle", Json::Str(str_or_empty_of(fields, &k_verify)));
    let ghost ov = fields_view(out@);
    let r = Json::Object(out);
    proof {
        lemma_views(r);
    }
    assert(ov =~= searched_user(json_view(*item))->Some_0->Object_0);
    Some(r)
}

/// `search_users`' answer built from `/v6/user/search` (see
/// `user_search_answer`).
pub fn user_search_result(raw: &Json) -> (r: Json)
    ensures
        json_view(r) == user_search_answer(json_view(*raw)),
{
    let mut users: Vec<Json> = Vec::new();
    let d = raw.get("data");
    match d {
        Some(Json::Array(items)) => {
            proof {
                lemma_views(Json::Array(*items));
            }
            let ghost iv = items_view(items@);
            let mut i: usize = 0;
            assert(items_view(users@) =~= Seq::<JsonV>::empty());
            while i < items.len()
                invariant
                    i <= items@.len(),
                    iv == items_view(items@),
                    items_view(users@) == searched_users(iv.take(i as int)),
                decreases items@.len() - i,
            {
                proof {
                    assert(iv.take(i + 1).drop_last() =~= iv.take(i as int));
                    assert(iv.take(i + 1).last() == json_view(items@[i as int]));
                }
                let ghost before = items_view(users@);
                match searched_user_of(&items[i]) {
                    Some(u) => {
                        users.push(u);
                        assert(items_view(users@) =~= before + seq![json_view(u)]);
                    },
                    None => {
                        assert(items_view(users@) =~= before + Seq::<JsonV>::empty());
                    },
                }
                i += 1;
            }
            assert(iv.take(items@.len() as int) =~= iv);
        },
        _ => {
            proof {
                match d {
                    Some(v) => {
                        lemma_views(*v);
                    },
                    None => {},
                }
            }
            assert(items_view(users@) =~= Seq::<JsonV>::empty());
        },
    }
    let ghost uv = items_view(users@);
    let data = Json::Array(users);
    proof {
        lemma_views(data);
    }
    let mut out: Vec<(String, Json)> = Vec::new();
    assert(fields_view(out@) =~= Seq::<(Seq<char>, JsonV)>::empty());
    push_field(&mut out, "code", count_json(200));
    push_field(&mut out, "data", data);
    let ghost ov = fields_view(out@);
    let r = Json::Object(out);
    proof {
        lemma_views(r);
    }
    assert(ov =~= user_search_answer(json_view(*raw))->Object_0);
    r
}

} // verus!
