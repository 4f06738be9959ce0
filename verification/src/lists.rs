//! Entity lists that keep the server's own objects: browsing history,
//! product brands and categories, user lists, paging metadata, and the
//! extra request arguments a discovery page may carry.

use vstd::prelude::*;
use crate::api::{api_error_view, response_refusal, response_refusal_of, wrap_api_data, wrapped_answer, ApiError, ApiErrorV};
use crate::feed::{count, count_json, fstr, field_str, index_of_field, index_of_key, insert_field, insert_json_field, push_field, FieldsV};
use crate::json::{
    as_array, as_i64, as_str_opt, field_of, field_value, fields_view, first_by_keys, get, items_view,
    json_view, lemma_views, Json, JsonNumber, JsonV, NumberV,
};
use crate::jsontext::number_text;
use crate::media::has_control;
use crate::outside::{json_text_value, parse_json_text};
use crate::search::flattened_rows;
use crate::text::{
    chars_eq_str, chars_of, chars_start_with, eq_ic, is_alnum_char, is_ascii_alnum, is_control, utf8_len,
    utf8_len_capped, push_range, push_str, range_eq_ic, starts_with, str_views,
    string_of, strip_leading, strip_leading_range, trim, trimmed_str,
};

verus! {

// ---------------------------------------------------------------------------
// Browsing history
// ---------------------------------------------------------------------------

/// A history link made absolute within the app: a leading `/` is added
/// when missing; blank links are left alone (`None`).
pub open spec fn history_url(u: Seq<char>) -> Option<Seq<char>> {
    let t = trim(u);
    if t.len() > 0 && !starts_with(t, "/"@) {
        Some("/"@ + t)
    } else {
        None
    }
}

/// A history logo as an HTTPS address: protocol-relative and plain HTTP
/// addresses get `https`, bare paths the image host; others are kept
/// (trimmed).
pub open spec fn history_logo(l: Seq<char>) -> Seq<char> {
    let t = trim(l);
    if starts_with(t, "//"@) {
        "https:"@ + t
    } else if starts_with(t, "http://"@) {
        "https://"@ + t.skip(7)
    } else if t.len() > 0 && !starts_with(t, "/"@) {
        "https://image.coolapk.com/"@ + strip_leading(t, '/')
    } else {
        t
    }
}

/// A history entry: the server's object with its link and logo
/// normalized; values that are not objects are dropped.
pub open spec fn cleaned_history(item: JsonV) -> Option<JsonV> {
    match item {
        JsonV::Object(f) => {
            let f1 = match fstr(f, "url"@) {
                Some(u) => match history_url(u) {
                    Some(n) => insert_field(f, "url"@, JsonV::Str(n)),
                    None => f,
                },
                None => f,
            };
            let f2 = match fstr(f, "logo"@) {
                Some(l) => insert_field(f1, "logo"@, JsonV::Str(history_logo(l))),
                None => f1,
            };
            Some(JsonV::Object(f2))
        },
        _ => None,
    }
}

/// The kept entries of a list, in order.
pub open spec fn history_entries(items: Seq<JsonV>) -> Seq<JsonV>
    decreases items.len(),
{
    if items.len() == 0 {
        Seq::empty()
    } else {
        history_entries(items.drop_last()) + match cleaned_history(items.last()) {
            Some(e) => seq![e],
            None => Seq::empty(),
        }
    }
}

/// The history entries of an answer's `data` list.
pub open spec fn history_list(raw: JsonV) -> Seq<JsonV> {
    match get(raw, "data"@) {
        Some(JsonV::Array(items)) => history_entries(items),
        _ => Seq::empty(),
    }
}

fn history_logo_of(l: &str) -> (r: String)
    ensures
        r@ == history_logo(l@),
{
    let cs = chars_of(l);
    let (a, b) = crate::text::trim_range(&cs, 0, cs.len());
    proof {
        assert(cs@.subrange(0, cs@.len() as int) =~= l@);
    }
    let t = crate::text::string_of_range(&cs, a, b);
    let tc = chars_of(t.as_str());
    if chars_start_with(&tc, "//") {
        let mut out = "https:".to_string();
        push_str(&mut out, t.as_str());
        return out;
    }
    if chars_start_with(&tc, "http://") {
        let mut out = "https://".to_string();
        proof {
            reveal_strlit("http://");
        }
        push_range(&mut out, &tc, 7, tc.len());
        assert(tc@.subrange(7, tc@.len() as int) =~= tc@.skip(7));
        return out;
    }
    if tc.len() > 0 && !chars_start_with(&tc, "/") {
        let start = strip_leading_range(&tc, 0, tc.len(), '/');
        assert(tc@.subrange(0, tc@.len() as int) =~= tc@);
        let mut out = "https://image.coolapk.com/".to_string();
        push_range(&mut out, &tc, start, tc.len());
        return out;
    }
    t
}

/// One history entry (see `cleaned_history`).
fn clean_history_entry(item: &Json) -> (r: Option<Json>)
    ensures
        match r {
            Some(e) => cleaned_history(json_view(*item)) == Some(json_view(e)),
            None => cleaned_history(json_view(*item)) is None,
        },
{
    proof {
        lemma_views(*item);
    }
    match item {
        Json::Object(fields) => {
            let ghost f = fields_view(fields@);
            let copy = item.deep_copy();
            proof {
                lemma_views(copy);
            }
            let mut out: Vec<(String, Json)> = match copy {
                Json::Object(c) => c,
                _ => Vec::new(),
            };
            assert(fields_view(out@) == f);
            if let Some(u) = field_str(fields, "url") {
                let t = trimmed_str(u);
                if t.len() > 0 && !chars_start_with(&t, "/") {
                    let mut n = "/".to_string();
                    push_range(&mut n, &t, 0, t.len());
                    assert(t@.subrange(0, t@.len() as int) =~= t@);
                    insert_json_field(&mut out, "url", Json::Str(n));
                }
            }
            if let Some(l) = field_str(fields, "logo") {
                insert_json_field(&mut out, "logo", Json::Str(history_logo_of(l)));
            }
            let ghost ov = fields_view(out@);
            let r = Json::Object(out);
            proof {
                lemma_views(r);
            }
            Some(r)
        },
        _ => None,
    }
}

/// The history entries of an answer (see `history_list`).
pub fn extract_history_list(raw: &Json) -> (r: Vec<Json>)
    ensures
        items_view(r@) == history_list(json_view(*raw)),
{
    let mut out: Vec<Json> = Vec::new();
    let d = raw.get("data");
    match d {
        Some(Json::Array(items)) => {
            proof {
                lemma_views(Json::Array(*items));
            }
            let ghost iv = items_view(items@);
            let mut i: usize = 0;
            while i < items.len()
                invariant
                    i <= items@.len(),
                    iv == items_view(items@),
                    items_view(out@) == history_entries(iv.take(i as int)),
                decreases items@.len() - i,
            {
                proof {
                    assert(iv.take(i + 1).drop_last() =~= iv.take(i as int));
                    assert(iv.take(i + 1).last() == json_view(items@[i as int]));
                }
                let ghost before = items_view(out@);
                if let Some(e) = clean_history_entry(&items[i]) {
                    out.push(e);
                    assert(items_view(out@) =~= before + seq![json_view(e)]);
                } else {
                    assert(items_view(out@) =~= before + Seq::<JsonV>::empty());
                }
                i += 1;
            }
            assert(iv.take(items@.len() as int) =~= iv);
        },
        _ => {
            proof {
                match d {
                    Some(v) => {
                        lemma_views(*v);
                    },
                    None => {},
                }
            }
            assert(items_view(out@) =~= Seq::<JsonV>::empty());
        },
    }
    out
}

// ---------------------------------------------------------------------------
// Product brands and categories
// ---------------------------------------------------------------------------

/// `get(a).or_else(|| get(b)).and_then(as_str)`, empty when absent.
pub open spec fn text_of_keys(f: FieldsV, a: Seq<char>, b: Seq<char>) -> Seq<char> {
    match as_str_opt(first_by_keys(f, seq![a, b])) {
        Some(s) => s,
        None => Seq::empty(),
    }
}

/// A present, non-null field among `keys` (the first present one counts).
pub open spec fn has_value(f: FieldsV, keys: Seq<Seq<char>>) -> bool {
    match first_by_keys(f, keys) {
        Some(v) => !(v is Null),
        None => false,
    }
}

/// The templates of a product group's title and "more" rows.
pub open spec fn product_structure(t: Seq<char>) -> bool {
    ||| eq_ic(t, "productgrouptitle"@)
    ||| eq_ic(t, "productgroupmore"@)
    ||| eq_ic(t, "series_title"@)
    ||| eq_ic(t, "series_more"@)
    ||| eq_ic(t, "series-title"@)
    ||| eq_ic(t, "series-more"@)
}

/// A product entity is kept as the server sent it, unless it is a card,
/// header, card title or banner, or it has neither an id nor a product
/// group template.
pub open spec fn clean_product(item: JsonV) -> Option<JsonV> {
    match item {
        JsonV::Object(f) => {
            let et = text_of_keys(f, "entityType"@, "entity_type"@);
            let tpl = text_of_keys(f, "entityTemplate"@, "entity_template"@);
            if eq_ic(et, "card"@) || eq_ic(et, "header"@) || eq_ic(et, "card_title"@) || eq_ic(et, "banner"@) {
                None
            } else {
                let structure = product_structure(tpl) || product_structure(et);
                let has_id = has_value(f, seq!["id"@]) || has_value(f, seq!["entityId"@, "entity_id"@])
                    || has_value(f, seq!["productId"@, "product_id"@]);
                if !has_id && !structure {
                    None
                } else {
                    Some(item)
                }
            }
        },
        _ => None,
    }
}

/// The product entities an item stands for: those under its `entities`
/// list, at any depth, else the item itself when kept.
pub open spec fn product_entities(v: JsonV) -> Seq<JsonV>
    decreases v, 1int, 0int,
{
    match nested_entities(v) {
        Some(es) => nested_products(v, es.len() as int),
        None => match clean_product(v) {
            Some(c) => seq![c],
            None => Seq::empty(),
        },
    }
}

/// The `entities` list of an object (at the field's first occurrence).
pub open spec fn nested_entities(v: JsonV) -> Option<Seq<JsonV>> {
    match v {
        JsonV::Object(fields) => match index_of_key(fields, "entities"@) {
            Some(i) => if 0 <= i < fields.len() {
                match fields[i].1 {
                    JsonV::Array(es) => Some(es),
                    _ => None,
                }
            } else {
                None
            },
            None => None,
        },
        _ => None,
    }
}

/// The product entities of the first `n` nested entities.
pub open spec fn nested_products(v: JsonV, n: int) -> Seq<JsonV>
    decreases v, 0int, n,
{
    match v {
        JsonV::Object(fields) => match index_of_key(fields, "entities"@) {
            Some(i) => if 0 <= i < fields.len() {
                match fields[i].1 {
                    JsonV::Array(es) => if 0 < n <= es.len() {
                        nested_products(v, n - 1) + product_entities(es[n - 1])
                    } else {
                        Seq::empty()
                    },
                    _ => Seq::empty(),
                }
            } else {
                Seq::empty()
            },
            None => Seq::empty(),
        },
        _ => Seq::empty(),
    }
}

/// The product entities of a list of items, in order.
pub open spec fn product_entities_of(items: Seq<JsonV>) -> Seq<JsonV>
    decreases items.len(),
{
    if items.len() == 0 {
        Seq::empty()
    } else {
        product_entities_of(items.drop_last()) + product_entities(items.last())
    }
}

/// The product entities of an answer's `data` list.
pub open spec fn product_list(raw: JsonV) -> Seq<JsonV> {
    match get(raw, "data"@) {
        Some(JsonV::Array(items)) => product_entities_of(items),
        _ => Seq::empty(),
    }
}

fn text_of_keys_of(fields: &Vec<(String, Json)>, a: &str, b: &str) -> (r: Vec<char>)
    ensures
        r@ == text_of_keys(fields_view(fields@), a@, b@),
{
    let v = match field_of(fields, a) {
        Some(v) => Some(v),
        None => field_of(fields, b),
    };
    proof {
        reveal_with_fuel(first_by_keys, 3);
    }
    match v {
        Some(Json::Str(s)) => chars_of(s.as_str()),
        _ => Vec::new(),
    }
}

fn present_non_null(fields: &Vec<(String, Json)>, a: &str, b: Option<&str>) -> (r: bool)
    ensures
        r == has_value(
            fields_view(fields@),
            match b {
                Some(b) => seq![a@, b@],
                None => seq![a@],
            },
        ),
{
    proof {
        reveal_with_fuel(first_by_keys, 3);
    }
    let v = match field_of(fields, a) {
        Some(v) => Some(v),
        None => match b {
            Some(b) => field_of(fields, b),
            None => None,
        },
    };
    match v {
        Some(Json::Null) => false,
        Some(_) => true,
        None => false,
    }
}

fn is_structure(t: &Vec<char>) -> (r: bool)
    ensures
        r == product_structure(t@),
{
    let n = t.len();
    proof {
        assert(t@.subrange(0, n as int) =~= t@);
    }
    range_eq_ic(t, 0, n, "productgrouptitle") || range_eq_ic(t, 0, n, "productgroupmore")
        || range_eq_ic(t, 0, n, "series_title") || range_eq_ic(t, 0, n, "series_more")
        || range_eq_ic(t, 0, n, "series-title") || range_eq_ic(t, 0, n, "series-more")
}

/// Whether a product entity is kept (see `clean_product`); the kept value
/// is the item itself.
pub fn clean_product_entity(item: &Json) -> (r: Option<Json>)
    ensures
        match r {
            Some(c) => clean_product(json_view(*item)) == Some(json_view(c)),
            None => clean_product(json_view(*item)) is None,
        },
{
    proof {
        lemma_views(*item);
    }
    match item {
        Json::Object(fields) => {
            let et = text_of_keys_of(fields, "entityType", "entity_type");
            let tpl = text_of_keys_of(fields, "entityTemplate", "entity_template");
            let n = et.len();
            proof {
                assert(et@.subrange(0, n as int) =~= et@);
            }
            if range_eq_ic(&et, 0, n, "card") || range_eq_ic(&et, 0, n, "header") || range_eq_ic(&et, 0, n, "card_title")
                || range_eq_ic(&et, 0, n, "banner") {
                return None;
            }
            let structure = is_structure(&tpl) || is_structure(&et);
            let has_id = present_non_null(fields, "id", None) || present_non_null(fields, "entityId", Some("entity_id"))
                || present_non_null(fields, "productId", Some("product_id"));
            if !has_id && !structure {
                return None;
            }
            Some(item.deep_copy())
        },
        _ => None,
    }
}

/// Appends the product entities an item stands for (see
/// `product_entities`).
pub fn append_product_entities(item: &Json, out: &mut Vec<Json>)
    ensures
        items_view(final(out)@) == items_view(old(out)@) + product_entities(json_view(*item)),
    decreases item,
{
    proof {
        lemma_views(*item);
    }
    let ghost v = json_view(*item);
    let ghost start = items_view(out@);
    let nested: Option<&Vec<Json>> = match item {
        Json::Object(fields) => match index_of_field(fields, "entities") {
            Some(i) => match &fields[i].1 {
                Json::Array(es) => {
                    proof {
                        assert(fields_view(fields@)[i as int].1 == json_view(fields@[i as int].1));
                        lemma_views(fields@[i as int].1);
                    }
                    Some(es)
                },
                _ => {
                    proof {
                        assert(fields_view(fields@)[i as int].1 == json_view(fields@[i as int].1));
                    }
                    None
                },
            },
            None => None,
        },
        _ => None,
    };
    match nested {
        Some(es) => {
            let ghost ev = items_view(es@);
            assert(nested_entities(v) == Some(ev));
            let mut j: usize = 0;
            while j < es.len()
                invariant
                    j <= es@.len(),
                    ev == items_view(es@),
                    v == json_view(*item),
                    nested_entities(v) == Some(ev),
                    item matches Json::Object(fields) && (index_of_key(fields_view(fields@), "entities"@) matches Some(i)
                        && 0 <= i < fields@.len() && fields@[i].1 == Json::Array(*es)),
                    items_view(out@) == start + nested_products(v, j as int),
                decreases es@.len() - j,
            {
                proof {
                    let fields = (*item)->Object_0;
                    let i = index_of_key(fields_view(fields@), "entities"@)->Some_0;
                    assert(decreases_to!(*item => (*item)->Object_0));
                    vstd::std_specs::vec::axiom_vec_decreases_to_view(fields);
                    assert(decreases_to!(fields => fields@[i]));
                    assert(decreases_to!(fields@[i] => fields@[i].1));
                    assert(decreases_to!(fields@[i].1 => fields@[i].1->Array_0));
                    vstd::std_specs::vec::axiom_vec_decreases_to_view(*es);
                    assert(decreases_to!(*es => es@[j as int]));
                    assert(fields_view(fields@)[i].1 == json_view(fields@[i].1));
                    lemma_views(fields@[i].1);
                    assert(ev[j as int] == json_view(es@[j as int]));
                }
                append_product_entities(&es[j], out);
                j += 1;
                assert(items_view(out@) =~= start + nested_products(v, j as int));
            }
        },
        None => {
            assert(nested_entities(v) is None);
            match clean_product_entity(item) {
                Some(c) => {
                    out.push(c);
                    assert(items_view(out@) =~= start + product_entities(v));
                },
                None => {
                    assert(items_view(out@) =~= start + product_entities(v));
                },
            }
        },
    }
}

/// The product entities of an answer (see `product_list`).
pub fn extract_product_entity_list(raw: &Json) -> (r: Vec<Json>)
    ensures
        items_view(r@) == product_list(json_view(*raw)),
{
    let mut out: Vec<Json> = Vec::new();
    let d = raw.get("data");
    match d {
        Some(Json::Array(items)) => {
            proof {
                lemma_views(Json::Array(*items));
            }
            let ghost iv = items_view(items@);
            let mut i: usize = 0;
            assert(items_view(out@) =~= product_entities_of(iv.take(0)));
            while i < items.len()
                invariant
                    i <= items@.len(),
                    iv == items_view(items@),
                    items_view(out@) == product_entities_of(iv.take(i as int)),
                decreases items@.len() - i,
            {
                proof {
                    assert(iv.take(i + 1).drop_last() =~= iv.take(i as int));
                    assert(iv.take(i + 1).last() == json_view(items@[i as int]));
                }
                append_product_entities(&items[i], &mut out);
                i += 1;
            }
            assert(iv.take(items@.len() as int) =~= iv);
        },
        _ => {
            proof {
                match d {
                    Some(v) => {
                        lemma_views(*v);
                    },
                    None => {},
                }
            }
            assert(items_view(out@) =~= Seq::<JsonV>::empty());
        },
    }
    out
}

// ---------------------------------------------------------------------------
// Paging metadata
// ---------------------------------------------------------------------------

/// The paging fields a product page passes on.
pub open spec fn product_page_keys() -> Seq<Seq<char>> {
    seq![
        "firstItem"@, "first_item"@, "lastItem"@, "last_item"@, "hasMore"@, "has_more"@, "total"@,
        "current"@, "pagination"@, "pageInfo"@, "page_info"@,
    ]
}

/// The paging fields a page-data answer passes on.
pub open spec fn page_data_keys() -> Seq<Seq<char>> {
    seq![
        "firstItem"@, "first_item"@, "lastItem"@, "last_item"@, "pageContext"@, "page_context"@,
        "hasMore"@, "has_more"@, "pagination"@, "pageInfo"@, "page_info"@, "total"@, "current"@,
    ]
}

/// `out` with each of the first `n` keys that `raw` has set to its value.
pub open spec fn copied_keys(out: FieldsV, raw: JsonV, keys: Seq<Seq<char>>, n: int) -> FieldsV
    decreases n,
{
    if n <= 0 || n > keys.len() {
        out
    } else {
        let prev = copied_keys(out, raw, keys, n - 1);
        match get(raw, keys[n - 1]) {
            Some(v) => insert_field(prev, keys[n - 1], v),
            None => prev,
        }
    }
}

/// `out` with each of the first `n` keys that `raw` has added when `out`
/// lacks it (`entry(key).or_insert(value)`).
pub open spec fn filled_keys(out: FieldsV, raw: JsonV, keys: Seq<Seq<char>>, n: int) -> FieldsV
    decreases n,
{
    if n <= 0 || n > keys.len() {
        out
    } else {
        let prev = filled_keys(out, raw, keys, n - 1);
        match get(raw, keys[n - 1]) {
            Some(v) => if index_of_key(prev, keys[n - 1]) is Some {
                prev
            } else {
                prev.push((keys[n - 1], v))
            },
            None => prev,
        }
    }
}

/// A product page: `{ code: 200, data: [entities] }` with the answer's
/// paging fields.
pub open spec fn product_page(raw: JsonV) -> JsonV {
    JsonV::Object(copied_keys(
        seq![("code"@, count(200)), ("data"@, JsonV::Array(product_list(raw)))],
        raw,
        product_page_keys(),
        11,
    ))
}

/// Builds a product page (see `product_page`).
pub fn product_entity_page_response(raw: &Json) -> (r: Json)
    ensures
        json_view(r) == product_page(json_view(*raw)),
{
    let list = extract_product_entity_list(raw);
    let ghost lv = items_view(list@);
    let data = Json::Array(list);
    proof {
        lemma_views(data);
    }
    let mut out: Vec<(String, Json)> = Vec::new();
    assert(fields_view(out@) =~= Seq::<(Seq<char>, JsonV)>::empty());
    push_field(&mut out, "code", count_json(200));
    push_field(&mut out, "data", data);
    let ghost base = fields_view(out@);
    assert(base =~= seq![("code"@, count(200)), ("data"@, JsonV::Array(product_list(json_view(*raw))))]);
    let keys = ["firstItem", "first_item", "lastItem", "last_item", "hasMore", "has_more", "total", "current", "pagination", "pageInfo", "page_info"];
    let ghost ks = str_views(keys@);
    assert(ks =~= product_page_keys());
    let mut i: usize = 0;
    while i < 11
        invariant
            i <= 11,
            keys@.len() == 11,
            ks == str_views(keys@),
            ks == product_page_keys(),
            fields_view(out@) == copied_keys(base, json_view(*raw), ks, i as int),
        decreases 11 - i,
    {
        assert(ks[i as int] == keys@[i as int]@);
        match raw.get(keys[i]) {
            Some(v) => {
                insert_json_field(&mut out, keys[i], v.deep_copy());
            },
            None => {},
        }
        i += 1;
    }
    let ghost ov = fields_view(out@);
    let r = Json::Object(out);
    proof {
        lemma_views(r);
    }
    r
}

/// A page-data answer: a refusal of the server, or the wrapped answer
/// with the response's paging fields added where it lacks them.
pub open spec fn page_data_result(response: JsonV) -> Result<JsonV, ApiErrorV> {
    match response_refusal(response) {
        Some(e) => Err(e),
        None => Ok(JsonV::Object(filled_keys(wrapped_answer(response)->Object_0, response, page_data_keys(), 13))),
    }
}

/// Wraps a page-data answer, keeping its paging fields (see
/// `page_data_result`).
pub fn wrap_page_data_response(response: Json) -> (r: Result<Json, ApiError>)
    ensures
        match page_data_result(json_view(response)) {
            Ok(p) => r matches Ok(x) && json_view(x) == p,
            Err(e) => r matches Err(x) && api_error_view(x) == e,
        },
{
    let keys = ["firstItem", "first_item", "lastItem", "last_item", "pageContext", "page_context", "hasMore", "has_more", "pagination", "pageInfo", "page_info", "total", "current"];
    let ghost ks = str_views(keys@);
    assert(ks =~= page_data_keys());
    let ghost rv = json_view(response);
    let mut meta: Vec<Option<Json>> = Vec::new();
    let mut i: usize = 0;
    while i < 13
        invariant
            i <= 13,
            keys@.len() == 13,
            ks == str_views(keys@),
            rv == json_view(response),
            meta@.len() == i,
            forall|k: int| 0 <= k < i ==> match #[trigger] meta@[k] {
                Some(v) => get(rv, ks[k]) == Some(json_view(v)),
                None => get(rv, ks[k]) is None,
            },
        decreases 13 - i,
    {
        assert(ks[i as int] == keys@[i as int]@);
        let m = match response.get(keys[i]) {
            Some(v) => Some(v.deep_copy()),
            None => None,
        };
        meta.push(m);
        i += 1;
    }
    let wrapped = match wrap_api_data(response) {
        Ok(w) => w,
        Err(e) => {
            return Err(e);
        },
    };
    proof {
        lemma_views(wrapped);
    }
    let mut out: Vec<(String, Json)> = match wrapped {
        Json::Object(f) => f,
        _ => Vec::new(),
    };
    let ghost base = fields_view(out@);
    assert(base == wrapped_answer(rv)->Object_0);
    let mut j: usize = 0;
    while j < 13
        invariant
            j <= 13,
            keys@.len() == 13,
            meta@.len() == 13,
            ks == str_views(keys@),
            ks == page_data_keys(),
            forall|k: int| 0 <= k < 13 ==> match #[trigger] meta@[k] {
                Some(v) => get(rv, ks[k]) == Some(json_view(v)),
                None => get(rv, ks[k]) is None,
            },
            fields_view(out@) == filled_keys(base, rv, ks, j as int),
        decreases 13 - j,
    {
        assert(ks[j as int] == keys@[j as int]@);
        let ghost prev = fields_view(out@);
        match &meta[j] {
            Some(v) => {
                match index_of_field(&out, keys[j]) {
                    Some(_) => {},
                    None => {
                        let c = v.deep_copy();
                        push_field(&mut out, keys[j], c);
                    },
                }
            },
            None => {},
        }
        j += 1;
    }
    let ghost ov = fields_view(out@);
    let r = Json::Object(out);
    proof {
        lemma_views(r);
    }
    Ok(r)
}

// ---------------------------------------------------------------------------
// User lists
// ---------------------------------------------------------------------------

/// The users of an answer's `data` list, cards replaced by their
/// `entities`.
pub open spec fn user_list(raw: JsonV) -> Seq<JsonV> {
    match get(raw, "data"@) {
        Some(JsonV::Array(items)) => flattened_rows(items),
        _ => Seq::empty(),
    }
}

/// The users of an answer (see `user_list`).
pub fn extract_user_list(raw: &Json) -> (r: Vec<Json>)
    ensures
        items_view(r@) == user_list(json_view(*raw)),
{
    match raw.get("data") {
        Some(Json::Array(items)) => {
            proof {
                lemma_views(Json::Array(*items));
            }
            crate::search::extract_entity_rows(raw)
        },
        d => {
            proof {
                match d {
                    Some(v) => {
                        lemma_views(*v);
                    },
                    None => {},
                }
            }
            let out: Vec<Json> = Vec::new();
            assert(items_view(out@) =~= Seq::<JsonV>::empty());
            out
        },
    }
}

/// A user-list answer: a negative `status` is a refusal explained by
/// `message`, else `error`, else `fail_msg`; otherwise
/// `{ code: 200, data: [users] }`.
pub open spec fn user_list_result(raw: JsonV, fail_msg: Seq<char>) -> Result<JsonV, Seq<char>> {
    match get(raw, "status"@) {
        Some(s) if as_i64(s) matches Some(n) && n < 0 => Err(
            match as_str_opt(
                match get(raw, "message"@) {
                    Some(m) => Some(m),
                    None => get(raw, "error"@),
                },
            ) {
                Some(m) => m,
                None => fail_msg,
            },
        ),
        _ => Ok(JsonV::Object(seq![("code"@, count(200)), ("data"@, JsonV::Array(user_list(raw)))])),
    }
}

/// Wraps a user-list answer (see `user_list_result`).
pub fn wrap_user_list_result(raw: &Json, fail_msg: &str) -> (r: Result<Json, String>)
    ensures
        match user_list_result(json_view(*raw), fail_msg@) {
            Ok(p) => r matches Ok(x) && json_view(x) == p,
            Err(m) => r matches Err(x) && x@ == m,
        },
{
    let sv = raw.get("status");
    proof {
        match sv {
            Some(v) => {
                lemma_views(*v);
            },
            None => {},
        }
    }
    let status = match sv {
        Some(Json::Number(JsonNumber::NegInt(n))) => Some(*n),
        _ => None,
    };
    if let Some(n) = status {
        if n < 0 {
            let m = match raw.get("message") {
                Some(v) => Some(v),
                None => raw.get("error"),
            };
            let text = match m {
                Some(v) => match v.as_str() {
                    Some(s) => s.to_string(),
                    None => fail_msg.to_string(),
                },
                None => fail_msg.to_string(),
            };
            return Err(text);
        }
    }
    let users = extract_user_list(raw);
    let ghost uv = items_view(users@);
    let data = Json::Array(users);
    proof {
        lemma_views(data);
    }
    let mut out: Vec<(String, Json)> = Vec::new();
    assert(fields_view(out@) =~= Seq::<(Seq<char>, JsonV)>::empty());
    push_field(&mut out, "code", count_json(200));
    push_field(&mut out, "data", data);
    let ghost ov = fields_view(out@);
    let r = Json::Object(out);
    proof {
        lemma_views(r);
    }
    assert(ov =~= seq![("code"@, count(200)), ("data"@, JsonV::Array(user_list(json_view(*raw))))]);
    Ok(r)
}

// ---------------------------------------------------------------------------
// Discovery request arguments
// ---------------------------------------------------------------------------

/// Arguments a discovery page may not override.
pub open spec fn reserved_arg(k: Seq<char>) -> bool {
    ||| k == "url"@
    ||| k == "title"@
    ||| k == "subTitle"@
    ||| k == "sub_title"@
    ||| k == "page"@
    ||| k == "firstItem"@
    ||| k == "first_item"@
    ||| k == "lastItem"@
    ||| k == "last_item"@
    ||| k == "pageContext"@
    ||| k == "page_context"@
}

pub open spec fn arg_key_char(c: char) -> bool {
    is_ascii_alnum(c) || c == '_' || c == '-'
}

/// A simple argument name: 1 to 64 bytes of letters, digits, `_` and `-`,
/// not reserved.
pub open spec fn valid_arg_key(k: Seq<char>) -> bool {
    &&& k.len() > 0
    &&& utf8_len(k) <= 64
    &&& !reserved_arg(k)
    &&& forall|i: int| 0 <= i < k.len() ==> arg_key_char(#[trigger] k[i])
}

/// An argument's value as text: strings as they are, numbers and booleans
/// as written, lists and objects as compact JSON; `null` gives none.
pub open spec fn arg_text(v: JsonV) -> Option<Seq<char>> {
    match v {
        JsonV::Null => None,
        JsonV::Str(s) => Some(s),
        JsonV::Number(n) => Some(number_text(n)),
        JsonV::Bool(b) => Some(if b {
            "true"@
        } else {
            "false"@
        }),
        _ => Some(crate::outside::json_text_of(v)),
    }
}

/// A field kept as an argument: a valid name and a value of at most 4096
/// bytes without control characters.
pub open spec fn discovery_arg(p: (Seq<char>, JsonV)) -> Option<(Seq<char>, Seq<char>)> {
    if !valid_arg_key(p.0) {
        None
    } else {
        match arg_text(p.1) {
            Some(t) => if utf8_len(t) > 4096 || (exists|i: int| 0 <= i < t.len() && is_control(#[trigger] t[i])) {
                None
            } else {
                Some((p.0, t))
            },
            None => None,
        }
    }
}

/// The kept arguments of an object's fields, in order.
pub open spec fn discovery_args_of(f: FieldsV) -> Seq<(Seq<char>, Seq<char>)>
    decreases f.len(),
{
    if f.len() == 0 {
        Seq::empty()
    } else {
        discovery_args_of(f.drop_last()) + match discovery_arg(f.last()) {
            Some(a) => seq![a],
            None => Seq::empty(),
        }
    }
}

/// The arguments in a configuration text: the kept fields of a JSON
/// object; nothing for other texts.
pub open spec fn discovery_args(raw: Seq<char>) -> Seq<(Seq<char>, Seq<char>)> {
    match json_text_value(raw) {
        Some(JsonV::Object(f)) => discovery_args_of(f),
        _ => Seq::empty(),
    }
}

pub open spec fn pair_views(v: Seq<(String, String)>) -> Seq<(Seq<char>, Seq<char>)> {
    v.map_values(|p: (String, String)| (p.0@, p.1@))
}

fn arg_key_ok(k: &str) -> (r: bool)
    ensures
        r == valid_arg_key(k@),
{
    let kc = chars_of(k);
    let n = kc.len();
    if n == 0 {
        return false;
    }
    proof {
        assert(kc@.subrange(0, n as int) =~= kc@);
    }
    if utf8_len_capped(&kc, 0, n, 64).is_none() {
        return false;
    }
    if chars_eq_str(&kc, "url") || chars_eq_str(&kc, "title") || chars_eq_str(&kc, "subTitle")
        || chars_eq_str(&kc, "sub_title") || chars_eq_str(&kc, "page") || chars_eq_str(&kc, "firstItem")
        || chars_eq_str(&kc, "first_item") || chars_eq_str(&kc, "lastItem") || chars_eq_str(&kc, "last_item")
        || chars_eq_str(&kc, "pageContext") || chars_eq_str(&kc, "page_context") {
        return false;
    }
    let mut i: usize = 0;
    while i < n
        invariant
            i <= n,
            n == kc@.len(),
            kc@ == k@,
            n > 0,
            utf8_len(kc@) <= 64,
            !reserved_arg(kc@),
            forall|j: int| 0 <= j < i ==> arg_key_char(#[trigger] kc@[j]),
        decreases n - i,
    {
        let c = kc[i];
        if !(is_alnum_char(c) || c == '_' || c == '-') {
            return false;
        }
        i += 1;
    }
    true
}

fn arg_text_of(v: &Json) -> (r: Option<String>)
    ensures
        match r {
            Some(t) => arg_text(json_view(*v)) == Some(t@),
            None => arg_text(json_view(*v)) is None,
        },
{
    proof {
        lemma_views(*v);
    }
    match v {
        Json::Null => None,
        Json::Str(s) => Some(s.clone()),
        Json::Number(JsonNumber::PosInt(u)) => Some(crate::text::u64_to_string(*u)),
        Json::Number(JsonNumber::NegInt(i)) => Some(crate::text::i64_to_string(*i)),
        Json::Number(JsonNumber::Float(t)) => Some(t.clone()),
        Json::Bool(b) => Some(if *b {
            "true".to_string()
        } else {
            "false".to_string()
        }),
        Json::Array(_) => Some(crate::outside::json_to_text(v)),
        Json::Object(_) => Some(crate::outside::json_to_text(v)),
    }
}

/// The extra request arguments of a discovery page's configuration text
/// (see `discovery_args`).
pub fn parse_discovery_request_args(raw: &str) -> (r: Vec<(String, String)>)
    ensures
        pair_views(r@) == discovery_args(raw@),
{
    let mut out: Vec<(String, String)> = Vec::new();
    let parsed = parse_json_text(raw);
    proof {
        if parsed is Some {
            lemma_views(parsed->Some_0);
        }
    }
    match parsed {
        Some(Json::Object(fields)) => {
            let ghost fv = fields_view(fields@);
            let mut i: usize = 0;
            assert(pair_views(out@) =~= discovery_args_of(fv.take(0)));
            while i < fields.len()
                invariant
                    i <= fields@.len(),
                    fv == fields_view(fields@),
                    pair_views(out@) == discovery_args_of(fv.take(i as int)),
                decreases fields@.len() - i,
            {
                proof {
                    assert(fv.take(i + 1).drop_last() =~= fv.take(i as int));
                    assert(fv.take(i + 1).last() == (fields@[i as int].0@, json_view(fields@[i as int].1)));
                }
                let ghost before = pair_views(out@);
                let key = &fields[i].0;
                let mut kept = false;
                if arg_key_ok(key.as_str()) {
                    if let Some(t) = arg_text_of(&fields[i].1) {
                        let tc = chars_of(t.as_str());
                        let n = tc.len();
                        proof {
                            assert(tc@.subrange(0, n as int) =~= tc@);
                        }
                        let fits = utf8_len_capped(&tc, 0, n, 4096).is_some();
                        if fits && !has_control(&tc) {
                            out.push((key.clone(), t));
                            kept = true;
                            assert(pair_views(out@) =~= before + seq![(key@, tc@)]);
                        }
                    }
                }
                if !kept {
                    assert(pair_views(out@) =~= before + Seq::<(Seq<char>, Seq<char>)>::empty());
                }
                i += 1;
            }
            assert(fv.take(fields@.len() as int) =~= fv);
        },
        _ => {
            assert(pair_views(out@) =~= Seq::<(Seq<char>, Seq<char>)>::empty());
        },
    }
    out
}

} // verus!
