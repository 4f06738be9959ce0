//! Search requests by kind, and the user's collections as the front end
//! lists them.

use vstd::prelude::*;
use crate::feed::{count, count_json, first_str, push_field, FieldsV};
use crate::json::{
    fields_view, first_by_keys, first_value_by_keys, get, get_str_by_keys, get_u64_by_keys, items_view,
    json_view, lemma_views, str_by_keys, u64_by_keys, Json, JsonV,
};
use crate::replies::opt_param;
use crate::text::{chars_eq_str, chars_of, dec, params_view, starts_with, str_views, strip_leading, u64_to_string};

verus! {

// ---------------------------------------------------------------------------
// Search requests
// ---------------------------------------------------------------------------

/// The fixed form of a second-hand search.
pub open spec fn ershou_params(
    query: Seq<char>,
    page: u32,
    first_item: Seq<char>,
    last_item: Seq<char>,
    page_type: Seq<char>,
    page_param: Seq<char>,
    sort: Seq<char>,
) -> Seq<(Seq<char>, Seq<char>)> {
    seq![
        ("type"@, "ershou"@),
        ("sort"@, sort),
        ("searchValue"@, query),
        ("status"@, "1"@),
        ("deal_type"@, "all"@),
        ("city_code"@, Seq::empty()),
        ("is_link"@, Seq::empty()),
        ("ershou_type"@, page_type),
        ("product_id"@, page_param),
        ("tags"@, Seq::empty()),
        ("page"@, dec(page as nat)),
    ] + opt_param(first_item.len() > 0, "firstItem"@, first_item) + opt_param(last_item.len() > 0, "lastItem"@, last_item)
}

/// The fields every other search starts with.
pub open spec fn search_base(
    kind: Seq<char>,
    query: Seq<char>,
    page: u32,
    first_item: Seq<char>,
    last_item: Seq<char>,
    page_context: Seq<char>,
) -> Seq<(Seq<char>, Seq<char>)> {
    seq![("type"@, kind), ("searchValue"@, query), ("page"@, dec(page as nat))] + opt_param(
        first_item.len() > 0,
        "firstItem"@,
        first_item,
    ) + opt_param(last_item.len() > 0, "lastItem"@, last_item) + opt_param(page_context.len() > 0, "pageContext"@, page_context)
}

/// The filters of a feed or question search.
pub open spec fn feed_search_tail(
    page_type: Seq<char>,
    page_param: Seq<char>,
    feed_type: Seq<char>,
    sort: Seq<char>,
    is_strict: u32,
) -> Seq<(Seq<char>, Seq<char>)> {
    opt_param(feed_type.len() > 0, "feedType"@, feed_type) + opt_param(sort.len() > 0, "sort"@, sort) + opt_param(
        page_type.len() > 0,
        "pageType"@,
        page_type,
    ) + opt_param(page_param.len() > 0, "pageParam"@, page_param) + seq![
        ("isStrict"@, dec(is_strict as nat)),
        ("showAnonymous"@, "-1"@),
    ]
}

/// The query of `/v6/search` for a kind of search. Second-hand searches
/// use their own fixed form; feed and question searches carry their
/// filters and strictness; app and game searches always name a category
/// and an order; other kinds name them when given.
pub open spec fn search_params(
    kind: Seq<char>,
    query: Seq<char>,
    page: u32,
    first_item: Seq<char>,
    last_item: Seq<char>,
    page_type: Seq<char>,
    page_param: Seq<char>,
    feed_type: Seq<char>,
    sort: Seq<char>,
    is_strict: u32,
    category: Seq<char>,
    page_context: Seq<char>,
) -> Seq<(Seq<char>, Seq<char>)> {
    if kind == "ershou"@ {
        ershou_params(query, page, first_item, last_item, page_type, page_param, sort)
    } else {
        let base = search_base(kind, query, page, first_item, last_item, page_context);
        if kind == "feed"@ || kind == "ask"@ {
            base + feed_search_tail(page_type, page_param, feed_type, sort, is_strict)
        } else if kind == "apk"@ || kind == "game"@ {
            base + seq![("cat"@, category), ("sort"@, sort), ("showAnonymous"@, "-1"@)]
        } else {
            base + opt_param(category.len() > 0, "category"@, category) + opt_param(sort.len() > 0, "sort"@, sort) + seq![
                ("showAnonymous"@, "-1"@),
            ]
        }
    }
}

fn push_if(q: &mut Vec<(&'static str, String)>, key: &'static str, value: &str)
    ensures
        params_view(final(q)@) == params_view(old(q)@) + opt_param(value@.len() > 0, key@, value@),
{
    let ghost before = params_view(q@);
    if !value.is_empty() {
        q.push((key, value.to_string()));
        assert(params_view(q@) =~= before + seq![(key@, value@)]);
    } else {
        assert(params_view(q@) =~= before + Seq::<(Seq<char>, Seq<char>)>::empty());
    }
}

fn push_pair(q: &mut Vec<(&'static str, String)>, key: &'static str, value: String)
    ensures
        params_view(final(q)@) == params_view(old(q)@).push((key@, value@)),
{
    let ghost before = params_view(q@);
    q.push((key, value));
    assert(params_view(q@) =~= before.push((key@, value@)));
}

fn ershou_query(
    query: &str,
    page: u32,
    first_item: &str,
    last_item: &str,
    page_type: &str,
    page_param: &str,
    sort: &str,
) -> (r: Vec<(&'static str, String)>)
    ensures
        params_view(r@) == ershou_params(query@, page, first_item@, last_item@, page_type@, page_param@, sort@),
{
    let mut q: Vec<(&'static str, String)> = Vec::new();
    assert(params_view(q@) =~= Seq::<(Seq<char>, Seq<char>)>::empty());
    push_pair(&mut q, "type", "ershou".to_string());
    push_pair(&mut q, "sort", sort.to_string());
    push_pair(&mut q, "searchValue", query.to_string());
    push_pair(&mut q, "status", "1".to_string());
    push_pair(&mut q, "deal_type", "all".to_string());
    push_pair(&mut q, "city_code", String::new());
    push_pair(&mut q, "is_link", String::new());
    push_pair(&mut q, "ershou_type", page_type.to_string());
    push_pair(&mut q, "product_id", page_param.to_string());
    push_pair(&mut q, "tags", String::new());
    push_pair(&mut q, "page", u64_to_string(page as u64));
    push_if(&mut q, "firstItem", first_item);
    push_if(&mut q, "lastItem", last_item);
    q
}

fn base_query(
    kind: &str,
    query: &str,
    page: u32,
    first_item: &str,
    last_item: &str,
    page_context: &str,
) -> (r: Vec<(&'static str, String)>)
    ensures
        params_view(r@) == search_base(kind@, query@, page, first_item@, last_item@, page_context@),
{
    let mut q: Vec<(&'static str, String)> = Vec::new();
    assert(params_view(q@) =~= Seq::<(Seq<char>, Seq<char>)>::empty());
    push_pair(&mut q, "type", kind.to_string());
    push_pair(&mut q, "searchValue", query.to_string());
    push_pair(&mut q, "page", u64_to_string(page as u64));
    push_if(&mut q, "firstItem", first_item);
    push_if(&mut q, "lastItem", last_item);
    push_if(&mut q, "pageContext", page_context);
    q
}

fn feed_tail(q: &mut Vec<(&'static str, String)>, page_type: &str, page_param: &str, feed_type: &str, sort: &str, is_strict: u32)
    ensures
        params_view(final(q)@) == params_view(old(q)@) + feed_search_tail(page_type@, page_param@, feed_type@, sort@, is_strict),
{
    let ghost start = params_view(q@);
    push_if(q, "feedType", feed_type);
    push_if(q, "sort", sort);
    push_if(q, "pageType", page_type);
    push_if(q, "pageParam", page_param);
    push_pair(q, "isStrict", u64_to_string(is_strict as u64));
    push_pair(q, "showAnonymous", "-1".to_string());
    assert(params_view(q@) =~= start + feed_search_tail(page_type@, page_param@, feed_type@, sort@, is_strict));
}

/// Builds the search query (see `search_params`).
pub fn search_query(
    kind: &str,
    query: &str,
    page: u32,
    first_item: &str,
    last_item: &str,
    page_type: &str,
    page_param: &str,
    feed_type: &str,
    sort: &str,
    is_strict: u32,
    category: &str,
    page_context: &str,
) -> (r: Vec<(&'static str, String)>)
    ensures
        params_view(r@) == search_params(
            kind@,
            query@,
            page,
            first_item@,
            last_item@,
            page_type@,
            page_param@,
            feed_type@,
            sort@,
            is_strict,
            category@,
            page_context@,
        ),
{
    let k = chars_of(kind);
    if chars_eq_str(&k, "ershou") {
        return ershou_query(query, page, first_item, last_item, page_type, page_param, sort);
    }
    let mut q = base_query(kind, query, page, first_item, last_item, page_context);
    let ghost base = params_view(q@);
    if chars_eq_str(&k, "feed") || chars_eq_str(&k, "ask") {
        feed_tail(&mut q, page_type, page_param, feed_type, sort, is_strict);
    } else if chars_eq_str(&k, "apk") || chars_eq_str(&k, "game") {
        push_pair(&mut q, "cat", category.to_string());
        push_pair(&mut q, "sort", sort.to_string());
        push_pair(&mut q, "showAnonymous", "-1".to_string());
        assert(params_view(q@) =~= base + seq![("cat"@, category@), ("sort"@, sort@), ("showAnonymous"@, "-1"@)]);
    } else {
        push_if(&mut q, "category", category);
        push_if(&mut q, "sort", sort);
        push_pair(&mut q, "showAnonymous", "-1".to_string());
        assert(params_view(q@) =~= base + opt_param(category@.len() > 0, "category"@, category@) + opt_param(
            sort@.len() > 0,
            "sort"@,
            sort@,
        ) + seq![("showAnonymous"@, "-1"@)]);
    }
    q
}

// ---------------------------------------------------------------------------
// Collections
// ---------------------------------------------------------------------------

pub open spec fn or_empty_text(o: Option<Seq<char>>) -> Seq<char> {
    match o {
        Some(s) => s,
        None => Seq::empty(),
    }
}

/// A cover made absolute: kept when it starts with `http`, else a path on
/// the image host; empty stays empty.
pub open spec fn cover_url(raw: Seq<char>) -> Seq<char> {
    if starts_with(raw, "http"@) {
        raw
    } else if raw.len() > 0 {
        "https://image.coolapk.com/"@ + strip_leading(raw, '/')
    } else {
        Seq::empty()
    }
}

/// A value among `keys`, else `default`.
pub open spec fn value_or_default(f: FieldsV, keys: Seq<Seq<char>>, default: JsonV) -> JsonV {
    match first_by_keys(f, keys) {
        Some(v) => v,
        None => default,
    }
}

/// A collection as listed: only objects of type `collection` with an id
/// and a title are kept.
pub open spec fn cleaned_collection(item: JsonV) -> Option<JsonV> {
    match item {
        JsonV::Object(f) => {
            let id = or_empty_text(str_by_keys(f, seq!["id"@, "collectionId"@]));
            let title = or_empty_text(str_by_keys(f, seq!["title"@, "name"@]));
            if crate::feed::fstr(f, "entityType"@) != Some("collection"@) || id.len() == 0 || title.len() == 0 {
                None
            } else {
                let cover = cover_url(or_empty_text(str_by_keys(f, seq!["cover"@, "coverPic"@, "cover_pic"@, "pic"@, "logo"@])));
                Some(JsonV::Object(collection_head(f, id, title, cover) + collection_tail(f)))
            }
        },
        _ => None,
    }
}

/// Identity, cover, text and counters of a collection.
pub open spec fn collection_head(f: FieldsV, id: Seq<char>, title: Seq<char>, cover: Seq<char>) -> FieldsV {
    seq![
        ("id"@, JsonV::Str(id)),
        ("title"@, JsonV::Str(title)),
        ("cover"@, JsonV::Str(cover)),
        ("coverPic"@, JsonV::Str(cover)),
        ("description"@, JsonV::Str(or_empty_text(str_by_keys(f, seq!["description"@, "summary"@])))),
        ("itemNum"@, count(u64_by_keys(f, seq!["itemNum"@, "item_num"@, "itemnum"@, "feedNum"@, "feed_num"@, "count"@]))),
        ("favnum"@, count(u64_by_keys(f, seq!["favnum"@, "fav_num"@, "likeNum"@, "like_num"@]))),
        ("follownum"@, count(u64_by_keys(f, seq!["follownum"@, "followNum"@, "follow_num"@]))),
    ]
}

/// Owner, source and state of a collection.
pub open spec fn collection_tail(f: FieldsV) -> FieldsV {
    seq![
        ("uid"@, JsonV::Str(or_empty_text(str_by_keys(f, seq!["uid"@, "userId"@, "user_id"@])))),
        ("sourceId"@, JsonV::Str(or_empty_text(str_by_keys(f, seq!["sourceId"@, "source_id"@])))),
        ("isOpen"@, value_or_default(f, seq!["isOpen"@, "is_open"@, "open"@], count(1))),
        ("defaultCollected"@, value_or_default(f, seq!["defaultCollected"@, "default_collected"@, "isDefault"@, "is_default"@], count(0))),
    ]
}

/// The kept collections, in order.
pub open spec fn collections_of(items: Seq<JsonV>) -> Seq<JsonV>
    decreases items.len(),
{
    if items.len() == 0 {
        Seq::empty()
    } else {
        collections_of(items.drop_last()) + match cleaned_collection(items.last()) {
            Some(c) => seq![c],
            None => Seq::empty(),
        }
    }
}

/// `{ code: 200, data: [collections] }`.
pub open spec fn collection_page(raw: JsonV) -> JsonV {
    JsonV::Object(seq![
        ("code"@, count(200)),
        ("data"@, JsonV::Array(match get(raw, "data"@) {
            Some(JsonV::Array(items)) => collections_of(items),
            _ => Seq::empty(),
        })),
    ])
}

fn str_keys(fields: &Vec<(String, Json)>, keys: &[&str]) -> (r: String)
    ensures
        r@ == or_empty_text(str_by_keys(fields_view(fields@), str_views(keys@))),
{
    match get_str_by_keys(fields, keys) {
        Some(s) => s,
        None => String::new(),
    }
}

fn value_or_default_of(fields: &Vec<(String, Json)>, keys: &[&str], default: Json) -> (r: Json)
    ensures
        json_view(r) == value_or_default(fields_view(fields@), str_views(keys@), json_view(default)),
{
    match first_value_by_keys(fields, keys) {
        Some(v) => v.deep_copy(),
        None => default,
    }
}

fn cover_of(raw: String) -> (r: String)
    ensures
        r@ == cover_url(raw@),
{
    let cs = chars_of(raw.as_str());
    if crate::text::chars_start_with(&cs, "http") {
        return raw;
    }
    if cs.len() == 0 {
        return String::new();
    }
    let start = crate::text::strip_leading_range(&cs, 0, cs.len(), '/');
    assert(cs@.subrange(0, cs@.len() as int) =~= cs@);
    let mut out = "https://image.coolapk.com/".to_string();
    crate::text::push_range(&mut out, &cs, start, cs.len());
    out
}

fn collection_fields(fields: &Vec<(String, Json)>, id: String, title: String) -> (r: Vec<(String, Json)>)
    ensures
        fields_view(r@) == collection_head(
            fields_view(fields@),
            id@,
            title@,
            cover_url(or_empty_text(str_by_keys(fields_view(fields@), seq!["cover"@, "coverPic"@, "cover_pic"@, "pic"@, "logo"@]))),
        ) + collection_tail(fields_view(fields@)),
{
    let ghost f = fields_view(fields@);
    let ghost idv = id@;
    let ghost titlev = title@;
    let cover_keys = ["cover", "coverPic", "cover_pic", "pic", "logo"];
    assert(str_views(cover_keys@) =~= seq!["cover"@, "coverPic"@, "cover_pic"@, "pic"@, "logo"@]);
    let cover = cover_of(str_keys(fields, &cover_keys));
    let mut out: Vec<(String, Json)> = Vec::new();
    assert(fields_view(out@) =~= Seq::<(Seq<char>, JsonV)>::empty());
    push_field(&mut out, "id", Json::Str(id));
    push_field(&mut out, "title", Json::Str(title));
    push_field(&mut out, "cover", Json::Str(cover.clone()));
    push_field(&mut out, "coverPic", Json::Str(cover));
    let dk = ["description", "summary"];
    assert(str_views(dk@) =~= seq!["description"@, "summary"@]);
    push_field(&mut out, "description", Json::Str(str_keys(fields, &dk)));
    let k1 = ["itemNum", "item_num", "itemnum", "feedNum", "feed_num", "count"];
    assert(str_views(k1@) =~= seq!["itemNum"@, "item_num"@, "itemnum"@, "feedNum"@, "feed_num"@, "count"@]);
    push_field(&mut out, "itemNum", count_json(get_u64_by_keys(fields, &k1)));
    let k2 = ["favnum", "fav_num", "likeNum", "like_num"];
    assert(str_views(k2@) =~= seq!["favnum"@, "fav_num"@, "likeNum"@, "like_num"@]);
    push_field(&mut out, "favnum", count_json(get_u64_by_keys(fields, &k2)));
    let k3 = ["follownum", "followNum", "follow_num"];
    assert(str_views(k3@) =~= seq!["follownum"@, "followNum"@, "follow_num"@]);
    push_field(&mut out, "follownum", count_json(get_u64_by_keys(fields, &k3)));
    let uk = ["uid", "userId", "user_id"];
    assert(str_views(uk@) =~= seq!["uid"@, "userId"@, "user_id"@]);
    push_field(&mut out, "uid", Json::Str(str_keys(fields, &uk)));
    let sk = ["sourceId", "source_id"];
    assert(str_views(sk@) =~= seq!["sourceId"@, "source_id"@]);
    push_field(&mut out, "sourceId", Json::Str(str_keys(fields, &sk)));
    let ok = ["isOpen", "is_open", "open"];
    assert(str_views(ok@) =~= seq!["isOpen"@, "is_open"@, "open"@]);
    push_field(&mut out, "isOpen", value_or_default_of(fields, &ok, count_json(1)));
    let ck = ["defaultCollected", "default_collected", "isDefault", "is_default"];
    assert(str_views(ck@) =~= seq!["defaultCollected"@, "default_collected"@, "isDefault"@, "is_default"@]);
    push_field(&mut out, "defaultCollected", value_or_default_of(fields, &ck, count_json(0)));
    assert(fields_view(out@) =~= collection_head(
        f,
        idv,
        titlev,
        cover_url(or_empty_text(str_by_keys(f, seq!["cover"@, "coverPic"@, "cover_pic"@, "pic"@, "logo"@]))),
    ) + collection_tail(f));
    out
}

/// One collection, cleaned (see `cleaned_collection`).
fn clean_collection(item: &Json) -> (r: Option<Json>)
    ensures
        match r {
            Some(c) => cleaned_collection(json_view(*item)) == Some(json_view(c)),
            None => cleaned_collection(json_view(*item)) is None,
        },
{
    proof {
        lemma_views(*item);
    }
    match item {
        Json::Object(fields) => {
            let is_collection = match crate::feed::field_str(fields, "entityType") {
                Some(t) => chars_eq_str(&chars_of(t), "collection"),
                None => false,
            };
            let ik = ["id", "collectionId"];
            assert(str_views(ik@) =~= seq!["id"@, "collectionId"@]);
            let id = str_keys(fields, &ik);
            let tk = ["title", "name"];
            assert(str_views(tk@) =~= seq!["title"@, "name"@]);
            let title = str_keys(fields, &tk);
            if !is_collection || id.as_str().is_empty() || title.as_str().is_empty() {
                return None;
            }
            let out = collection_fields(fields, id, title);
            let ghost ov = fields_view(out@);
            let r = Json::Object(out);
            proof {
                lemma_views(r);
            }
            Some(r)
        },
        _ => None,
    }
}

/// The user's collections from a collection-list answer (see
/// `collection_page`).
pub fn collection_list_page(raw: &Json) -> (r: Json)
    ensures
        json_view(r) == collection_page(json_view(*raw)),
{
    let mut out: Vec<Json> = Vec::new();
    let d = raw.get("data");
    match d {
        Some(Json::Array(items)) => {
            proof {
                lemma_views(Json::Array(*items));
            }
            let ghost iv = items_view(items@);
            let mut i: usize = 0;
            assert(items_view(out@) =~= collections_of(iv.take(0)));
            while i < items.len()
                invariant
                    i <= items@.len(),
                    iv == items_view(items@),
                    items_view(out@) == collections_of(iv.take(i as int)),
                decreases items@.len() - i,
            {
                proof {
                    assert(iv.take(i + 1).drop_last() =~= iv.take(i as int));
                    assert(iv.take(i + 1).last() == json_view(items@[i as int]));
                }
                let ghost before = items_view(out@);
                match clean_collection(&items[i]) {
                    Some(c) => {
                        out.push(c);
                        assert(items_view(out@) =~= before + seq![json_view(c)]);
                    },
                    None => {
                        assert(items_view(out@) =~= before + Seq::<JsonV>::empty());
                    },
                }
                i += 1;
            }
            assert(iv.take(items@.len() as int) =~= iv);
        },
        Some(other) => {
            proof {
                lemma_views(*other);
            }
            assert(items_view(out@) =~= Seq::<JsonV>::empty());
        },
        None => {
            assert(items_view(out@) =~= Seq::<JsonV>::empty());
        },
    }
    let ghost ov = items_view(out@);
    let data = Json::Array(out);
    proof {
        lemma_views(data);
    }
    let mut f: Vec<(String, Json)> = Vec::new();
    assert(fields_view(f@) =~= Seq::<(Seq<char>, JsonV)>::empty());
    push_field(&mut f, "code", count_json(200));
    push_field(&mut f, "data", data);
    let ghost fv = fields_view(f@);
    let r = Json::Object(f);
    proof {
        lemma_views(r);
    }
    assert(fv =~= collection_page(json_view(*raw))->Object_0);
    r
}

} // verus!
