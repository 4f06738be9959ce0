//! Feed lists as the app shows them: the cleaned feeds of a list answer
//! (with the feeds nested in its cards), the rows of a topic's other
//! tabs, the sort options a topic page offers, and the answers built
//! from them.

use vstd::prelude::*;
use crate::feed::{cleaned_feed, clean_single_feed, count, count_json, index_of_field, index_of_key, push_field, FieldsV};
use crate::json::{as_str_opt, field_of, field_value, fields_view, first_by_keys, get, items_view, json_view, lemma_views, Json, JsonV};
use crate::lists::{discovery_args, pair_views, parse_discovery_request_args};
use crate::replies::opt_param;
use crate::text::{
    chars_eq_str, chars_of, chars_start_with, dec, dec_int, i64_to_string, join, lower_chars, lower_seq, params_view,
    push_joined, push_str,
    starts_with, trim, trimmed_str, u64_to_string,
};
use crate::topic::{hub_cursor, hub_cursor_of};
use crate::url::{is_safe_discovery_page_url, safe_discovery_route};

verus! {

// ---------------------------------------------------------------------------
// Cleaned feed lists
// ---------------------------------------------------------------------------

/// The cleaned form of the item at `idx`, as a list of zero or one items.
pub open spec fn cleaned_or_none(item: JsonV, idx: int, now_secs: u64) -> Seq<JsonV> {
    match cleaned_feed(item, idx as u64, now_secs) {
        Some(c) => seq![c],
        None => Seq::empty(),
    }
}

/// The cleaned feeds among `items`, each cleaned with its own position.
pub open spec fn cleaned_items(items: Seq<JsonV>, now_secs: u64) -> Seq<JsonV>
    decreases items.len(),
{
    if items.len() == 0 {
        Seq::empty()
    } else {
        cleaned_items(items.drop_last(), now_secs) + cleaned_or_none(items.last(), items.len() - 1, now_secs)
    }
}

/// The `entities` list of an item (empty when there is none).
pub open spec fn entities_of(item: JsonV) -> Seq<JsonV> {
    match get(item, "entities"@) {
        Some(JsonV::Array(es)) => es,
        _ => Seq::empty(),
    }
}

/// Each item cleaned, followed by the cleaned feeds of its `entities`.
pub open spec fn cleaned_rows(items: Seq<JsonV>, now_secs: u64) -> Seq<JsonV>
    decreases items.len(),
{
    if items.len() == 0 {
        Seq::empty()
    } else {
        cleaned_rows(items.drop_last(), now_secs) + cleaned_or_none(items.last(), items.len() - 1, now_secs)
            + cleaned_items(entities_of(items.last()), now_secs)
    }
}

/// The feed list of an answer: the cleaned rows of its `data` list, empty
/// when `data` is not a list.
pub open spec fn cleaned_list(raw: JsonV, now_secs: u64) -> Seq<JsonV> {
    match get(raw, "data"@) {
        Some(JsonV::Array(items)) => cleaned_rows(items, now_secs),
        _ => Seq::empty(),
    }
}

/// Appends the cleaned feeds of `items` (see `cleaned_items`).
fn append_cleaned_items(items: &Vec<Json>, now_secs: u64, out: &mut Vec<Json>)
    ensures
        items_view(final(out)@) == items_view(old(out)@) + cleaned_items(items_view(items@), now_secs),
{
    let ghost iv = items_view(items@);
    let ghost start = items_view(out@);
    let mut i: usize = 0;
    assert(iv.take(0) =~= Seq::<JsonV>::empty());
    assert(start + Seq::<JsonV>::empty() =~= start);
    while i < items.len()
        invariant
            i <= items@.len(),
            iv == items_view(items@),
            items_view(out@) == start + cleaned_items(iv.take(i as int), now_secs),
        decreases items@.len() - i,
    {
        proof {
            assert(iv.take(i + 1).drop_last() =~= iv.take(i as int));
            assert(iv.take(i + 1).last() == json_view(items@[i as int]));
        }
        let ghost before = items_view(out@);
        match clean_single_feed(&items[i], i as u64, now_secs) {
            Some(c) => {
                out.push(c);
                assert(items_view(out@) =~= before + seq![json_view(c)]);
            },
            None => {
                assert(items_view(out@) =~= before + Seq::<JsonV>::empty());
            },
        }
        assert(cleaned_items(iv.take(i + 1), now_secs) == cleaned_items(iv.take(i as int), now_secs)
            + cleaned_or_none(json_view(items@[i as int]), i as int, now_secs));
        assert(items_view(out@) =~= start + cleaned_items(iv.take(i + 1), now_secs));
        i += 1;
    }
    assert(iv.take(items@.len() as int) =~= iv);
}

/// The feed list of an answer (see `cleaned_list`). `now_secs` names the
/// feeds that come without an id.
pub fn extract_cleaned_list(raw: &Json, now_secs: u64) -> (r: Vec<Json>)
    ensures
        items_view(r@) == cleaned_list(json_view(*raw), now_secs),
{
    let mut out: Vec<Json> = Vec::new();
    let d = raw.get("data");
    match d {
        Some(Json::Array(items)) => {
            proof {
                lemma_views(Json::Array(*items));
            }
            let ghost iv = items_view(items@);
            let mut i: usize = 0;
            assert(items_view(out@) =~= Seq::<JsonV>::empty());
            while i < items.len()
                invariant
                    i <= items@.len(),
                    iv == items_view(items@),
                    items_view(out@) == cleaned_rows(iv.take(i as int), now_secs),
                decreases items@.len() - i,
            {
                proof {
                    assert(iv.take(i + 1).drop_last() =~= iv.take(i as int));
                    assert(iv.take(i + 1).last() == json_view(items@[i as int]));
                }
                let item = &items[i];
                let ghost before = items_view(out@);
                match clean_single_feed(item, i as u64, now_secs) {
                    Some(c) => {
                        out.push(c);
                        assert(items_view(out@) =~= before + seq![json_view(c)]);
                    },
                    None => {
                        assert(items_view(out@) =~= before + Seq::<JsonV>::empty());
                    },
                }
                let ghost mid = items_view(out@);
                let es = item.get("entities");
                match es {
                    Some(Json::Array(sub)) => {
                        proof {
                            lemma_views(Json::Array(*sub));
                        }
                        append_cleaned_items(sub, now_secs, &mut out);
                    },
                    _ => {
                        proof {
                            match es {
                                Some(v) => {
                                    lemma_views(*v);
                                },
                                None => {},
                            }
                            assert(entities_of(json_view(*item)) =~= Seq::<JsonV>::empty());
                            assert(cleaned_items(Seq::<JsonV>::empty(), now_secs) =~= Seq::<JsonV>::empty());
                        }
                        assert(items_view(out@) =~= mid + Seq::<JsonV>::empty());
                    },
                }
                assert(items_view(out@) =~= cleaned_rows(iv.take(i + 1), now_secs));
                i += 1;
            }
            assert(iv.take(items@.len() as int) =~= iv);
        },
        _ => {
            proof {
                match d {
                    Some(v) => {
                        lemma_views(*v);
                    },
                    None => {},
                }
            }
            assert(items_view(out@) =~= Seq::<JsonV>::empty());
        },
    }
    out
}

fn array_of(items: Vec<Json>) -> (r: Json)
    ensures
        json_view(r) == JsonV::Array(items_view(items@)),
{
    let r = Json::Array(items);
    proof {
        lemma_views(r);
    }
    r
}

/// The answer of a feed list endpoint: code 200 and the feed list.
pub open spec fn feed_list_answer(raw: JsonV, now_secs: u64) -> JsonV {
    JsonV::Object(seq![("code"@, count(200)), ("data"@, JsonV::Array(cleaned_list(raw, now_secs)))])
}

/// Builds `feed_list_answer`.
pub fn cleaned_list_answer(raw: &Json, now_secs: u64) -> (r: Json)
    ensures
        json_view(r) == feed_list_answer(json_view(*raw), now_secs),
{
    let data = array_of(extract_cleaned_list(raw, now_secs));
    let mut out: Vec<(String, Json)> = Vec::new();
    assert(fields_view(out@) =~= Seq::<(Seq<char>, JsonV)>::empty());
    push_field(&mut out, "code", count_json(200));
    push_field(&mut out, "data", data);
    let ghost ov = fields_view(out@);
    let r = Json::Object(out);
    proof {
        lemma_views(r);
    }
    assert(ov =~= feed_list_answer(json_view(*raw), now_secs)->Object_0);
    r
}

/// One step through a list's sources, tried in order: an answer whose
/// feed list is not empty is kept; the last source's answer is kept
/// whatever it holds; otherwise (`None`) the next source is asked. A
/// failed request counts as an empty list; a failure of the last source
/// is the caller's error to report.
pub open spec fn chain_step(fetched: Option<JsonV>, is_last: bool, now_secs: u64) -> Option<Seq<JsonV>> {
    match fetched {
        Some(raw) => if cleaned_list(raw, now_secs).len() > 0 || is_last {
            Some(cleaned_list(raw, now_secs))
        } else {
            None
        },
        None => None,
    }
}

/// Decides one step of a source chain (see `chain_step`); `fetched` is
/// the answer of the source just asked, `None` when the request failed.
pub fn feed_chain_step(fetched: Option<&Json>, is_last: bool, now_secs: u64) -> (r: Option<Vec<Json>>)
    ensures
        match r {
            Some(v) => chain_step(
                match fetched {
                    Some(j) => Some(json_view(*j)),
                    None => None,
                },
                is_last,
                now_secs,
            ) == Some(items_view(v@)),
            None => chain_step(
                match fetched {
                    Some(j) => Some(json_view(*j)),
                    None => None,
                },
                is_last,
                now_secs,
            ) is None,
        },
{
    match fetched {
        Some(raw) => {
            let list = extract_cleaned_list(raw, now_secs);
            if list.len() > 0 || is_last {
                Some(list)
            } else {
                None
            }
        },
        None => None,
    }
}

// ---------------------------------------------------------------------------
// Rows of a topic's other tabs
// ---------------------------------------------------------------------------

/// The value of the first field named `key`, found by its position.
pub open spec fn field_at(f: FieldsV, key: Seq<char>) -> Option<JsonV> {
    match index_of_key(f, key) {
        Some(i) => if 0 <= i < f.len() {
            Some(f[i].1)
        } else {
            None
        },
        None => None,
    }
}

/// An object's entity type, ASCII-lowercased (empty when absent or not a
/// string).
pub open spec fn row_type(f: FieldsV) -> Seq<char> {
    match as_str_opt(first_by_keys(f, seq!["entityType"@, "entity_type"@])) {
        Some(t) => lower_seq(t),
        None => Seq::empty(),
    }
}

/// Whether an object is a feed: by its type, or by the fields only a feed
/// carries.
pub open spec fn feed_like(f: FieldsV) -> bool {
    let t = row_type(f);
    ||| t == "feed"@
    ||| t == "feed_reply"@
    ||| t == "feedreply"@
    ||| t == "article"@
    ||| t == "news"@
    ||| starts_with(t, "feed_"@)
    ||| index_of_key(f, "message"@) is Some
    ||| index_of_key(f, "username"@) is Some
    ||| index_of_key(f, "userInfo"@) is Some
    ||| index_of_key(f, "user_info"@) is Some
}

/// The position of the feed that a card wraps: its `feed`, `ratingFeed`
/// or `rating_feed` field, the first present.
pub open spec fn wrapped_feed_index(f: FieldsV) -> Option<int> {
    match index_of_key(f, "feed"@) {
        Some(i) => Some(i),
        None => match index_of_key(f, "ratingFeed"@) {
            Some(i) => Some(i),
            None => index_of_key(f, "rating_feed"@),
        },
    }
}

/// The fields that make an unknown entity worth showing.
pub open spec fn display_keys() -> Seq<Seq<char>> {
    seq!["title"@, "description"@, "subTitle"@, "sub_title"@, "message"@, "pic"@, "logo"@, "url"@]
}

/// Whether a looked-up value is present and not null.
pub open spec fn present(o: Option<JsonV>) -> bool {
    match o {
        Some(v) => v != JsonV::Null,
        None => false,
    }
}

/// Whether one of the display fields is present and not null.
pub open spec fn has_display_field(f: FieldsV) -> bool {
    exists|k: int| 0 <= k < display_keys().len() && present(#[trigger] field_value(f, display_keys()[k]))
}

/// What a value that is not unwrapped becomes: its cleaned feed, else the
/// value itself when it has something to show, else nothing.
pub open spec fn plain_row(v: JsonV, f: FieldsV, idx: int, now_secs: u64) -> Seq<JsonV> {
    match cleaned_feed(v, idx as u64, now_secs) {
        Some(c) => seq![c],
        None => if has_display_field(f) {
            seq![v]
        } else {
            Seq::empty()
        },
    }
}

/// The rows a tab entry at `idx` gives: a card that is not a feed gives
/// the rows of the feed it wraps, else those of its non-empty `entities`
/// (each with its own position); anything else gives its plain row.
/// Values that are not objects give nothing.
pub open spec fn tab_rows(v: JsonV, idx: int, now_secs: u64) -> Seq<JsonV>
    decreases v, 0int, 0int,
{
    match v {
        JsonV::Object(f) => if !feed_like(f) {
            match wrapped_feed_index(f) {
                Some(i) => if 0 <= i < f.len() {
                    tab_rows(f[i].1, idx, now_secs)
                } else {
                    Seq::empty()
                },
                None => match index_of_key(f, "entities"@) {
                    Some(j) => if 0 <= j < f.len() {
                        match f[j].1 {
                            JsonV::Array(es) => if es.len() > 0 {
                                tab_rows_from(f[j].1, 0, now_secs)
                            } else {
                                plain_row(v, f, idx, now_secs)
                            },
                            _ => plain_row(v, f, idx, now_secs),
                        }
                    } else {
                        Seq::empty()
                    },
                    None => plain_row(v, f, idx, now_secs),
                },
            }
        } else {
            plain_row(v, f, idx, now_secs)
        },
        _ => Seq::empty(),
    }
}

/// The rows of a list's entries from position `j` on.
pub open spec fn tab_rows_from(arr: JsonV, j: int, now_secs: u64) -> Seq<JsonV>
    decreases arr, 1int, match arr {
        JsonV::Array(items) => items.len() - j,
        _ => 0,
    },
{
    match arr {
        JsonV::Array(items) => if 0 <= j < items.len() {
            tab_rows(items[j], j, now_secs) + tab_rows_from(arr, j + 1, now_secs)
        } else {
            Seq::empty()
        },
        _ => Seq::empty(),
    }
}

/// The rows of a topic tab answer: those of its `data` list, else of the
/// `entities` list inside its `data`.
pub open spec fn topic_tab_rows(raw: JsonV, now_secs: u64) -> Seq<JsonV> {
    match get(raw, "data"@) {
        Some(JsonV::Array(items)) => tab_rows_from(JsonV::Array(items), 0, now_secs),
        Some(d) => match get(d, "entities"@) {
            Some(JsonV::Array(es)) => tab_rows_from(JsonV::Array(es), 0, now_secs),
            _ => Seq::empty(),
        },
        None => Seq::empty(),
    }
}

fn has_display_field_of(fields: &Vec<(String, Json)>) -> (r: bool)
    ensures
        r == has_display_field(fields_view(fields@)),
{
    let keys = ["title", "description", "subTitle", "sub_title", "message", "pic", "logo", "url"];
    let ghost f = fields_view(fields@);
    assert(crate::text::str_views(keys@) =~= display_keys());
    let mut k: usize = 0;
    while k < 8
        invariant
            k <= 8,
            keys@.len() == 8,
            f == fields_view(fields@),
            crate::text::str_views(keys@) == display_keys(),
            forall|m: int| 0 <= m < k ==> !present(#[trigger] field_value(f, display_keys()[m])),
        decreases 8 - k,
    {
        assert(display_keys()[k as int] == keys@[k as int]@);
        match field_of(fields, keys[k]) {
            Some(Json::Null) => {},
            Some(_) => {
                return true;
            },
            None => {},
        }
        k += 1;
    }
    false
}

fn is_feed_like(fields: &Vec<(String, Json)>) -> (r: bool)
    ensures
        r == feed_like(fields_view(fields@)),
{
    let t = match field_of(fields, "entityType") {
        Some(v) => Some(v),
        None => field_of(fields, "entity_type"),
    };
    proof {
        reveal_with_fuel(first_by_keys, 3);
    }
    let lowered: Vec<char> = match t {
        Some(Json::Str(s)) => lower_chars(&chars_of(s.as_str())),
        Some(other) => {
            proof {
                lemma_views(*other);
            }
            Vec::new()
        },
        None => Vec::new(),
    };
    assert(lowered@ == row_type(fields_view(fields@)));
    chars_eq_str(&lowered, "feed") || chars_eq_str(&lowered, "feed_reply") || chars_eq_str(&lowered, "feedreply")
        || chars_eq_str(&lowered, "article") || chars_eq_str(&lowered, "news") || chars_start_with(&lowered, "feed_")
        || index_of_field(fields, "message").is_some() || index_of_field(fields, "username").is_some()
        || index_of_field(fields, "userInfo").is_some() || index_of_field(fields, "user_info").is_some()
}

fn push_plain_row(value: &Json, fields: &Vec<(String, Json)>, index: usize, now_secs: u64, out: &mut Vec<Json>)
    requires
        *value == Json::Object(*fields),
    ensures
        items_view(final(out)@) == items_view(old(out)@) + plain_row(
            json_view(*value),
            fields_view(fields@),
            index as int,
            now_secs,
        ),
{
    proof {
        lemma_views(*value);
    }
    let ghost before = items_view(out@);
    match clean_single_feed(value, index as u64, now_secs) {
        Some(c) => {
            out.push(c);
            assert(items_view(out@) =~= before + seq![json_view(c)]);
        },
        None => {
            if has_display_field_of(fields) {
                let copy = value.deep_copy();
                out.push(copy);
                assert(items_view(out@) =~= before + seq![json_view(*value)]);
            } else {
                assert(items_view(out@) =~= before + Seq::<JsonV>::empty());
            }
        },
    }
}

/// Appends the rows of the list entries from position `j` on (see
/// `tab_rows_from`).
fn append_tab_rows_from(arr: &Json, items: &Vec<Json>, j: usize, now_secs: u64, out: &mut Vec<Json>)
    requires
        *arr == Json::Array(*items),
        j <= items@.len(),
    ensures
        items_view(final(out)@) == items_view(old(out)@) + tab_rows_from(json_view(*arr), j as int, now_secs),
    decreases arr, 1int, items@.len() - j,
{
    proof {
        lemma_views(*arr);
    }
    if j >= items.len() {
        assert(items_view(out@) =~= items_view(out@) + Seq::<JsonV>::empty());
        return;
    }
    proof {
        assert(decreases_to!(*arr => (*arr)->Array_0));
        vstd::std_specs::vec::axiom_vec_decreases_to_view(*items);
        assert(decreases_to!(*items => items@[j as int]));
        assert(items_view(items@)[j as int] == json_view(items@[j as int]));
    }
    let ghost before = items_view(out@);
    append_topic_tab_row(&items[j], j, now_secs, out);
    let ghost mid = items_view(out@);
    append_tab_rows_from(arr, items, j + 1, now_secs, out);
    assert(items_view(out@) =~= before + tab_rows_from(json_view(*arr), j as int, now_secs));
}

/// `append_topic_tab_row`: appends the rows one tab entry gives (see
/// `tab_rows`).
pub fn append_topic_tab_row(value: &Json, index: usize, now_secs: u64, out: &mut Vec<Json>)
    ensures
        items_view(final(out)@) == items_view(old(out)@) + tab_rows(json_view(*value), index as int, now_secs),
    decreases value, 0int, 0int,
{
    proof {
        lemma_views(*value);
    }
    let fields = match value {
        Json::Object(fields) => fields,
        _ => {
            assert(items_view(out@) =~= items_view(out@) + Seq::<JsonV>::empty());
            return;
        },
    };
    let ghost f = fields_view(fields@);
    if !is_feed_like(fields) {
        let wrapped = match index_of_field(fields, "feed") {
            Some(i) => Some(i),
            None => match index_of_field(fields, "ratingFeed") {
                Some(i) => Some(i),
                None => index_of_field(fields, "rating_feed"),
            },
        };
        if let Some(i) = wrapped {
            proof {
                assert(decreases_to!(*value => (*value)->Object_0));
                vstd::std_specs::vec::axiom_vec_decreases_to_view(*fields);
                assert(decreases_to!(*fields => fields@[i as int]));
                assert(decreases_to!(fields@[i as int] => fields@[i as int].1));
                assert(f[i as int].1 == json_view(fields@[i as int].1));
            }
            append_topic_tab_row(&fields[i].1, index, now_secs, out);
            return;
        }
        if let Some(j) = index_of_field(fields, "entities") {
            let nested = &fields[j].1;
            proof {
                assert(f[j as int].1 == json_view(fields@[j as int].1));
                lemma_views(*nested);
            }
            if let Json::Array(es) = nested {
                if es.len() > 0 {
                    proof {
                        assert(decreases_to!(*value => (*value)->Object_0));
                        vstd::std_specs::vec::axiom_vec_decreases_to_view(*fields);
                        assert(decreases_to!(*fields => fields@[j as int]));
                        assert(decreases_to!(fields@[j as int] => fields@[j as int].1));
                    }
                    append_tab_rows_from(nested, es, 0, now_secs, out);
                    return;
                }
            }
        }
    }
    push_plain_row(value, fields, index, now_secs, out);
}

/// The rows of a topic tab answer (see `topic_tab_rows`).
pub fn extract_topic_tab_list(raw: &Json, now_secs: u64) -> (r: Vec<Json>)
    ensures
        items_view(r@) == topic_tab_rows(json_view(*raw), now_secs),
{
    let mut out: Vec<Json> = Vec::new();
    assert(items_view(out@) =~= Seq::<JsonV>::empty());
    let d = raw.get("data");
    match d {
        Some(data) => {
            proof {
                lemma_views(*data);
            }
            match data {
                Json::Array(items) => {
                    append_tab_rows_from(data, items, 0, now_secs, &mut out);
                    assert(items_view(out@) =~= Seq::<JsonV>::empty() + tab_rows_from(json_view(*data), 0, now_secs));
                },
                _ => {
                    let e = data.get("entities");
                    match e {
                        Some(ev) => {
                            proof {
                                lemma_views(*ev);
                            }
                            match ev {
                                Json::Array(es) => {
                                    append_tab_rows_from(ev, es, 0, now_secs, &mut out);
                                    assert(items_view(out@) =~= Seq::<JsonV>::empty() + tab_rows_from(json_view(*ev), 0, now_secs));
                                },
                                _ => {},
                            }
                        },
                        None => {},
                    }
                },
            }
        },
        None => {},
    }
    out
}

// ---------------------------------------------------------------------------
// Sort options of a topic page
// ---------------------------------------------------------------------------

/// A field of a value read under either of two names, the first present.
pub open spec fn either(v: JsonV, a: Seq<char>, b: Seq<char>) -> Option<JsonV> {
    match get(v, a) {
        Some(x) => Some(x),
        None => get(v, b),
    }
}

/// Whether an entry is the page's sort selector card.
pub open spec fn is_sort_card(item: JsonV) -> bool {
    as_str_opt(either(item, "entityTemplate"@, "entity_template"@)) == Some("sortSelectCard"@)
        || as_str_opt(either(item, "entityType"@, "entity_type"@)) == Some("sortSelectCard"@)
}

/// The entities that have a string title, in order.
pub open spec fn titled(es: Seq<JsonV>) -> Seq<JsonV>
    decreases es.len(),
{
    if es.len() == 0 {
        Seq::empty()
    } else {
        titled(es.drop_last()) + if as_str_opt(get(es.last(), "title"@)) is Some {
            seq![es.last()]
        } else {
            Seq::empty()
        }
    }
}

/// The titled entities of the sort cards among `items`, in order.
pub open spec fn sort_options_in(items: Seq<JsonV>) -> Seq<JsonV>
    decreases items.len(),
{
    if items.len() == 0 {
        Seq::empty()
    } else {
        sort_options_in(items.drop_last()) + if is_sort_card(items.last()) {
            titled(entities_of(items.last()))
        } else {
            Seq::empty()
        }
    }
}

/// The sort options an answer offers (empty when `data` is not a list).
pub open spec fn topic_sort_options(raw: JsonV) -> Seq<JsonV> {
    match get(raw, "data"@) {
        Some(JsonV::Array(items)) => sort_options_in(items),
        _ => Seq::empty(),
    }
}

fn str_of_either<'a>(item: &'a Json, a: &str, b: &str) -> (r: Option<&'a str>)
    ensures
        match r {
            Some(s) => as_str_opt(either(json_view(*item), a@, b@)) == Some(s@),
            None => as_str_opt(either(json_view(*item), a@, b@)) is None,
        },
{
    let x = match item.get(a) {
        Some(x) => Some(x),
        None => item.get(b),
    };
    match x {
        Some(v) => v.as_str(),
        None => None,
    }
}

fn is_sort_card_of(item: &Json) -> (r: bool)
    ensures
        r == is_sort_card(json_view(*item)),
{
    let t = str_of_either(item, "entityTemplate", "entity_template");
    let e = str_of_either(item, "entityType", "entity_type");
    proof {
        reveal_strlit("sortSelectCard");
    }
    let a = match t {
        Some(s) => chars_eq_str(&chars_of(s), "sortSelectCard"),
        None => false,
    };
    let b = match e {
        Some(s) => chars_eq_str(&chars_of(s), "sortSelectCard"),
        None => false,
    };
    a || b
}

/// The sort options of a topic answer (see `topic_sort_options`).
pub fn extract_topic_sort_options(raw: &Json) -> (r: Vec<Json>)
    ensures
        items_view(r@) == topic_sort_options(json_view(*raw)),
{
    let mut out: Vec<Json> = Vec::new();
    let d = raw.get("data");
    match d {
        Some(Json::Array(items)) => {
            proof {
                lemma_views(Json::Array(*items));
            }
            let ghost iv = items_view(items@);
            let mut i: usize = 0;
            assert(items_view(out@) =~= Seq::<JsonV>::empty());
            while i < items.len()
                invariant
                    i <= items@.len(),
                    iv == items_view(items@),
                    items_view(out@) == sort_options_in(iv.take(i as int)),
                decreases items@.len() - i,
            {
                proof {
                    assert(iv.take(i + 1).drop_last() =~= iv.take(i as int));
                    assert(iv.take(i + 1).last() == json_view(items@[i as int]));
                }
                let item = &items[i];
                let ghost before = items_view(out@);
                if is_sort_card_of(item) {
                    let es = item.get("entities");
                    match es {
                        Some(Json::Array(sub)) => {
                            proof {
                                lemma_views(Json::Array(*sub));
                            }
                            let ghost sv = items_view(sub@);
                            let mut k: usize = 0;
                            assert(before + titled(sv.take(0)) =~= before);
                            while k < sub.len()
                                invariant
                                    k <= sub@.len(),
                                    sv == items_view(sub@),
                                    items_view(out@) == before + titled(sv.take(k as int)),
                                decreases sub@.len() - k,
                            {
                                proof {
                                    assert(sv.take(k + 1).drop_last() =~= sv.take(k as int));
                                    assert(sv.take(k + 1).last() == json_view(sub@[k as int]));
                                }
                                let ghost b2 = items_view(out@);
                                let e = &sub[k];
                                let has_title = match e.get("title") {
                                    Some(tv) => tv.as_str().is_some(),
                                    None => false,
                                };
                                if has_title {
                                    out.push(e.deep_copy());
                                    assert(items_view(out@) =~= b2 + seq![json_view(*e)]);
                                } else {
                                    assert(items_view(out@) =~= b2 + Seq::<JsonV>::empty());
                                }
                                assert(items_view(out@) =~= before + titled(sv.take(k + 1)));
                                k += 1;
                            }
                            assert(sv.take(sub@.len() as int) =~= sv);
                        },
                        _ => {
                            proof {
                                match es {
                                    Some(v) => {
                                        lemma_views(*v);
                                    },
                                    None => {},
                                }
                                assert(titled(Seq::<JsonV>::empty()) =~= Seq::<JsonV>::empty());
                            }
                            assert(items_view(out@) =~= before + titled(entities_of(json_view(*item))));
                        },
                    }
                } else {
                    assert(items_view(out@) =~= before + Seq::<JsonV>::empty());
                }
                assert(items_view(out@) =~= sort_options_in(iv.take(i + 1)));
                i += 1;
            }
            assert(iv.take(items@.len() as int) =~= iv);
        },
        _ => {
            proof {
                match d {
                    Some(v) => {
                        lemma_views(*v);
                    },
                    None => {},
                }
            }
            assert(items_view(out@) =~= Seq::<JsonV>::empty());
        },
    }
    out
}

// ---------------------------------------------------------------------------
// Topic feed pages
// ---------------------------------------------------------------------------

/// The query of `/v6/topic/tagFeedList`: the tag and page, the list type
/// and cursors when not blank, and the block status.
pub open spec fn topic_feeds_query(
    tag: Seq<char>,
    page: u32,
    list_type: Seq<char>,
    first_item: Seq<char>,
    last_item: Seq<char>,
    block_status: i32,
) -> Seq<(Seq<char>, Seq<char>)> {
    seq![("tag"@, tag), ("page"@, dec(page as nat))] + opt_param(trim(list_type).len() > 0, "listType"@, list_type)
        + opt_param(trim(first_item).len() > 0, "firstItem"@, first_item) + opt_param(
        trim(last_item).len() > 0,
        "lastItem"@,
        last_item,
    ) + seq![("blockStatus"@, dec_int(block_status as int))]
}

fn push_if_not_blank(q: &mut Vec<(&'static str, String)>, key: &'static str, value: &str)
    ensures
        params_view(final(q)@) == params_view(old(q)@) + opt_param(trim(value@).len() > 0, key@, value@),
{
    let ghost before = params_view(q@);
    if trimmed_str(value).len() > 0 {
        q.push((key, value.to_string()));
        assert(params_view(q@) =~= before + seq![(key@, value@)]);
    } else {
        assert(params_view(q@) =~= before + Seq::<(Seq<char>, Seq<char>)>::empty());
    }
}

/// Builds `topic_feeds_query`.
pub fn topic_feeds_page_query(
    tag: &str,
    page: u32,
    list_type: &str,
    first_item: &str,
    last_item: &str,
    block_status: i32,
) -> (r: Vec<(&'static str, String)>)
    ensures
        params_view(r@) == topic_feeds_query(tag@, page, list_type@, first_item@, last_item@, block_status),
{
    let mut q: Vec<(&'static str, String)> = Vec::new();
    q.push(("tag", tag.to_string()));
    q.push(("page", u64_to_string(page as u64)));
    assert(params_view(q@) =~= seq![("tag"@, tag@), ("page"@, dec(page as nat))]);
    push_if_not_blank(&mut q, "listType", list_type);
    push_if_not_blank(&mut q, "firstItem", first_item);
    push_if_not_blank(&mut q, "lastItem", last_item);
    let ghost before = params_view(q@);
    let b = i64_to_string(block_status as i64);
    assert(b@ == dec_int(block_status as int));
    q.push(("blockStatus", b));
    assert(params_view(q@) =~= before + seq![("blockStatus"@, dec_int(block_status as int))]);
    assert(params_view(q@) =~= topic_feeds_query(tag@, page, list_type@, first_item@, last_item@, block_status));
    q
}

/// The answer of a topic's feed page: code 200, the feed list and the
/// sort options.
pub open spec fn topic_feeds_answer(raw: JsonV, now_secs: u64) -> JsonV {
    JsonV::Object(seq![
        ("code"@, count(200)),
        ("data"@, JsonV::Array(cleaned_list(raw, now_secs))),
        ("sortOptions"@, JsonV::Array(topic_sort_options(raw))),
    ])
}

/// Builds `topic_feeds_answer`.
pub fn topic_feeds_result(raw: &Json, now_secs: u64) -> (r: Json)
    ensures
        json_view(r) == topic_feeds_answer(json_view(*raw), now_secs),
{
    let data = array_of(extract_cleaned_list(raw, now_secs));
    let sort = array_of(extract_topic_sort_options(raw));
    let mut out: Vec<(String, Json)> = Vec::new();
    assert(fields_view(out@) =~= Seq::<(Seq<char>, JsonV)>::empty());
    push_field(&mut out, "code", count_json(200));
    push_field(&mut out, "data", data);
    push_field(&mut out, "sortOptions", sort);
    let ghost ov = fields_view(out@);
    let r = Json::Object(out);
    proof {
        lemma_views(r);
    }
    assert(ov =~= topic_feeds_answer(json_view(*raw), now_secs)->Object_0);
    r
}

/// The query of a topic's other tab (`/v6/page/dataList`): the tab's
/// address and page (at least 1), then its title, subtitle, cursors and
/// page context when not blank; `None` when the address is not a safe
/// page route, which is refused.
pub open spec fn topic_tab_query(
    url: Seq<char>,
    title: Seq<char>,
    sub_title: Seq<char>,
    page: u32,
    first_item: Seq<char>,
    last_item: Seq<char>,
    page_context: Seq<char>,
) -> Option<Seq<(Seq<char>, Seq<char>)>> {
    if !safe_discovery_route(url) {
        None
    } else {
        let p: nat = if page < 1 {
            1
        } else {
            page as nat
        };
        Some(
            seq![("url"@, url), ("page"@, dec(p))] + opt_param(trim(title).len() > 0, "title"@, title) + opt_param(
                trim(sub_title).len() > 0,
                "subTitle"@,
                sub_title,
            ) + opt_param(trim(first_item).len() > 0, "firstItem"@, first_item) + opt_param(
                trim(last_item).len() > 0,
                "lastItem"@,
                last_item,
            ) + opt_param(trim(page_context).len() > 0, "pageContext"@, page_context),
        )
    }
}

/// Builds `topic_tab_query`.
pub fn topic_tab_page_query(
    url: &str,
    title: &str,
    sub_title: &str,
    page: u32,
    first_item: &str,
    last_item: &str,
    page_context: &str,
) -> (r: Option<Vec<(&'static str, String)>>)
    ensures
        match r {
            Some(q) => topic_tab_query(url@, title@, sub_title@, page, first_item@, last_item@, page_context@) == Some(
                params_view(q@),
            ),
            None => topic_tab_query(url@, title@, sub_title@, page, first_item@, last_item@, page_context@) is None,
        },
{
    if !is_safe_discovery_page_url(url) {
        return None;
    }
    let mut q: Vec<(&'static str, String)> = Vec::new();
    q.push(("url", url.to_string()));
    let p: u32 = if page < 1 {
        1
    } else {
        page
    };
    q.push(("page", u64_to_string(p as u64)));
    assert(params_view(q@) =~= seq![("url"@, url@), ("page"@, dec(p as nat))]);
    push_if_not_blank(&mut q, "title", title);
    push_if_not_blank(&mut q, "subTitle", sub_title);
    push_if_not_blank(&mut q, "firstItem", first_item);
    push_if_not_blank(&mut q, "lastItem", last_item);
    push_if_not_blank(&mut q, "pageContext", page_context);
    assert(Some(params_view(q@)) =~= topic_tab_query(url@, title@, sub_title@, page, first_item@, last_item@, page_context@));
    Some(q)
}

/// The answer of a topic's other tab: code 200, its rows, the cursors of
/// the first and last rows, and the sort options.
pub open spec fn topic_tab_answer(raw: JsonV, now_secs: u64) -> JsonV {
    let rows = topic_tab_rows(raw, now_secs);
    let (first, last) = if rows.len() > 0 {
        (hub_cursor(rows[0]), hub_cursor(rows.last()))
    } else {
        (Seq::empty(), Seq::empty())
    };
    JsonV::Object(seq![
        ("code"@, count(200)),
        ("data"@, JsonV::Array(rows)),
        ("firstItem"@, JsonV::Str(first)),
        ("lastItem"@, JsonV::Str(last)),
        ("sortOptions"@, JsonV::Array(topic_sort_options(raw))),
    ])
}

/// Builds `topic_tab_answer`.
pub fn topic_tab_result(raw: &Json, now_secs: u64) -> (r: Json)
    ensures
        json_view(r) == topic_tab_answer(json_view(*raw), now_secs),
{
    let rows = extract_topic_tab_list(raw, now_secs);
    let ghost rv = items_view(rows@);
    let (first, last) = if rows.len() > 0 {
        (hub_cursor_of(&rows[0]), hub_cursor_of(&rows[rows.len() - 1]))
    } else {
        (String::new(), String::new())
    };
    let sort = array_of(extract_topic_sort_options(raw));
    let data = array_of(rows);
    let mut out: Vec<(String, Json)> = Vec::new();
    assert(fields_view(out@) =~= Seq::<(Seq<char>, JsonV)>::empty());
    push_field(&mut out, "code", count_json(200));
    push_field(&mut out, "data", data);
    push_field(&mut out, "firstItem", Json::Str(first));
    push_field(&mut out, "lastItem", Json::Str(last));
    push_field(&mut out, "sortOptions", sort);
    let ghost ov = fields_view(out@);
    let r = Json::Object(out);
    proof {
        lemma_views(r);
    }
    assert(ov =~= topic_tab_answer(json_view(*raw), now_secs)->Object_0);
    r
}

// ---------------------------------------------------------------------------
// Feeds of a node
// ---------------------------------------------------------------------------

/// The endpoint and query of a node's feed list: a topic's tag feeds, a
/// product's feeds, an app's comments, or any other node's feed list.
pub open spec fn node_feed_request(node_type: Seq<char>, node_id: Seq<char>, page: u32) -> (
    Seq<char>,
    Seq<(Seq<char>, Seq<char>)>,
) {
    let p = dec(page as nat);
    if node_type == "topic"@ {
        ("/v6/topic/tagFeedList"@, seq![("tag"@, node_id), ("page"@, p)])
    } else if node_type == "product"@ {
        (
            "/v6/page/dataList"@,
            seq![("url"@, "/page?url=/product/feedList"@), ("id"@, node_id), ("type"@, "feed"@), ("page"@, p)],
        )
    } else if node_type == "app"@ {
        (
            "/v6/page/dataList"@,
            seq![("url"@, "#/feed/apkCommentList"@), ("id"@, node_id), ("sort"@, "lastupdate_desc"@), ("page"@, p)],
        )
    } else {
        (
            "/v6/page/dataList"@,
            seq![("url"@, "#/feed/nodeFeedList?nodeType="@ + node_type + "&nodeId="@ + node_id), ("page"@, p)],
        )
    }
}

/// Builds `node_feed_request`.
pub fn node_feed_query(node_type: &str, node_id: &str, page: u32) -> (r: (&'static str, Vec<(&'static str, String)>))
    ensures
        (r.0@, params_view(r.1@)) == node_feed_request(node_type@, node_id@, page),
{
    let t = chars_of(node_type);
    proof {
        reveal_strlit("topic");
        reveal_strlit("product");
        reveal_strlit("app");
    }
    let p = u64_to_string(page as u64);
    let mut q: Vec<(&'static str, String)> = Vec::new();
    if chars_eq_str(&t, "topic") {
        q.push(("tag", node_id.to_string()));
        q.push(("page", p));
        assert(params_view(q@) =~= node_feed_request(node_type@, node_id@, page).1);
        ("/v6/topic/tagFeedList", q)
    } else if chars_eq_str(&t, "product") {
        q.push(("url", "/page?url=/product/feedList".to_string()));
        q.push(("id", node_id.to_string()));
        q.push(("type", "feed".to_string()));
        q.push(("page", p));
        assert(params_view(q@) =~= node_feed_request(node_type@, node_id@, page).1);
        ("/v6/page/dataList", q)
    } else if chars_eq_str(&t, "app") {
        q.push(("url", "#/feed/apkCommentList".to_string()));
        q.push(("id", node_id.to_string()));
        q.push(("sort", "lastupdate_desc".to_string()));
        q.push(("page", p));
        assert(params_view(q@) =~= node_feed_request(node_type@, node_id@, page).1);
        ("/v6/page/dataList", q)
    } else {
        let mut u = "#/feed/nodeFeedList?nodeType=".to_string();
        push_str(&mut u, node_type);
        push_str(&mut u, "&nodeId=");
        push_str(&mut u, node_id);
        q.push(("url", u));
        q.push(("page", p));
        assert(params_view(q@) =~= node_feed_request(node_type@, node_id@, page).1);
        ("/v6/page/dataList", q)
    }
}

// ---------------------------------------------------------------------------
// Discovery pages
// ---------------------------------------------------------------------------

/// The query of a discovery page: that of a topic tab for the same
/// address, followed by the extra arguments the page carries; `None`
/// when the address is not a safe page route, which is refused.
pub open spec fn discovery_query(
    url: Seq<char>,
    title: Seq<char>,
    sub_title: Seq<char>,
    page: u32,
    first_item: Seq<char>,
    last_item: Seq<char>,
    page_context: Seq<char>,
    request_args: Seq<char>,
) -> Option<Seq<(Seq<char>, Seq<char>)>> {
    match topic_tab_query(url, title, sub_title, page, first_item, last_item, page_context) {
        Some(q) => Some(q + discovery_args(request_args)),
        None => None,
    }
}

/// Builds `discovery_query`.
pub fn discovery_page_query(
    url: &str,
    title: &str,
    sub_title: &str,
    page: u32,
    first_item: &str,
    last_item: &str,
    page_context: &str,
    request_args_json: &str,
) -> (r: Option<Vec<(String, String)>>)
    ensures
        match r {
            Some(q) => discovery_query(
                url@,
                title@,
                sub_title@,
                page,
                first_item@,
                last_item@,
                page_context@,
                request_args_json@,
            ) == Some(pair_views(q@)),
            None => discovery_query(
                url@,
                title@,
                sub_title@,
                page,
                first_item@,
                last_item@,
                page_context@,
                request_args_json@,
            ) is None,
        },
{
    let base = match topic_tab_page_query(url, title, sub_title, page, first_item, last_item, page_context) {
        Some(q) => q,
        None => {
            return None;
        },
    };
    let ghost bv = params_view(base@);
    let mut out: Vec<(String, String)> = Vec::new();
    let mut i: usize = 0;
    while i < base.len()
        invariant
            i <= base@.len(),
            bv == params_view(base@),
            pair_views(out@) == bv.take(i as int),
        decreases base@.len() - i,
    {
        let k: &str = base[i].0;
        let v: String = base[i].1.clone();
        let ghost before = pair_views(out@);
        out.push((k.to_string(), v));
        assert(bv[i as int] == (k@, base@[i as int].1@));
        assert(pair_views(out@) =~= before.push((k@, base@[i as int].1@)));
        assert(bv.take(i + 1) =~= bv.take(i as int).push(bv[i as int]));
        i += 1;
    }
    assert(bv.take(base@.len() as int) =~= bv);
    let extra = parse_discovery_request_args(request_args_json);
    let ghost ev = pair_views(extra@);
    let mut j: usize = 0;
    while j < extra.len()
        invariant
            j <= extra@.len(),
            ev == pair_views(extra@),
            pair_views(out@) == bv + ev.take(j as int),
        decreases extra@.len() - j,
    {
        let k: String = extra[j].0.clone();
        let v: String = extra[j].1.clone();
        let ghost before = pair_views(out@);
        out.push((k, v));
        assert(ev[j as int] == (extra@[j as int].0@, extra@[j as int].1@));
        assert(pair_views(out@) =~= before.push(ev[j as int]));
        assert(ev.take(j + 1) =~= ev.take(j as int).push(ev[j as int]));
        j += 1;
    }
    assert(ev.take(extra@.len() as int) =~= ev);
    Some(out)
}

// ---------------------------------------------------------------------------
// Feed details
// ---------------------------------------------------------------------------

/// What a failed feed detail load reports: the logged-in request's error,
/// then each public host tried with its error, joined by `；`.
pub open spec fn detail_failure(primary: Seq<char>, public_errors: Seq<(Seq<char>, Seq<char>)>) -> Seq<char> {
    "动态详情加载失败："@ + primary + "；游客接口："@ + join(
        public_errors.map_values(|e: (Seq<char>, Seq<char>)| e.0 + ": "@ + e.1),
        "；"@,
    )
}

/// Builds `detail_failure`; `public_errors` pairs each host with its
/// error.
pub fn feed_detail_failure(primary: &str, public_errors: &Vec<(String, String)>) -> (r: String)
    ensures
        r@ == detail_failure(primary@, pair_views(public_errors@)),
{
    let ghost all = pair_views(public_errors@).map_values(|e: (Seq<char>, Seq<char>)| e.0 + ": "@ + e.1);
    let mut joined = String::new();
    let mut i: usize = 0;
    assert(all.take(0) =~= Seq::<Seq<char>>::empty());
    while i < public_errors.len()
        invariant
            i <= public_errors@.len(),
            all == pair_views(public_errors@).map_values(|e: (Seq<char>, Seq<char>)| e.0 + ": "@ + e.1),
            joined@ == join(all.take(i as int), "；"@),
        decreases public_errors@.len() - i,
    {
        let mut piece = public_errors[i].0.clone();
        push_str(&mut piece, ": ");
        push_str(&mut piece, public_errors[i].1.as_str());
        let pc = chars_of(piece.as_str());
        assert(all[i as int] == pc@);
        push_joined(&mut joined, i, "；", &pc, Ghost(all.take(i as int)));
        assert(all.take(i as int).push(pc@) =~= all.take(i + 1));
        i += 1;
    }
    assert(all.take(public_errors@.len() as int) =~= all);
    let mut out = "动态详情加载失败：".to_string();
    push_str(&mut out, primary);
    push_str(&mut out, "；游客接口：");
    push_str(&mut out, joined.as_str());
    out
}

} // verus!
