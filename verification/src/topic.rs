//! The topic hub: which request a topic section stands for, the section
//! tabs the server sends (found at any depth of its cards), the tab the
//! configuration selects, and the page handed to the front end.

use vstd::prelude::*;
use vstd::multiset::Multiset;
use crate::feed::{count, count_json, index_of_field, index_of_key, insert_field, insert_json_field, push_field, FieldsV};
use crate::json::{
    as_str_opt, field_of, field_value, fields_view, first_by_keys, get, get_str_by_keys, get_u64_by_keys,
    items_view, json_view, lemma_views, str_by_keys, u64_by_keys, Json, JsonV,
};
use crate::text::{chars_contain, chars_of, contains, lower_chars, lower_seq, str_views};

verus! {

// ---------------------------------------------------------------------------
// Tabs
// ---------------------------------------------------------------------------

pub open spec fn tab_title_keys() -> Seq<Seq<char>> {
    seq!["title"@, "title_txt"@, "name"@, "label"@]
}

pub open spec fn tab_target_keys() -> Seq<Seq<char>> {
    seq![
        "url"@, "link"@, "pageUrl"@, "page_url"@, "pageName"@, "page_name"@, "requestArg"@,
        "request_arg"@, "requestUrl"@, "request_url"@, "apiUrl"@, "api_url"@,
    ]
}

/// Where a tab leads: one of its address fields, else one of those of
/// its `extraData` object.
pub open spec fn tab_target(f: FieldsV) -> Option<Seq<char>> {
    match str_by_keys(f, tab_target_keys()) {
        Some(t) => Some(t),
        None => match first_by_keys(f, seq!["extraData"@, "extra_data"@]) {
            Some(JsonV::Object(extra)) => str_by_keys(extra, tab_target_keys()),
            _ => None,
        },
    }
}

/// A tab: an object with a title and a target.
pub open spec fn is_tab(v: JsonV) -> bool {
    match v {
        JsonV::Object(f) => str_by_keys(f, tab_title_keys()) is Some && tab_target(f) is Some,
        _ => false,
    }
}

/// The tabs among a list's elements, in order.
pub open spec fn tabs_of(items: Seq<JsonV>) -> Seq<JsonV>
    decreases items.len(),
{
    if items.len() == 0 {
        Seq::empty()
    } else {
        tabs_of(items.drop_last()) + if is_tab(items.last()) {
            seq![items.last()]
        } else {
            Seq::empty()
        }
    }
}

/// The tabs of a value that is a list; none otherwise.
pub open spec fn tab_entities(v: JsonV) -> Seq<JsonV> {
    match v {
        JsonV::Array(items) => tabs_of(items),
        _ => Seq::empty(),
    }
}

/// A card's template, lower-cased.
pub open spec fn card_template(f: FieldsV) -> Seq<char> {
    match as_str_opt(first_by_keys(f, seq!["entityTemplate"@, "entity_template"@])) {
        Some(t) => lower_seq(t),
        None => Seq::empty(),
    }
}

/// A card that shows tabs.
pub open spec fn is_tab_card(f: FieldsV) -> bool {
    let t = card_template(f);
    contains(t, "icontablink"@) || contains(t, "iconlinkgrid"@) || contains(t, "verticalcolumnsfullpagecard"@)
        || contains(t, "selectorlinkgrid"@)
}

/// The fields searched for nested tabs, in order; the last three hold
/// tabs directly.
pub open spec fn nested_tab_keys() -> Seq<Seq<char>> {
    seq!["entities"@, "data"@, "rows"@, "card"@, "category"@, "tabs"@, "tabList"@, "tab_list"@]
}

/// The first tabs found in a value: a tab card's own entities; else, field
/// by field, the tabs a tab list holds directly, then those found in a
/// nested list's elements or a nested value.
pub open spec fn collected_tabs(v: JsonV) -> Seq<JsonV>
    decreases v, 3int, 0int,
{
    match v {
        JsonV::Object(f) => {
            let card = if is_tab_card(f) {
                match field_value(f, "entities"@) {
                    Some(JsonV::Array(es)) => tabs_of(es),
                    _ => Seq::empty(),
                }
            } else {
                Seq::empty()
            };
            if card.len() > 0 {
                card
            } else {
                tabs_from_key(v, 0)
            }
        },
        _ => Seq::empty(),
    }
}

/// The first tabs found under the `k`-th nested key or a later one.
pub open spec fn tabs_from_key(v: JsonV, k: int) -> Seq<JsonV>
    decreases v, 2int, 8 - k,
{
    match v {
        JsonV::Object(f) => if 0 <= k < 8 {
            match index_of_key(f, nested_tab_keys()[k]) {
                Some(i) => if 0 <= i < f.len() {
                    let nested = f[i].1;
                    let direct = if k >= 5 {
                        tab_entities(nested)
                    } else {
                        Seq::empty()
                    };
                    if direct.len() > 0 {
                        direct
                    } else {
                        let inner = match nested {
                            JsonV::Array(_) => tabs_in_items(nested, 0),
                            _ => collected_tabs(nested),
                        };
                        if inner.len() > 0 {
                            inner
                        } else {
                            tabs_from_key(v, k + 1)
                        }
                    }
                } else {
                    tabs_from_key(v, k + 1)
                },
                None => tabs_from_key(v, k + 1),
            }
        } else {
            Seq::empty()
        },
        _ => Seq::empty(),
    }
}

/// The first tabs found in a list's elements from index `j` on.
pub open spec fn tabs_in_items(arr: JsonV, j: int) -> Seq<JsonV>
    decreases arr, 1int, match arr {
        JsonV::Array(items) => items.len() - j,
        _ => 0,
    },
{
    match arr {
        JsonV::Array(items) => if 0 <= j < items.len() {
            let c = collected_tabs(items[j]);
            if c.len() > 0 {
                c
            } else {
                tabs_in_items(arr, j + 1)
            }
        } else {
            Seq::empty()
        },
        _ => Seq::empty(),
    }
}

pub open spec fn hub_tab_keys() -> Seq<Seq<char>> {
    seq!["tabs"@, "tabList"@, "tab_list"@, "categories"@, "category"@]
}

/// The first non-empty tab list among the answer's tab fields.
pub open spec fn first_tab_list(raw: JsonV, keys: Seq<Seq<char>>) -> Seq<JsonV>
    decreases keys.len(),
{
    if keys.len() == 0 {
        Seq::empty()
    } else {
        match get(raw, keys[0]) {
            Some(v) if tab_entities(v).len() > 0 => tab_entities(v),
            _ => first_tab_list(raw, keys.drop_first()),
        }
    }
}

/// The tabs of a topic answer: its tab fields, else the first tabs found
/// in its `data` list.
pub open spec fn hub_tabs(raw: JsonV) -> Seq<JsonV> {
    let direct = first_tab_list(raw, hub_tab_keys());
    if direct.len() > 0 {
        direct
    } else {
        match get(raw, "data"@) {
            Some(d) => match d {
                JsonV::Array(_) => tabs_in_items(d, 0),
                _ => Seq::empty(),
            },
            None => Seq::empty(),
        }
    }
}

// ---------------------------------------------------------------------------
// Finding tabs
// ---------------------------------------------------------------------------

fn tab_target_of(fields: &Vec<(String, Json)>) -> (r: Option<String>)
    ensures
        match r {
            Some(t) => tab_target(fields_view(fields@)) == Some(t@),
            None => tab_target(fields_view(fields@)) is None,
        },
{
    let keys = [
        "url", "link", "pageUrl", "page_url", "pageName", "page_name", "requestArg", "request_arg", "requestUrl",
        "request_url", "apiUrl", "api_url",
    ];
    assert(str_views(keys@) =~= tab_target_keys());
    if let Some(t) = get_str_by_keys(fields, &keys) {
        return Some(t);
    }
    let extra = match field_of(fields, "extraData") {
        Some(v) => Some(v),
        None => field_of(fields, "extra_data"),
    };
    proof {
        reveal_with_fuel(first_by_keys, 3);
    }
    match extra {
        Some(Json::Object(e)) => {
            proof {
                lemma_views(Json::Object(*e));
            }
            get_str_by_keys(e, &keys)
        },
        Some(other) => {
            proof {
                lemma_views(*other);
            }
            None
        },
        None => None,
    }
}

fn is_tab_value(v: &Json) -> (r: bool)
    ensures
        r == is_tab(json_view(*v)),
{
    proof {
        lemma_views(*v);
    }
    match v {
        Json::Object(fields) => {
            let title_keys = ["title", "title_txt", "name", "label"];
            assert(str_views(title_keys@) =~= tab_title_keys());
            get_str_by_keys(fields, &title_keys).is_some() && tab_target_of(fields).is_some()
        },
        _ => false,
    }
}

/// Appends the tabs among `items`.
fn append_tabs(items: &Vec<Json>, out: &mut Vec<Json>)
    ensures
        items_view(final(out)@) == items_view(old(out)@) + tabs_of(items_view(items@)),
{
    let ghost start = items_view(out@);
    let ghost iv = items_view(items@);
    let mut i: usize = 0;
    assert(tabs_of(iv.take(0)) =~= Seq::<JsonV>::empty());
    while i < items.len()
        invariant
            i <= items@.len(),
            iv == items_view(items@),
            items_view(out@) == start + tabs_of(iv.take(i as int)),
        decreases items@.len() - i,
    {
        proof {
            assert(iv.take(i + 1).drop_last() =~= iv.take(i as int));
            assert(iv.take(i + 1).last() == json_view(items@[i as int]));
        }
        let ghost before = items_view(out@);
        if is_tab_value(&items[i]) {
            let c = items[i].deep_copy();
            out.push(c);
            assert(items_view(out@) =~= before + seq![json_view(c)]);
        }
        i += 1;
        assert(items_view(out@) =~= start + tabs_of(iv.take(i as int)));
    }
    assert(iv.take(items@.len() as int) =~= iv);
}

/// The tabs of a value that is a list (see `tab_entities`).
fn tab_entities_of(v: &Json) -> (r: Vec<Json>)
    ensures
        items_view(r@) == tab_entities(json_view(*v)),
{
    proof {
        lemma_views(*v);
    }
    let mut out: Vec<Json> = Vec::new();
    assert(items_view(out@) =~= Seq::<JsonV>::empty());
    match v {
        Json::Array(items) => {
            append_tabs(items, &mut out);
            assert(items_view(out@) =~= tabs_of(items_view(items@)));
        },
        _ => {},
    }
    out
}

fn is_tab_card_of(fields: &Vec<(String, Json)>) -> (r: bool)
    ensures
        r == is_tab_card(fields_view(fields@)),
{
    let t = match field_of(fields, "entityTemplate") {
        Some(v) => Some(v),
        None => field_of(fields, "entity_template"),
    };
    proof {
        reveal_with_fuel(first_by_keys, 3);
    }
    let lowered: Vec<char> = match t {
        Some(Json::Str(s)) => lower_chars(&chars_of(s.as_str())),
        Some(other) => {
            proof {
                lemma_views(*other);
            }
            Vec::new()
        },
        None => Vec::new(),
    };
    assert(lowered@ == card_template(fields_view(fields@)));
    chars_contain(&lowered, "icontablink") || chars_contain(&lowered, "iconlinkgrid")
        || chars_contain(&lowered, "verticalcolumnsfullpagecard") || chars_contain(&lowered, "selectorlinkgrid")
}

/// The first tabs found in a value (see `collected_tabs`).
pub fn collect_topic_hub_tabs(value: &Json) -> (r: Vec<Json>)
    ensures
        items_view(r@) == collected_tabs(json_view(*value)),
    decreases value, 3int,
{
    proof {
        lemma_views(*value);
    }
    let ghost vv = json_view(*value);
    let mut out: Vec<Json> = Vec::new();
    match value {
        Json::Object(fields) => {
            let ghost f = fields_view(fields@);
            if is_tab_card_of(fields) {
                let es = field_of(fields, "entities");
                match es {
                    Some(Json::Array(items)) => {
                        proof {
                            lemma_views(Json::Array(*items));
                        }
                        append_tabs(items, &mut out);
                        assert(items_view(out@) =~= tabs_of(items_view(items@)));
                    },
                    Some(other) => {
                        proof {
                            lemma_views(*other);
                        }
                        assert(items_view(out@) =~= Seq::<JsonV>::empty());
                    },
                    None => {
                        assert(items_view(out@) =~= Seq::<JsonV>::empty());
                    },
                }
                if out.len() > 0 {
                    return out;
                }
            }
            let keys = ["entities", "data", "rows", "card", "category", "tabs", "tabList", "tab_list"];
            let ghost ks = str_views(keys@);
            assert(ks =~= nested_tab_keys());
            let mut k: usize = 0;
            while k < 8
                invariant
                    k <= 8,
                    keys@.len() == 8,
                    ks == str_views(keys@),
                    ks == nested_tab_keys(),
                    *value == Json::Object(*fields),
                    f == fields_view(fields@),
                    vv == JsonV::Object(f),
                    vv == json_view(*value),
                    collected_tabs(vv) == tabs_from_key(vv, k as int),
                decreases 8 - k,
            {
                assert(ks[k as int] == keys@[k as int]@);
                match index_of_field(fields, keys[k]) {
                    Some(i) => {
                        proof {
                            assert(decreases_to!(*value => (*value)->Object_0));
                            vstd::std_specs::vec::axiom_vec_decreases_to_view(*fields);
                            assert(decreases_to!(*fields => fields@[i as int]));
                            assert(decreases_to!(fields@[i as int] => fields@[i as int].1));
                            assert(f[i as int].1 == json_view(fields@[i as int].1));
                        }
                        let nested = &fields[i].1;
                        let direct = if k >= 5 {
                            tab_entities_of(nested)
                        } else {
                            let e: Vec<Json> = Vec::new();
                            assert(items_view(e@) =~= Seq::<JsonV>::empty());
                            e
                        };
                        if direct.len() > 0 {
                            return direct;
                        }
                        proof {
                            lemma_views(*nested);
                        }
                        let inner = match nested {
                            Json::Array(items) => {
                                let mut found: Vec<Json> = Vec::new();
                                let ghost nv = json_view(*nested);
                                let mut j: usize = 0;
                                assert(items_view(found@) =~= Seq::<JsonV>::empty());
                                while j < items.len() && found.len() == 0
                                    invariant
                                        j <= items@.len(),
                                        *nested == Json::Array(*items),
                                        nv == json_view(*nested),
                                        nv == JsonV::Array(items_view(items@)),
                                        *value == Json::Object(*fields),
                                        i < fields@.len(),
                                        fields@[i as int].1 == *nested,
                                        found@.len() == 0 ==> tabs_in_items(nv, 0) == tabs_in_items(nv, j as int),
                                        found@.len() > 0 ==> items_view(found@) == tabs_in_items(nv, 0),
                                    decreases items@.len() - j,
                                {
                                    proof {
                                        assert(decreases_to!(*value => (*value)->Object_0));
                                        vstd::std_specs::vec::axiom_vec_decreases_to_view(*fields);
                                        assert(decreases_to!(*fields => fields@[i as int]));
                                        assert(decreases_to!(fields@[i as int] => fields@[i as int].1));
                                        assert(decreases_to!(*nested => (*nested)->Array_0));
                                        vstd::std_specs::vec::axiom_vec_decreases_to_view(*items);
                                        assert(decreases_to!(*items => items@[j as int]));
                                        assert(items_view(items@)[j as int] == json_view(items@[j as int]));
                                    }
                                    let c = collect_topic_hub_tabs(&items[j]);
                                    found = c;
                                    j += 1;
                                }
                                proof {
                                    if found@.len() == 0 {
                                        assert(tabs_in_items(nv, j as int) =~= Seq::<JsonV>::empty());
                                    }
                                }
                                assert(items_view(found@) == tabs_in_items(nv, 0));
                                found
                            },
                            _ => collect_topic_hub_tabs(nested),
                        };
                        if inner.len() > 0 {
                            return inner;
                        }
                    },
                    None => {},
                }
                k += 1;
            }
            assert(items_view(out@) =~= Seq::<JsonV>::empty());
            out
        },
        _ => {
            assert(items_view(out@) =~= Seq::<JsonV>::empty());
            out
        },
    }
}

/// The tabs of a topic answer (see `hub_tabs`).
pub fn extract_topic_hub_tabs(raw: &Json) -> (r: Vec<Json>)
    ensures
        items_view(r@) == hub_tabs(json_view(*raw)),
{
    let keys = ["tabs", "tabList", "tab_list", "categories", "category"];
    let ghost ks = str_views(keys@);
    assert(ks =~= hub_tab_keys());
    let ghost rv = json_view(*raw);
    let mut k: usize = 0;
    assert(ks.skip(0) =~= ks);
    while k < 5
        invariant
            k <= 5,
            keys@.len() == 5,
            ks == str_views(keys@),
            ks == hub_tab_keys(),
            rv == json_view(*raw),
            first_tab_list(rv, ks) == first_tab_list(rv, ks.skip(k as int)),
        decreases 5 - k,
    {
        proof {
            assert(ks.skip(k as int)[0] == keys@[k as int]@);
            assert(ks.skip(k as int).drop_first() =~= ks.skip(k + 1));
        }
        if let Some(v) = raw.get(keys[k]) {
            let tabs = tab_entities_of(v);
            if tabs.len() > 0 {
                return tabs;
            }
        }
        k += 1;
    }
    assert(ks.skip(5) =~= Seq::<Seq<char>>::empty());
    let mut out: Vec<Json> = Vec::new();
    let d = raw.get("data");
    match d {
        Some(Json::Array(items)) => {
            let ghost dv = json_view(*d->Some_0);
            proof {
                lemma_views(Json::Array(*items));
            }
            let mut j: usize = 0;
            while j < items.len() && out.len() == 0
                invariant
                    j <= items@.len(),
                    dv == JsonV::Array(items_view(items@)),
                    out@.len() == 0 ==> tabs_in_items(dv, 0) == tabs_in_items(dv, j as int),
                    out@.len() > 0 ==> items_view(out@) == tabs_in_items(dv, 0),
                decreases items@.len() - j,
            {
                assert(items_view(items@)[j as int] == json_view(items@[j as int]));
                out = collect_topic_hub_tabs(&items[j]);
                j += 1;
            }
            proof {
                if out@.len() == 0 {
                    assert(tabs_in_items(dv, j as int) =~= Seq::<JsonV>::empty());
                }
            }
            assert(items_view(out@) == tabs_in_items(dv, 0));
        },
        Some(other) => {
            proof {
                lemma_views(*other);
            }
            assert(items_view(out@) =~= Seq::<JsonV>::empty());
        },
        None => {
            assert(items_view(out@) =~= Seq::<JsonV>::empty());
        },
    }
    out
}

// ---------------------------------------------------------------------------
// The selected tab
// ---------------------------------------------------------------------------

/// The longest string value anywhere in a value (0 when there is none);
/// it bounds how often a string can be read as JSON again.
pub open spec fn max_str_len(v: JsonV) -> nat
    decreases v, 1int, 0int,
{
    match v {
        JsonV::Str(s) => s.len(),
        JsonV::Array(items) => max_items(v, items.len() as int),
        JsonV::Object(f) => max_fields(v, f.len() as int),
        _ => 0,
    }
}

pub open spec fn max_items(v: JsonV, n: int) -> nat
    decreases v, 0int, n,
{
    match v {
        JsonV::Array(items) => if 0 < n <= items.len() {
            let a = max_items(v, n - 1);
            let b = max_str_len(items[n - 1]);
            if a >= b {
                a
            } else {
                b
            }
        } else {
            0
        },
        _ => 0,
    }
}

pub open spec fn max_fields(v: JsonV, n: int) -> nat
    decreases v, 0int, n,
{
    match v {
        JsonV::Object(f) => if 0 < n <= f.len() {
            let a = max_fields(v, n - 1);
            let b = max_str_len(f[n - 1].1);
            if a >= b {
                a
            } else {
                b
            }
        } else {
            0
        },
        _ => 0,
    }
}

pub proof fn lemma_max_items(v: JsonV, i: int, n: int)
    requires
        v is Array,
        0 <= i < n <= v->Array_0.len(),
    ensures
        max_str_len(v->Array_0[i]) <= max_items(v, n),
    decreases n,
{
    if i < n - 1 {
        lemma_max_items(v, i, n - 1);
    }
}

pub proof fn lemma_max_fields(v: JsonV, i: int, n: int)
    requires
        v is Object,
        0 <= i < n <= v->Object_0.len(),
    ensures
        max_str_len(v->Object_0[i].1) <= max_fields(v, n),
    decreases n,
{
    if i < n - 1 {
        lemma_max_fields(v, i, n - 1);
    }
}

/// The tab a topic configuration selects: in a list, the first element
/// naming one; in an object, its `extraData` (or `extra_data`) first, then
/// its own `selectedTab` (or `selected_tab`), then its values in order; a
/// string is read as JSON and searched in turn.
pub open spec fn selected_tab(v: JsonV) -> Option<Seq<char>>
    decreases max_str_len(v), v, 2int, 0int,
{
    match v {
        JsonV::Array(_) => selected_in_items(v, 0),
        JsonV::Object(f) => match selected_in_extra(v, 0) {
            Some(s) => Some(s),
            None => match str_by_keys(f, seq!["selectedTab"@, "selected_tab"@]) {
                Some(s) => Some(s),
                None => selected_in_values(v, 0),
            },
        },
        JsonV::Str(text) => match crate::outside::json_text_value(text) {
            Some(p) => if max_str_len(p) < text.len() {
                selected_tab(p)
            } else {
                None
            },
            None => None,
        },
        _ => None,
    }
}

/// The first element, from index `i` on, naming a selected tab.
pub open spec fn selected_in_items(v: JsonV, i: int) -> Option<Seq<char>>
    decreases max_str_len(v), v, 1int, match v {
        JsonV::Array(items) => items.len() - i,
        _ => 0,
    },
{
    match v {
        JsonV::Array(items) => if 0 <= i < items.len() {
            proof {
                lemma_max_items(v, i, items.len() as int);
            }
            match selected_tab(items[i]) {
                Some(s) => Some(s),
                None => selected_in_items(v, i + 1),
            }
        } else {
            None
        },
        _ => None,
    }
}

/// The selected tab named in `extraData` or `extra_data`, from the `k`-th
/// of these on.
pub open spec fn selected_in_extra(v: JsonV, k: int) -> Option<Seq<char>>
    decreases max_str_len(v), v, 1int, 2 - k,
{
    match v {
        JsonV::Object(f) => if 0 <= k < 2 {
            let key = if k == 0 {
                "extraData"@
            } else {
                "extra_data"@
            };
            match index_of_key(f, key) {
                Some(i) => if 0 <= i < f.len() {
                    proof {
                        lemma_max_fields(v, i, f.len() as int);
                    }
                    match selected_tab(f[i].1) {
                        Some(s) => Some(s),
                        None => selected_in_extra(v, k + 1),
                    }
                } else {
                    selected_in_extra(v, k + 1)
                },
                None => selected_in_extra(v, k + 1),
            }
        } else {
            None
        },
        _ => None,
    }
}

/// The first field value, from index `i` on, naming a selected tab.
pub open spec fn selected_in_values(v: JsonV, i: int) -> Option<Seq<char>>
    decreases max_str_len(v), v, 1int, match v {
        JsonV::Object(f) => f.len() - i,
        _ => 0,
    },
{
    match v {
        JsonV::Object(f) => if 0 <= i < f.len() {
            proof {
                lemma_max_fields(v, i, f.len() as int);
            }
            match selected_tab(f[i].1) {
                Some(s) => Some(s),
                None => selected_in_values(v, i + 1),
            }
        } else {
            None
        },
        _ => None,
    }
}

/// The tab a topic configuration selects (see `selected_tab`).
pub fn topic_hub_selected_tab(value: &Json) -> (r: Option<String>)
    ensures
        match r {
            Some(s) => selected_tab(json_view(*value)) == Some(s@),
            None => selected_tab(json_view(*value)) is None,
        },
    decreases max_str_len(json_view(*value)), value,
{
    proof {
        lemma_views(*value);
    }
    let ghost vv = json_view(*value);
    match value {
        Json::Array(items) => {
            let mut i: usize = 0;
            while i < items.len()
                invariant
                    i <= items@.len(),
                    *value == Json::Array(*items),
                    vv == json_view(*value),
                    vv == JsonV::Array(items_view(items@)),
                    selected_tab(vv) == selected_in_items(vv, i as int),
                decreases items@.len() - i,
            {
                proof {
                    assert(decreases_to!(*value => (*value)->Array_0));
                    vstd::std_specs::vec::axiom_vec_decreases_to_view(*items);
                    assert(decreases_to!(*items => items@[i as int]));
                    assert(items_view(items@)[i as int] == json_view(items@[i as int]));
                    lemma_max_items(vv, i as int, items@.len() as int);
                }
                if let Some(s) = topic_hub_selected_tab(&items[i]) {
                    return Some(s);
                }
                i += 1;
            }
            None
        },
        Json::Object(fields) => {
            let ghost f = fields_view(fields@);
            let mut k: usize = 0;
            while k < 2
                invariant
                    k <= 2,
                    *value == Json::Object(*fields),
                    vv == json_view(*value),
                    f == fields_view(fields@),
                    vv == JsonV::Object(f),
                    selected_tab(vv) == match selected_in_extra(vv, k as int) {
                        Some(s) => Some(s),
                        None => match str_by_keys(f, seq!["selectedTab"@, "selected_tab"@]) {
                            Some(s) => Some(s),
                            None => selected_in_values(vv, 0),
                        },
                    },
                decreases 2 - k,
            {
                let key = if k == 0 {
                    "extraData"
                } else {
                    "extra_data"
                };
                match index_of_field(fields, key) {
                    Some(i) => {
                        proof {
                            assert(decreases_to!(*value => (*value)->Object_0));
                            vstd::std_specs::vec::axiom_vec_decreases_to_view(*fields);
                            assert(decreases_to!(*fields => fields@[i as int]));
                            assert(decreases_to!(fields@[i as int] => fields@[i as int].1));
                            assert(f[i as int].1 == json_view(fields@[i as int].1));
                            lemma_max_fields(vv, i as int, fields@.len() as int);
                        }
                        if let Some(s) = topic_hub_selected_tab(&fields[i].1) {
                            return Some(s);
                        }
                    },
                    None => {},
                }
                k += 1;
            }
            let selected_keys = ["selectedTab", "selected_tab"];
            assert(str_views(selected_keys@) =~= seq!["selectedTab"@, "selected_tab"@]);
            if let Some(s) = get_str_by_keys(fields, &selected_keys) {
                return Some(s);
            }
            let mut i: usize = 0;
            while i < fields.len()
                invariant
                    i <= fields@.len(),
                    *value == Json::Object(*fields),
                    vv == json_view(*value),
                    f == fields_view(fields@),
                    vv == JsonV::Object(f),
                    selected_tab(vv) == selected_in_values(vv, i as int),
                decreases fields@.len() - i,
            {
                proof {
                    assert(decreases_to!(*value => (*value)->Object_0));
                    vstd::std_specs::vec::axiom_vec_decreases_to_view(*fields);
                    assert(decreases_to!(*fields => fields@[i as int]));
                    assert(decreases_to!(fields@[i as int] => fields@[i as int].1));
                    assert(f[i as int].1 == json_view(fields@[i as int].1));
                    lemma_max_fields(vv, i as int, fields@.len() as int);
                }
                if let Some(s) = topic_hub_selected_tab(&fields[i].1) {
                    return Some(s);
                }
                i += 1;
            }
            None
        },
        Json::Str(text) => match crate::outside::parse_json_text(text.as_str()) {
            Some(p) => topic_hub_selected_tab(&p),
            None => None,
        },
        _ => None,
    }
}

/// The tab a topic answer opens with: among its tabs, the one titled as
/// the configuration selects (by `title`, `name` or `label`), else the
/// first; its title and target are needed.
pub open spec fn selected_category(raw: JsonV) -> Option<(Seq<char>, Seq<char>)> {
    let tabs = hub_tabs(raw);
    let wanted = match selected_tab(raw) {
        Some(s) => s,
        None => Seq::empty(),
    };
    match first_titled(tabs, wanted) {
        Some(t) => category_of(t),
        None => if tabs.len() > 0 {
            category_of(tabs[0])
        } else {
            None
        },
    }
}

/// The first tab whose name is `wanted`.
pub open spec fn first_titled(tabs: Seq<JsonV>, wanted: Seq<char>) -> Option<JsonV>
    decreases tabs.len(),
{
    if tabs.len() == 0 {
        None
    } else if tab_name(tabs[0]) == Some(wanted) {
        Some(tabs[0])
    } else {
        first_titled(tabs.drop_first(), wanted)
    }
}

/// A tab's `title`, `name` or `label`.
pub open spec fn tab_name(t: JsonV) -> Option<Seq<char>> {
    match t {
        JsonV::Object(f) => str_by_keys(f, seq!["title"@, "name"@, "label"@]),
        _ => str_by_keys(Seq::empty(), seq!["title"@, "name"@, "label"@]),
    }
}

/// A tab's name and target, when it has both.
pub open spec fn category_of(t: JsonV) -> Option<(Seq<char>, Seq<char>)> {
    match t {
        JsonV::Object(f) => match (str_by_keys(f, seq!["title"@, "name"@, "label"@]), tab_target(f)) {
            (Some(title), Some(url)) => Some((title, url)),
            _ => None,
        },
        _ => None,
    }
}

fn tab_name_of(t: &Json) -> (r: Option<String>)
    ensures
        match r {
            Some(s) => tab_name(json_view(*t)) == Some(s@),
            None => tab_name(json_view(*t)) is None,
        },
{
    proof {
        lemma_views(*t);
    }
    let keys = ["title", "name", "label"];
    assert(str_views(keys@) =~= seq!["title"@, "name"@, "label"@]);
    match t {
        Json::Object(f) => get_str_by_keys(f, &keys),
        _ => {
            let empty: Vec<(String, Json)> = Vec::new();
            assert(fields_view(empty@) =~= Seq::<(Seq<char>, JsonV)>::empty());
            get_str_by_keys(&empty, &keys)
        },
    }
}

fn category_of_tab(t: &Json) -> (r: Option<(String, String)>)
    ensures
        match r {
            Some((a, b)) => category_of(json_view(*t)) == Some((a@, b@)),
            None => category_of(json_view(*t)) is None,
        },
{
    proof {
        lemma_views(*t);
    }
    match t {
        Json::Object(f) => {
            let keys = ["title", "name", "label"];
            assert(str_views(keys@) =~= seq!["title"@, "name"@, "label"@]);
            match (get_str_by_keys(f, &keys), tab_target_of(f)) {
                (Some(title), Some(url)) => Some((title, url)),
                _ => None,
            }
        },
        _ => None,
    }
}

/// The tab a topic answer opens with (see `selected_category`).
pub fn topic_hub_selected_category(raw: &Json) -> (r: Option<(String, String)>)
    ensures
        match r {
            Some((a, b)) => selected_category(json_view(*raw)) == Some((a@, b@)),
            None => selected_category(json_view(*raw)) is None,
        },
{
    let tabs = extract_topic_hub_tabs(raw);
    let ghost tv = items_view(tabs@);
    let wanted = match topic_hub_selected_tab(raw) {
        Some(s) => s,
        None => String::new(),
    };
    let wc = chars_of(wanted.as_str());
    let mut i: usize = 0;
    assert(tv.skip(0) =~= tv);
    while i < tabs.len()
        invariant
            i <= tabs@.len(),
            tv == items_view(tabs@),
            tv == hub_tabs(json_view(*raw)),
            wanted@ == match selected_tab(json_view(*raw)) {
                Some(s) => s,
                None => Seq::<char>::empty(),
            },
            wc@ == wanted@,
            first_titled(tv, wanted@) == first_titled(tv.skip(i as int), wanted@),
        decreases tabs@.len() - i,
    {
        proof {
            assert(tv.skip(i as int)[0] == json_view(tabs@[i as int]));
            assert(tv.skip(i as int).drop_first() =~= tv.skip(i + 1));
        }
        if let Some(name) = tab_name_of(&tabs[i]) {
            if crate::text::chars_eq(&chars_of(name.as_str()), &wc) {
                return category_of_tab(&tabs[i]);
            }
        }
        i += 1;
    }
    assert(tv.skip(i as int) =~= Seq::<JsonV>::empty());
    if tabs.len() > 0 {
        category_of_tab(&tabs[0])
    } else {
        None
    }
}

// ---------------------------------------------------------------------------
// Pages
// ---------------------------------------------------------------------------

/// A paging cursor: an entity's `entityId`, else its `id`, as text.
pub open spec fn hub_cursor(v: JsonV) -> Seq<char> {
    match v {
        JsonV::Object(f) => match str_by_keys(f, seq!["entityId"@, "id"@]) {
            Some(c) => c,
            None => Seq::empty(),
        },
        _ => Seq::empty(),
    }
}

/// A topic page: the answer's data (an empty list when absent), the
/// cursors of its first and last entries, and its tabs.
pub open spec fn hub_result(raw: JsonV) -> JsonV {
    let data = match get(raw, "data"@) {
        Some(d) => d,
        None => JsonV::Array(Seq::empty()),
    };
    let (first, last) = match data {
        JsonV::Array(items) => if items.len() > 0 {
            (hub_cursor(items[0]), hub_cursor(items.last()))
        } else {
            (Seq::empty(), Seq::empty())
        },
        _ => (Seq::empty(), Seq::empty()),
    };
    JsonV::Object(seq![
        ("code"@, count(200)),
        ("data"@, data),
        ("firstItem"@, JsonV::Str(first)),
        ("lastItem"@, JsonV::Str(last)),
        ("tabs"@, JsonV::Array(hub_tabs(raw))),
    ])
}

pub(crate) fn hub_cursor_of(v: &Json) -> (r: String)
    ensures
        r@ == hub_cursor(json_view(*v)),
{
    proof {
        lemma_views(*v);
    }
    let keys = ["entityId", "id"];
    assert(str_views(keys@) =~= seq!["entityId"@, "id"@]);
    match v {
        Json::Object(f) => match get_str_by_keys(f, &keys) {
            Some(c) => c,
            None => String::new(),
        },
        _ => String::new(),
    }
}

fn array_json(items: Vec<Json>) -> (r: Json)
    ensures
        json_view(r) == JsonV::Array(items_view(items@)),
{
    let r = Json::Array(items);
    proof {
        lemma_views(r);
    }
    r
}

/// Builds a topic page (see `hub_result`).
pub fn topic_hub_result(raw: &Json) -> (r: Json)
    ensures
        json_view(r) == hub_result(json_view(*raw)),
{
    let data = match raw.get("data") {
        Some(d) => d.deep_copy(),
        None => array_json(Vec::new()),
    };
    proof {
        lemma_views(data);
        assert(items_view(Seq::<Json>::empty()) =~= Seq::<JsonV>::empty());
    }
    let (first, last) = match &data {
        Json::Array(items) => if items.len() > 0 {
            (hub_cursor_of(&items[0]), hub_cursor_of(&items[items.len() - 1]))
        } else {
            (String::new(), String::new())
        },
        _ => (String::new(), String::new()),
    };
    let tabs = array_json(extract_topic_hub_tabs(raw));
    let mut out: Vec<(String, Json)> = Vec::new();
    assert(fields_view(out@) =~= Seq::<(Seq<char>, JsonV)>::empty());
    push_field(&mut out, "code", count_json(200));
    push_field(&mut out, "data", data);
    push_field(&mut out, "firstItem", Json::Str(first));
    push_field(&mut out, "lastItem", Json::Str(last));
    push_field(&mut out, "tabs", tabs);
    let ghost ov = fields_view(out@);
    let r = Json::Object(out);
    proof {
        lemma_views(r);
    }
    assert(ov =~= hub_result(json_view(*raw))->Object_0);
    r
}

/// The page of the vertical topic section: with no selected tab, no data
/// and the configuration's tabs; else the selected tab's page with the
/// configuration's tabs and the tab's address.
pub open spec fn vertical_page(config: JsonV, selected: Option<(Seq<char>, JsonV)>) -> JsonV {
    let tabs = JsonV::Array(hub_tabs(config));
    match selected {
        None => JsonV::Object(seq![("code"@, count(200)), ("data"@, JsonV::Array(Seq::empty())), ("tabs"@, tabs)]),
        Some((url, page)) => JsonV::Object(
            insert_field(insert_field(hub_result(page)->Object_0, "tabs"@, tabs), "selectedUrl"@, JsonV::Str(url)),
        ),
    }
}

/// Builds the vertical section's page (see `vertical_page`); `selected`
/// is the selected tab's address and the answer fetched for it.
pub fn vertical_topic_page(config: &Json, selected: Option<(&str, &Json)>) -> (r: Json)
    ensures
        json_view(r) == vertical_page(
            json_view(*config),
            match selected {
                Some((u, p)) => Some((u@, json_view(*p))),
                None => None,
            },
        ),
{
    let tabs = array_json(extract_topic_hub_tabs(config));
    match selected {
        None => {
            let mut out: Vec<(String, Json)> = Vec::new();
            assert(fields_view(out@) =~= Seq::<(Seq<char>, JsonV)>::empty());
            push_field(&mut out, "code", count_json(200));
            let empty = array_json(Vec::new());
            assert(items_view(Seq::<Json>::empty()) =~= Seq::<JsonV>::empty());
            push_field(&mut out, "data", empty);
            push_field(&mut out, "tabs", tabs);
            let ghost ov = fields_view(out@);
            let r = Json::Object(out);
            proof {
                lemma_views(r);
            }
            assert(ov =~= vertical_page(json_view(*config), None)->Object_0);
            r
        },
        Some((url, page)) => {
            let base = topic_hub_result(page);
            proof {
                lemma_views(base);
            }
            let mut out: Vec<(String, Json)> = match base {
                Json::Object(f) => f,
                _ => Vec::new(),
            };
            insert_json_field(&mut out, "tabs", tabs);
            insert_json_field(&mut out, "selectedUrl", Json::Str(url.to_string()));
            let ghost ov = fields_view(out@);
            let r = Json::Object(out);
            proof {
                lemma_views(r);
            }
            r
        },
    }
}

/// `{ code: 200, data }` with the answer's data, an empty list when absent.
pub open spec fn data_page(raw: JsonV) -> JsonV {
    JsonV::Object(seq![
        ("code"@, count(200)),
        ("data"@, match get(raw, "data"@) {
            Some(d) => d,
            None => JsonV::Array(Seq::empty()),
        }),
    ])
}

/// Builds `data_page`.
pub fn topic_search_page(raw: &Json) -> (r: Json)
    ensures
        json_view(r) == data_page(json_view(*raw)),
{
    let data = match raw.get("data") {
        Some(d) => d.deep_copy(),
        None => array_json(Vec::new()),
    };
    assert(items_view(Seq::<Json>::empty()) =~= Seq::<JsonV>::empty());
    let mut out: Vec<(String, Json)> = Vec::new();
    assert(fields_view(out@) =~= Seq::<(Seq<char>, JsonV)>::empty());
    push_field(&mut out, "code", count_json(200));
    push_field(&mut out, "data", data);
    let ghost ov = fields_view(out@);
    let r = Json::Object(out);
    proof {
        lemma_views(r);
    }
    assert(ov =~= data_page(json_view(*raw))->Object_0);
    r
}

// ---------------------------------------------------------------------------
// Routing a topic section
// ---------------------------------------------------------------------------

/// The request a topic section stands for.
pub enum TopicRoute {
    /// The vertical topic home: its configuration, then its selected tab.
    Vertical,
    /// The server-driven hot topic stream.
    HotTags,
    /// A server page, fetched as it is.
    Page,
    /// A category, searched with this term.
    CategorySearch(String),
    /// The ranking, ordered by `sort`; `fallback` is the page fetched when
    /// the ranking answers with nothing.
    Ranking { sort: String, fallback: String },
}

pub enum TopicRouteV {
    Vertical,
    HotTags,
    Page,
    CategorySearch(Seq<char>),
    Ranking { sort: Seq<char>, fallback: Seq<char> },
}

pub open spec fn route_view(r: TopicRoute) -> TopicRouteV {
    match r {
        TopicRoute::Vertical => TopicRouteV::Vertical,
        TopicRoute::HotTags => TopicRouteV::HotTags,
        TopicRoute::Page => TopicRouteV::Page,
        TopicRoute::CategorySearch(t) => TopicRouteV::CategorySearch(t@),
        TopicRoute::Ranking { sort, fallback } => TopicRouteV::Ranking { sort: sort@, fallback: fallback@ },
    }
}

/// The section address without surrounding blanks and leading `#`.
pub open spec fn clean_section(sub_url: Seq<char>) -> Seq<char> {
    crate::text::strip_leading(crate::text::trim(sub_url), '#')
}

/// The route of a section: the vertical home, the hot stream, a server
/// page (`/page?url=` or `/topic/`), a category (`tagType=N` or `type=N`
/// for phones, computers, games), else the ranking (by followers, newest,
/// or hottest).
pub open spec fn topic_route(sub_url: Seq<char>) -> TopicRouteV {
    let c = clean_section(sub_url);
    if contains(c, "V11_VERTICAL_TOPIC"@) {
        TopicRouteV::Vertical
    } else if contains(c, "/topic/hotTagList"@) {
        TopicRouteV::HotTags
    } else if crate::text::starts_with(c, "/page?url="@) || crate::text::starts_with(c, "/topic/"@) {
        TopicRouteV::Page
    } else if contains(c, "tagType=1"@) || contains(c, "type=1"@) {
        TopicRouteV::CategorySearch("手机"@)
    } else if contains(c, "tagType=2"@) || contains(c, "type=2"@) {
        TopicRouteV::CategorySearch("电脑"@)
    } else if contains(c, "tagType=3"@) || contains(c, "type=3"@) {
        TopicRouteV::CategorySearch("游戏"@)
    } else {
        TopicRouteV::Ranking {
            sort: if contains(c, "sort=follow"@) {
                "follow"@
            } else if contains(c, "sort=new"@) {
                "new"@
            } else {
                "hot"@
            },
            fallback: if c.len() == 0 || c == "/main/tagList"@ {
                "/topic/tagList"@
            } else {
                c
            },
        }
    }
}

/// Decides the route of a topic section (see `topic_route`).
pub fn topic_hub_route(sub_url: &str) -> (r: TopicRoute)
    ensures
        route_view(r) == topic_route(sub_url@),
{
    let t = crate::text::trimmed_str(sub_url);
    let start = crate::text::strip_leading_range(&t, 0, t.len(), '#');
    proof {
        assert(t@.subrange(0, t@.len() as int) =~= t@);
    }
    let c = crate::text::string_of_range(&t, start, t.len());
    let cc = chars_of(c.as_str());
    if chars_contain(&cc, "V11_VERTICAL_TOPIC") {
        return TopicRoute::Vertical;
    }
    if chars_contain(&cc, "/topic/hotTagList") {
        return TopicRoute::HotTags;
    }
    if crate::text::chars_start_with(&cc, "/page?url=") || crate::text::chars_start_with(&cc, "/topic/") {
        return TopicRoute::Page;
    }
    if chars_contain(&cc, "tagType=1") || chars_contain(&cc, "type=1") {
        return TopicRoute::CategorySearch("手机".to_string());
    }
    if chars_contain(&cc, "tagType=2") || chars_contain(&cc, "type=2") {
        return TopicRoute::CategorySearch("电脑".to_string());
    }
    if chars_contain(&cc, "tagType=3") || chars_contain(&cc, "type=3") {
        return TopicRoute::CategorySearch("游戏".to_string());
    }
    let sort = if chars_contain(&cc, "sort=follow") {
        "follow".to_string()
    } else if chars_contain(&cc, "sort=new") {
        "new".to_string()
    } else {
        "hot".to_string()
    };
    let fallback = if cc.len() == 0 || crate::text::chars_eq_str(&cc, "/main/tagList") {
        "/topic/tagList".to_string()
    } else {
        c
    };
    TopicRoute::Ranking { sort, fallback }
}

/// The query of `/v6/page/dataList` for a topic page: the address, the
/// page (at least 1), and the title and cursors when not blank (cursors
/// trimmed).
pub open spec fn hub_page_query(url: Seq<char>, title: Seq<char>, page: u32, first_item: Seq<char>, last_item: Seq<char>) -> Seq<(Seq<char>, Seq<char>)> {
    let p: nat = if page < 1 {
        1
    } else {
        page as nat
    };
    seq![("url"@, url), ("page"@, crate::text::dec(p))] + crate::replies::opt_param(
        crate::text::trim(title).len() > 0,
        "title"@,
        title,
    ) + crate::replies::opt_param(crate::text::trim(first_item).len() > 0, "firstItem"@, crate::text::trim(first_item))
        + crate::replies::opt_param(crate::text::trim(last_item).len() > 0, "lastItem"@, crate::text::trim(last_item))
}

/// Builds `hub_page_query`.
pub fn topic_hub_page_query(url: &str, title: &str, page: u32, first_item: &str, last_item: &str) -> (r: Vec<(&'static str, String)>)
    ensures
        crate::text::params_view(r@) == hub_page_query(url@, title@, page, first_item@, last_item@),
{
    let mut q: Vec<(&'static str, String)> = Vec::new();
    q.push(("url", url.to_string()));
    let p: u32 = if page < 1 {
        1
    } else {
        page
    };
    q.push(("page", crate::text::u64_to_string(p as u64)));
    if crate::text::trimmed_str(title).len() > 0 {
        q.push(("title", title.to_string()));
    }
    let f = crate::text::trimmed_str(first_item);
    if f.len() > 0 {
        q.push(("firstItem", crate::text::string_of(&f)));
    }
    let l = crate::text::trimmed_str(last_item);
    if l.len() > 0 {
        q.push(("lastItem", crate::text::string_of(&l)));
    }
    assert(crate::text::params_view(q@) =~= hub_page_query(url@, title@, page, first_item@, last_item@));
    q
}

/// A ranking answer is used when its `data` is a non-empty list;
/// otherwise the fallback page is fetched.
pub open spec fn ranking_usable(raw: JsonV) -> bool {
    match get(raw, "data"@) {
        Some(JsonV::Array(items)) => items.len() > 0,
        _ => false,
    }
}

pub fn is_usable_ranking(raw: &Json) -> (r: bool)
    ensures
        r == ranking_usable(json_view(*raw)),
{
    let d = raw.get("data");
    match d {
        Some(Json::Array(items)) => {
            proof {
                lemma_views(Json::Array(*items));
            }
            items.len() > 0
        },
        Some(other) => {
            proof {
                lemma_views(*other);
            }
            false
        },
        None => false,
    }
}

// ---------------------------------------------------------------------------
// The ranking page
// ---------------------------------------------------------------------------

/// A topic's follower count: `follower_num`, else `follownum`, else 0.
pub open spec fn follower_key(v: JsonV) -> u64 {
    match get(v, "follower_num"@) {
        Some(x) if crate::json::as_u64(x) is Some => crate::json::as_u64(x)->Some_0,
        _ => match get(v, "follownum"@) {
            Some(x) if crate::json::as_u64(x) is Some => crate::json::as_u64(x)->Some_0,
            _ => 0,
        },
    }
}

/// `x` placed into a list ordered by decreasing follower count, after the
/// entries that have at least as many followers.
pub open spec fn insert_by_followers(s: Seq<JsonV>, x: JsonV) -> Seq<JsonV>
    decreases s.len(),
{
    if s.len() == 0 {
        seq![x]
    } else if follower_key(s[0]) >= follower_key(x) {
        seq![s[0]] + insert_by_followers(s.drop_first(), x)
    } else {
        seq![x] + s
    }
}

/// The list ordered by decreasing follower count, entries with equal
/// counts keeping their order (a stable sort).
pub open spec fn by_followers(items: Seq<JsonV>) -> Seq<JsonV>
    decreases items.len(),
{
    if items.len() == 0 {
        Seq::empty()
    } else {
        insert_by_followers(by_followers(items.drop_last()), items.last())
    }
}

fn follower_key_of(v: &Json) -> (r: u64)
    ensures
        r == follower_key(json_view(*v)),
{
    let a = v.get("follower_num");
    let ka = match a {
        Some(Json::Number(crate::json::JsonNumber::PosInt(n))) => Some(*n),
        Some(other) => {
            proof {
                lemma_views(*other);
            }
            None
        },
        None => None,
    };
    if let Some(n) = ka {
        return n;
    }
    let b = v.get("follownum");
    match b {
        Some(Json::Number(crate::json::JsonNumber::PosInt(n))) => *n,
        Some(other) => {
            proof {
                lemma_views(*other);
            }
            0
        },
        None => 0,
    }
}

/// Places `x` into `sorted` (see `insert_by_followers`).
fn insert_sorted(sorted: Vec<Json>, x: Json) -> (r: Vec<Json>)
    ensures
        items_view(r@) == insert_by_followers(items_view(sorted@), json_view(x)),
{
    let ghost sv = items_view(sorted@);
    let kx = follower_key_of(&x);
    let mut i: usize = 0;
    while i < sorted.len() && follower_key_of(&sorted[i]) >= kx
        invariant
            i <= sorted@.len(),
            sv == items_view(sorted@),
            kx == follower_key(json_view(x)),
            forall|j: int| 0 <= j < i ==> follower_key(#[trigger] sv[j]) >= kx,
        decreases sorted@.len() - i,
    {
        i += 1;
    }
    proof {
        lemma_insert_at(sv, json_view(x), i as int);
    }
    let mut out: Vec<Json> = Vec::new();
    let mut j: usize = 0;
    while j < sorted.len()
        invariant
            j <= sorted@.len(),
            i <= sorted@.len(),
            sv == items_view(sorted@),
            items_view(out@) == if j <= i {
                sv.take(j as int)
            } else {
                sv.take(i as int).push(json_view(x)) + sv.subrange(i as int, j as int)
            },
        decreases sorted@.len() - j,
    {
        if j == i {
            let ghost before = items_view(out@);
            out.push(x.deep_copy());
            assert(items_view(out@) =~= before.push(json_view(x)));
        }
        let ghost before = items_view(out@);
        let c = sorted[j].deep_copy();
        out.push(c);
        assert(items_view(out@) =~= before.push(sv[j as int]));
        j += 1;
        proof {
            if j <= i {
                assert(items_view(out@) =~= sv.take(j as int));
            } else {
                assert(items_view(out@) =~= sv.take(i as int).push(json_view(x)) + sv.subrange(i as int, j as int));
            }
        }
    }
    if i == sorted.len() {
        let ghost before = items_view(out@);
        out.push(x);
        assert(items_view(out@) =~= before.push(json_view(x)));
        assert(items_view(out@) =~= sv.take(i as int).push(json_view(x)) + sv.subrange(i as int, sorted@.len() as int));
    }
    assert(items_view(out@) =~= sv.take(i as int).push(json_view(x)) + sv.subrange(i as int, sv.len() as int));
    out
}

proof fn lemma_insert_at(s: Seq<JsonV>, x: JsonV, i: int)
    requires
        0 <= i <= s.len(),
        forall|j: int| 0 <= j < i ==> follower_key(#[trigger] s[j]) >= follower_key(x),
        i < s.len() ==> follower_key(s[i]) < follower_key(x),
    ensures
        insert_by_followers(s, x) == s.take(i).push(x) + s.subrange(i, s.len() as int),
    decreases s.len(),
{
    if s.len() == 0 {
        assert(s.take(i).push(x) + s.subrange(i, s.len() as int) =~= seq![x]);
    } else if i == 0 {
        assert(s.take(0).push(x) + s.subrange(0, s.len() as int) =~= seq![x] + s);
    } else {
        let t = s.drop_first();
        assert forall|j: int| 0 <= j < i - 1 implies follower_key(#[trigger] t[j]) >= follower_key(x) by {
            assert(t[j] == s[j + 1]);
        }
        lemma_insert_at(t, x, i - 1);
        assert(seq![s[0]] + (t.take(i - 1).push(x) + t.subrange(i - 1, t.len() as int))
            =~= s.take(i).push(x) + s.subrange(i, s.len() as int));
    }
}

/// Orders topics by decreasing follower count, keeping the order of
/// equal counts (see `by_followers`).
pub fn sort_by_followers(items: &Vec<Json>) -> (r: Vec<Json>)
    ensures
        items_view(r@) == by_followers(items_view(items@)),
{
    let ghost iv = items_view(items@);
    let mut sorted: Vec<Json> = Vec::new();
    let mut i: usize = 0;
    assert(items_view(sorted@) =~= by_followers(iv.take(0)));
    while i < items.len()
        invariant
            i <= items@.len(),
            iv == items_view(items@),
            items_view(sorted@) == by_followers(iv.take(i as int)),
        decreases items@.len() - i,
    {
        proof {
            assert(iv.take(i + 1).drop_last() =~= iv.take(i as int));
            assert(iv.take(i + 1).last() == json_view(items@[i as int]));
        }
        sorted = insert_sorted(sorted, items[i].deep_copy());
        i += 1;
    }
    assert(iv.take(items@.len() as int) =~= iv);
    sorted
}

/// The ranking page: the answer's data (an empty list when absent),
/// ordered by followers when the section asks for it, as a topic page of
/// `{ data }`, marked `sort: follow` in that case.
pub open spec fn ranking_page(raw: JsonV, follow: bool) -> JsonV {
    let data = match get(raw, "data"@) {
        Some(d) => d,
        None => JsonV::Array(Seq::empty()),
    };
    let ordered = match data {
        JsonV::Array(items) => if follow {
            JsonV::Array(by_followers(items))
        } else {
            data
        },
        _ => data,
    };
    let page = hub_result(JsonV::Object(seq![("data"@, ordered)]));
    if follow {
        JsonV::Object(insert_field(page->Object_0, "sort"@, JsonV::Str("follow"@)))
    } else {
        page
    }
}

/// Builds the ranking page (see `ranking_page`).
pub fn topic_ranking_page(raw: &Json, follow: bool) -> (r: Json)
    ensures
        json_view(r) == ranking_page(json_view(*raw), follow),
{
    let data = match raw.get("data") {
        Some(d) => d.deep_copy(),
        None => array_json(Vec::new()),
    };
    assert(items_view(Seq::<Json>::empty()) =~= Seq::<JsonV>::empty());
    proof {
        lemma_views(data);
    }
    let ordered = match &data {
        Json::Array(items) => if follow {
            array_json(sort_by_followers(items))
        } else {
            data.deep_copy()
        },
        _ => data.deep_copy(),
    };
    let mut wrapper: Vec<(String, Json)> = Vec::new();
    assert(fields_view(wrapper@) =~= Seq::<(Seq<char>, JsonV)>::empty());
    push_field(&mut wrapper, "data", ordered);
    let ghost wv = fields_view(wrapper@);
    let w = Json::Object(wrapper);
    proof {
        lemma_views(w);
    }
    let page = topic_hub_result(&w);
    if follow {
        proof {
            lemma_views(page);
        }
        let mut out: Vec<(String, Json)> = match page {
            Json::Object(f) => f,
            _ => Vec::new(),
        };
        insert_json_field(&mut out, "sort", Json::Str("follow".to_string()));
        let ghost ov = fields_view(out@);
        let r = Json::Object(out);
        proof {
            lemma_views(r);
        }
        r
    } else {
        page
    }
}

/// Ordered by decreasing follower count.
pub open spec fn followers_descending(s: Seq<JsonV>) -> bool {
    forall|i: int, j: int| 0 <= i < j < s.len() ==> follower_key(#[trigger] s[i]) >= follower_key(#[trigger] s[j])
}

proof fn lemma_insert_multiset(s: Seq<JsonV>, x: JsonV)
    ensures
        insert_by_followers(s, x).to_multiset() == s.to_multiset().insert(x),
    decreases s.len(),
{
    broadcast use vstd::seq_lib::group_to_multiset_ensures, vstd::seq_lib::lemma_multiset_commutative;
    assert(Seq::<JsonV>::empty().to_multiset() =~= Multiset::<JsonV>::empty());
    assert(Seq::<JsonV>::empty().push(x) =~= seq![x]);
    if s.len() == 0 {
    } else if follower_key(s[0]) >= follower_key(x) {
        let t = s.drop_first();
        lemma_insert_multiset(t, x);
        assert(Seq::<JsonV>::empty().push(s[0]) =~= seq![s[0]]);
        assert(seq![s[0]] + t =~= s);
        assert(insert_by_followers(s, x).to_multiset() =~= s.to_multiset().insert(x));
    } else {
        assert(insert_by_followers(s, x).to_multiset() =~= s.to_multiset().insert(x));
    }
}

proof fn lemma_insert_bounded(s: Seq<JsonV>, x: JsonV, b: u64)
    requires
        forall|j: int| 0 <= j < s.len() ==> follower_key(#[trigger] s[j]) <= b,
        follower_key(x) <= b,
    ensures
        forall|k: int| 0 <= k < insert_by_followers(s, x).len() ==> follower_key(#[trigger] insert_by_followers(s, x)[k]) <= b,
        insert_by_followers(s, x).len() == s.len() + 1,
    decreases s.len(),
{
    if s.len() > 0 && follower_key(s[0]) >= follower_key(x) {
        let t = s.drop_first();
        assert forall|j: int| 0 <= j < t.len() implies follower_key(#[trigger] t[j]) <= b by {
            assert(t[j] == s[j + 1]);
        }
        lemma_insert_bounded(t, x, b);
        let r = insert_by_followers(s, x);
        assert forall|k: int| 0 <= k < r.len() implies follower_key(#[trigger] r[k]) <= b by {
            if k > 0 {
                assert(r[k] == insert_by_followers(t, x)[k - 1]);
            }
        }
    } else if s.len() > 0 {
        let r = insert_by_followers(s, x);
        assert forall|k: int| 0 <= k < r.len() implies follower_key(#[trigger] r[k]) <= b by {
            if k > 0 {
                assert(r[k] == s[k - 1]);
            }
        }
    }
}

proof fn lemma_insert_sorted(s: Seq<JsonV>, x: JsonV)
    requires
        followers_descending(s),
    ensures
        followers_descending(insert_by_followers(s, x)),
    decreases s.len(),
{
    if s.len() == 0 {
    } else if follower_key(s[0]) >= follower_key(x) {
        let t = s.drop_first();
        assert(followers_descending(t)) by {
            assert forall|i: int, j: int| 0 <= i < j < t.len() implies follower_key(#[trigger] t[i]) >= follower_key(#[trigger] t[j]) by {
                assert(t[i] == s[i + 1] && t[j] == s[j + 1]);
            }
        }
        lemma_insert_sorted(t, x);
        assert forall|j: int| 0 <= j < t.len() implies follower_key(#[trigger] t[j]) <= follower_key(s[0]) by {
            assert(t[j] == s[j + 1]);
        }
        lemma_insert_bounded(t, x, follower_key(s[0]));
        let tail = insert_by_followers(t, x);
        let r = insert_by_followers(s, x);
        assert forall|i: int, j: int| 0 <= i < j < r.len() implies follower_key(#[trigger] r[i]) >= follower_key(#[trigger] r[j]) by {
            assert(r[j] == tail[j - 1]);
            if i > 0 {
                assert(r[i] == tail[i - 1]);
            }
        }
    } else {
        let r = insert_by_followers(s, x);
        assert forall|i: int, j: int| 0 <= i < j < r.len() implies follower_key(#[trigger] r[i]) >= follower_key(#[trigger] r[j]) by {
            assert(r[j] == s[j - 1]);
            if i > 0 {
                assert(r[i] == s[i - 1]);
            } else {
                assert(follower_key(s[0]) >= follower_key(s[j - 1]));
            }
        }
    }
}

/// Ordering topics by followers keeps every topic (the same multiset)
/// and puts them in decreasing follower count.
pub proof fn law_followers_order_is_a_sorted_permutation(items: Seq<JsonV>)
    ensures
        by_followers(items).to_multiset() == items.to_multiset(),
        followers_descending(by_followers(items)),
    decreases items.len(),
{
    broadcast use vstd::seq_lib::group_to_multiset_ensures;
    assert(Seq::<JsonV>::empty().to_multiset() =~= Multiset::<JsonV>::empty());
    if items.len() > 0 {
        let rest = items.drop_last();
        law_followers_order_is_a_sorted_permutation(rest);
        lemma_insert_multiset(by_followers(rest), items.last());
        lemma_insert_sorted(by_followers(rest), items.last());
        assert(rest.push(items.last()) =~= items);
    } else {
        assert(items =~= Seq::<JsonV>::empty());
    }
}

// ---------------------------------------------------------------------------
// Hot topics
// ---------------------------------------------------------------------------

/// A hot topic entry: an object of type `topic` with a title, as its tag
/// and heat (`hot_num`, else the comment count).
pub open spec fn hot_topic(item: JsonV) -> Option<JsonV> {
    match item {
        JsonV::Object(f) => {
            let tag = match str_by_keys(f, seq!["title"@]) {
                Some(t) => t,
                None => Seq::empty(),
            };
            if as_str_opt(field_value(f, "entityType"@)) != Some("topic"@) || tag.len() == 0 {
                None
            } else {
                Some(JsonV::Object(seq![
                    ("count"@, count(u64_by_keys(f, seq!["hot_num"@, "commentnum"@, "comment_num"@]))),
                    ("tag"@, JsonV::Str(tag)),
                ]))
            }
        },
        _ => None,
    }
}

/// The hot topics among `items`, in order, stopping at the fifth.
pub open spec fn hot_topics_in(items: Seq<JsonV>) -> Seq<JsonV>
    decreases items.len(),
{
    if items.len() == 0 {
        Seq::empty()
    } else {
        let before = hot_topics_in(items.drop_last());
        if before.len() >= 5 {
            before
        } else {
            before + match hot_topic(items.last()) {
                Some(t) => seq![t],
                None => Seq::empty(),
            }
        }
    }
}

/// The answer of the hot topic panel: code 200 and at most five hot
/// topics of the answer's `data` list.
pub open spec fn hot_topics_answer(raw: JsonV) -> JsonV {
    let topics = match get(raw, "data"@) {
        Some(JsonV::Array(items)) => hot_topics_in(items),
        _ => Seq::empty(),
    };
    JsonV::Object(seq![("code"@, count(200)), ("data"@, JsonV::Array(topics))])
}

proof fn lemma_hot_topics_capped(items: Seq<JsonV>, i: int)
    requires
        0 <= i <= items.len(),
        hot_topics_in(items.take(i)).len() >= 5,
    ensures
        hot_topics_in(items) == hot_topics_in(items.take(i)),
    decreases items.len() - i,
{
    if i < items.len() {
        assert(items.take(i + 1).drop_last() =~= items.take(i));
        lemma_hot_topics_capped(items, i + 1);
    } else {
        assert(items.take(i) =~= items);
    }
}

fn hot_topic_of(item: &Json) -> (r: Option<Json>)
    ensures
        match r {
            Some(t) => hot_topic(json_view(*item)) == Some(json_view(t)),
            None => hot_topic(json_view(*item)) is None,
        },
{
    proof {
        lemma_views(*item);
    }
    let fields = match item {
        Json::Object(f) => f,
        _ => {
            return None;
        },
    };
    let kt = ["title"];
    let kc = ["hot_num", "commentnum", "comment_num"];
    assert(str_views(kt@) =~= seq!["title"@]);
    assert(str_views(kc@) =~= seq!["hot_num"@, "commentnum"@, "comment_num"@]);
    let is_topic = match field_of(fields, "entityType") {
        Some(v) => match v.as_str() {
            Some(t) => {
                proof {
                    reveal_strlit("topic");
                }
                crate::text::chars_eq_str(&chars_of(t), "topic")
            },
            None => false,
        },
        None => false,
    };
    let tag = match get_str_by_keys(fields, &kt) {
        Some(t) => t,
        None => String::new(),
    };
    if !is_topic || tag.as_str().is_empty() {
        return None;
    }
    let mut out: Vec<(String, Json)> = Vec::new();
    assert(fields_view(out@) =~= Seq::<(Seq<char>, JsonV)>::empty());
    push_field(&mut out, "count", count_json(get_u64_by_keys(fields, &kc)));
    push_field(&mut out, "tag", Json::Str(tag));
    let ghost ov = fields_view(out@);
    let r = Json::Object(out);
    proof {
        lemma_views(r);
    }
    assert(ov =~= hot_topic(json_view(*item))->Some_0->Object_0);
    Some(r)
}

/// `get_hot_topics`' answer built from the topic square's page (see
/// `hot_topics_answer`).
pub fn hot_topics_result(raw: &Json) -> (r: Json)
    ensures
        json_view(r) == hot_topics_answer(json_view(*raw)),
{
    let mut topics: Vec<Json> = Vec::new();
    let d = raw.get("data");
    match d {
        Some(Json::Array(items)) => {
            proof {
                lemma_views(Json::Array(*items));
            }
            let ghost iv = items_view(items@);
            let mut i: usize = 0;
            assert(items_view(topics@) =~= Seq::<JsonV>::empty());
            while i < items.len() && topics.len() < 5
                invariant
                    i <= items@.len(),
                    iv == items_view(items@),
                    items_view(topics@) == hot_topics_in(iv.take(i as int)),
                decreases items@.len() - i,
            {
                proof {
                    assert(iv.take(i + 1).drop_last() =~= iv.take(i as int));
                    assert(iv.take(i + 1).last() == json_view(items@[i as int]));
                }
                let ghost before = items_view(topics@);
                match hot_topic_of(&items[i]) {
                    Some(t) => {
                        topics.push(t);
                        assert(items_view(topics@) =~= before + seq![json_view(t)]);
                    },
                    None => {
                        assert(items_view(topics@) =~= before + Seq::<JsonV>::empty());
                    },
                }
                i += 1;
            }
            proof {
                if i == items@.len() {
                    assert(iv.take(items@.len() as int) =~= iv);
                } else {
                    lemma_hot_topics_capped(iv, i as int);
                }
            }
        },
        _ => {
            proof {
                match d {
                    Some(v) => {
                        lemma_views(*v);
                    },
                    None => {},
                }
            }
            assert(items_view(topics@) =~= Seq::<JsonV>::empty());
        },
    }
    let data = array_json(topics);
    let mut out: Vec<(String, Json)> = Vec::new();
    assert(fields_view(out@) =~= Seq::<(Seq<char>, JsonV)>::empty());
    push_field(&mut out, "code", count_json(200));
    push_field(&mut out, "data", data);
    let ghost ov = fields_view(out@);
    let r = Json::Object(out);
    proof {
        lemma_views(r);
    }
    assert(ov =~= hot_topics_answer(json_view(*raw))->Object_0);
    r
}

// ---------------------------------------------------------------------------
// Followed topics
// ---------------------------------------------------------------------------

/// The query of the followed topics page.
pub open spec fn followed_topics_query(page: u32) -> Seq<(Seq<char>, Seq<char>)> {
    seq![
        ("url"@, "#/topic/userFollowTagList?&title=我关注的话题"@),
        ("title"@, "我关注的话题"@),
        ("subTitle"@, Seq::empty()),
        ("page"@, crate::text::dec(page as nat)),
        ("firstItem"@, Seq::empty()),
        ("lastItem"@, Seq::empty()),
        ("pageContext"@, Seq::empty()),
    ]
}

/// Builds `followed_topics_query`.
pub fn followed_topics_page_query(page: u32) -> (r: Vec<(&'static str, String)>)
    ensures
        crate::text::params_view(r@) == followed_topics_query(page),
{
    let mut q: Vec<(&'static str, String)> = Vec::new();
    q.push(("url", "#/topic/userFollowTagList?&title=我关注的话题".to_string()));
    q.push(("title", "我关注的话题".to_string()));
    q.push(("subTitle", String::new()));
    q.push(("page", crate::text::u64_to_string(page as u64)));
    q.push(("firstItem", String::new()));
    q.push(("lastItem", String::new()));
    q.push(("pageContext", String::new()));
    assert(crate::text::params_view(q@) =~= followed_topics_query(page));
    q
}

/// The answer of the followed topics page: the server's code (200 when
/// absent), message (null when absent) and data (an empty list when
/// absent).
pub open spec fn followed_topics_answer(raw: JsonV) -> JsonV {
    JsonV::Object(seq![
        ("code"@, match get(raw, "code"@) {
            Some(c) => c,
            None => count(200),
        }),
        ("data"@, match get(raw, "data"@) {
            Some(d) => d,
            None => JsonV::Array(Seq::empty()),
        }),
        ("message"@, match get(raw, "message"@) {
            Some(m) => m,
            None => JsonV::Null,
        }),
    ])
}

fn copy_or(v: Option<&Json>, d: Json) -> (r: Json)
    ensures
        json_view(r) == match v {
            Some(x) => json_view(*x),
            None => json_view(d),
        },
{
    match v {
        Some(x) => x.deep_copy(),
        None => d,
    }
}

/// Builds `followed_topics_answer`.
pub fn followed_topics_result(raw: &Json) -> (r: Json)
    ensures
        json_view(r) == followed_topics_answer(json_view(*raw)),
{
    let empty = array_json(Vec::new());
    proof {
        assert(items_view(Seq::<Json>::empty()) =~= Seq::<JsonV>::empty());
    }
    let mut out: Vec<(String, Json)> = Vec::new();
    assert(fields_view(out@) =~= Seq::<(Seq<char>, JsonV)>::empty());
    push_field(&mut out, "code", copy_or(raw.get("code"), count_json(200)));
    push_field(&mut out, "data", copy_or(raw.get("data"), empty));
    push_field(&mut out, "message", copy_or(raw.get("message"), Json::Null));
    let ghost ov = fields_view(out@);
    let r = Json::Object(out);
    proof {
        lemma_views(r);
    }
    assert(ov =~= followed_topics_answer(json_view(*raw))->Object_0);
    r
}

} // verus!
