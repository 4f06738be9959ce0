//! App and game entries from the API: one card per package, and the
//! lists the app and game pages show.

use vstd::prelude::*;
use crate::feed::{insert_field, or_empty, string_views, FieldsV};
use crate::json::{
    as_array, as_i64, as_str, as_u64, field_of, field_value, fields_view, get, items_view,
    json_view, lemma_views, str_by_keys, u64_by_keys, Json, JsonNumber, JsonV,
};
use crate::outside::{to_lowercase, unicode_lower};
use crate::text::{chars_contain, chars_of, contains, dec, dec_int, starts_with, str_views, strip_leading};

verus! {

/// `value_to_string`: a string, or an integer in decimal, else empty.
pub open spec fn value_text(v: JsonV) -> Seq<char> {
    match as_str(v) {
        Some(s) => s,
        None => match as_u64(v) {
            Some(n) => dec(n as nat),
            None => match as_i64(v) {
                Some(i) => dec_int(i as int),
                None => Seq::empty(),
            },
        },
    }
}

/// An icon reference made absolute.
pub open spec fn apk_icon(raw: Seq<char>) -> Seq<char> {
    if starts_with(raw, "http"@) {
        raw
    } else if starts_with(raw, "//"@) {
        "https:"@ + raw
    } else if raw.len() > 0 {
        "https://image.coolapk.com/"@ + strip_leading(raw, '/')
    } else {
        Seq::empty()
    }
}

pub open spec fn contains_any(s: Seq<char>, words: Seq<Seq<char>>) -> bool {
    exists|i: int| 0 <= i < words.len() && contains(s, #[trigger] words[i])
}

/// Category words that mark a game.
pub open spec fn game_words() -> Seq<Seq<char>> {
    seq!["游戏"@, "手游"@, "动作"@, "射击"@, "角色"@, "策略"@, "卡牌"@, "赛车"@, "竞技"@, "二次元"@, "模拟器"@]
}

/// Title words that mark a game box or another tool rather than a game.
pub open spec fn tool_words() -> Seq<Seq<char>> {
    seq!["游戏盒"@, "游戏大厅"@, "游戏交易"@, "游戏翻译"@, "游戏串"@, "游戏助手"@, "单反相机"@]
}

pub open spec fn title_keys() -> Seq<Seq<char>> {
    seq!["title"@, "shorttitle"@, "apkname"@, "label"@, "entityTitle"@]
}

pub open spec fn package_keys() -> Seq<Seq<char>> {
    seq!["packageName"@, "apkname"@, "package_name"@, "id"@]
}

pub open spec fn icon_keys() -> Seq<Seq<char>> {
    seq!["apkRomIcon"@, "logo"@, "icon"@, "pic"@, "cover"@, "apkIcon"@, "apkLogo"@, "appIcon"@, "bigIcon"@]
}

pub open spec fn category_keys() -> Seq<Seq<char>> {
    seq!["catName"@, "category_title"@, "category_name"@, "category"@, "tag"@, "apkTypeName"@]
}

/// The category shown for an entry (`应用` when none is given).
pub open spec fn apk_category(f: FieldsV) -> Seq<char> {
    match str_by_keys(f, category_keys()) {
        Some(c) => c,
        None => "应用"@,
    }
}

/// A game: the type says so (`2`) or the category names a game genre.
pub open spec fn apk_is_game(f: FieldsV) -> bool {
    u64_by_keys(f, seq!["apktype"@, "apkType"@, "apk_type"@, "type"@]) == 2 || contains_any(
        unicode_lower(apk_category(f)),
        game_words(),
    )
}

/// A tool around games (or a camera app), by its title or category.
pub open spec fn apk_is_tool(f: FieldsV, title: Seq<char>) -> bool {
    contains_any(unicode_lower(title), tool_words()) || contains(
        unicode_lower(apk_category(f)),
        "相机"@,
    )
}

/// The card of an app or game entry: `None` when it has no title or no
/// package name.
pub open spec fn cleaned_apk(item: JsonV) -> Option<JsonV> {
    match item {
        JsonV::Object(f) => match str_by_keys(f, title_keys()) {
            None => None,
            Some(title) => match str_by_keys(f, package_keys()) {
                None => None,
                Some(pkg) => Some(JsonV::Object(apk_fields(f, title, pkg))),
            },
        },
        _ => None,
    }
}

pub open spec fn apk_fields(f: FieldsV, title: Seq<char>, pkg: Seq<char>) -> FieldsV {
    apk_head(f, title, pkg) + apk_tail(f, title)
}

/// Identity, icon and description of an entry.
pub open spec fn apk_head(f: FieldsV, title: Seq<char>, pkg: Seq<char>) -> FieldsV {
    let icon = apk_icon(or_empty(str_by_keys(f, icon_keys())));
    let sub = or_empty(str_by_keys(f, seq!["subTitle"@, "description"@, "target_row_title"@, "comment"@]));
    seq![
        ("id"@, JsonV::Str(match field_value(f, "id"@) {
            Some(v) => value_text(v),
            None => pkg,
        })),
        ("title"@, JsonV::Str(title)),
        ("packageName"@, JsonV::Str(pkg)),
        ("icon"@, JsonV::Str(icon)),
        ("apkRomIcon"@, JsonV::Str(icon)),
        ("logo"@, JsonV::Str(icon)),
        ("subTitle"@, JsonV::Str(sub)),
        ("description"@, JsonV::Str(sub)),
    ]
}

/// Figures and classification of an entry.
pub open spec fn apk_tail(f: FieldsV, title: Seq<char>) -> FieldsV {
    seq![
        ("score"@, JsonV::Str(match str_by_keys(f, seq!["score"@, "star"@, "rating"@]) {
            Some(s) => s,
            None => "9.0"@,
        })),
        ("version"@, JsonV::Str(or_empty(str_by_keys(f, seq!["apkversionname"@, "apkVersionName"@, "version"@, "versionName"@])))),
        ("apkSizeFormatted"@, JsonV::Str(or_empty(str_by_keys(f, seq!["apksize"@, "apkSizeFormatted"@, "size"@, "apk_size"@])))),
        ("downCountFormatted"@, JsonV::Str(or_empty(str_by_keys(f, seq!["downCount"@, "downCountFormatted"@, "downnum"@, "download_count"@])))),
        ("category"@, JsonV::Str(apk_category(f))),
        ("isExplicitGame"@, JsonV::Bool(apk_is_game(f))),
        ("isUtilityTool"@, JsonV::Bool(apk_is_tool(f, title))),
        ("entityType"@, JsonV::Str(match crate::feed::fstr(f, "entityType"@) {
            Some(s) => s,
            None => "apk"@,
        })),
    ]
}

pub(crate) fn value_to_string(v: &Json) -> (r: String)
    ensures
        r@ == value_text(json_view(*v)),
{
    match v {
        Json::Str(s) => s.clone(),
        Json::Number(JsonNumber::PosInt(n)) => crate::text::u64_to_string(*n),
        Json::Number(JsonNumber::NegInt(i)) => crate::text::i64_to_string(*i),
        _ => String::new(),
    }
}

fn apk_icon_of(raw: String) -> (r: String)
    ensures
        r@ == apk_icon(raw@),
{
    let cs = chars_of(raw.as_str());
    if crate::text::chars_start_with(&cs, "http") {
        return raw;
    }
    if crate::text::chars_start_with(&cs, "//") {
        let mut out = "https:".to_string();
        crate::text::push_str(&mut out, raw.as_str());
        return out;
    }
    if cs.len() == 0 {
        return String::new();
    }
    let n = cs.len();
    let start = crate::text::strip_leading_range(&cs, 0, n, '/');
    assert(cs@.subrange(0, n as int) =~= cs@);
    let mut out = "https://image.coolapk.com/".to_string();
    crate::text::push_range(&mut out, &cs, start, n);
    out
}

fn text_contains_any(s: &str, words: &[&str]) -> (r: bool)
    ensures
        r == contains_any(s@, str_views(words@)),
{
    let cs = chars_of(s);
    let ghost ws = str_views(words@);
    let mut i: usize = 0;
    while i < words.len()
        invariant
            i <= words@.len(),
            cs@ == s@,
            ws == str_views(words@),
            forall|k: int| 0 <= k < i ==> !contains(s@, #[trigger] ws[k]),
        decreases words@.len() - i,
    {
        if chars_contain(&cs, words[i]) {
            assert(contains(s@, ws[i as int]));
            return true;
        }
        i += 1;
    }
    false
}

fn str_by_keys_or(fields: &Vec<(String, Json)>, keys: &[&str], default: &str) -> (r: String)
    ensures
        r@ == match str_by_keys(fields_view(fields@), str_views(keys@)) {
            Some(s) => s,
            None => default@,
        },
{
    match crate::json::get_str_by_keys(fields, keys) {
        Some(s) => s,
        None => default.to_string(),
    }
}

fn push_str_field(out: &mut Vec<(String, Json)>, key: &str, v: &str)
    ensures
        fields_view(final(out)@) == fields_view(old(out)@).push((key@, JsonV::Str(v@))),
{
    let ghost before = fields_view(out@);
    out.push((key.to_string(), Json::Str(v.to_string())));
    assert(fields_view(out@) =~= before.push((key@, JsonV::Str(v@))));
}

fn push_bool_field(out: &mut Vec<(String, Json)>, key: &str, b: bool)
    ensures
        fields_view(final(out)@) == fields_view(old(out)@).push((key@, JsonV::Bool(b))),
{
    let ghost before = fields_view(out@);
    out.push((key.to_string(), Json::Bool(b)));
    assert(fields_view(out@) =~= before.push((key@, JsonV::Bool(b))));
}

/// The category of an entry, its Unicode lower case, and whether it marks
/// a game and a tool.
fn apk_flags(fields: &Vec<(String, Json)>, title: &str) -> (r: (String, bool, bool))
    ensures
        r.0@ == apk_category(fields_view(fields@)),
        r.1 == apk_is_game(fields_view(fields@)),
        r.2 == apk_is_tool(fields_view(fields@), title@),
{
    let cat_keys = ["catName", "category_title", "category_name", "category", "tag", "apkTypeName"];
    assert(str_views(cat_keys@) =~= category_keys());
    let category = str_by_keys_or(fields, &cat_keys, "应用");
    let type_keys = ["apktype", "apkType", "apk_type", "type"];
    assert(str_views(type_keys@) =~= seq!["apktype"@, "apkType"@, "apk_type"@, "type"@]);
    let apk_type = crate::json::get_u64_by_keys(fields, &type_keys);
    let title_lower = to_lowercase(title);
    let cat_lower = to_lowercase(category.as_str());
    let games = ["游戏", "手游", "动作", "射击", "角色", "策略", "卡牌", "赛车", "竞技", "二次元", "模拟器"];
    assert(str_views(games@) =~= game_words());
    let tools = ["游戏盒", "游戏大厅", "游戏交易", "游戏翻译", "游戏串", "游戏助手", "单反相机"];
    assert(str_views(tools@) =~= tool_words());
    let is_game = apk_type == 2 || text_contains_any(cat_lower.as_str(), &games);
    let is_tool = text_contains_any(title_lower.as_str(), &tools) || chars_contain(
        &chars_of(cat_lower.as_str()),
        "相机",
    );
    (category, is_game, is_tool)
}

fn apk_head_fields(fields: &Vec<(String, Json)>, title: &str, pkg: &str) -> (r: Vec<(String, Json)>)
    ensures
        fields_view(r@) == apk_head(fields_view(fields@), title@, pkg@),
{
    proof {
        reveal_strlit("");
        assert(""@ =~= Seq::<char>::empty());
    }
    let ik = ["apkRomIcon", "logo", "icon", "pic", "cover", "apkIcon", "apkLogo", "appIcon", "bigIcon"];
    assert(str_views(ik@) =~= icon_keys());
    let icon = apk_icon_of(str_by_keys_or(fields, &ik, ""));
    let sk = ["subTitle", "description", "target_row_title", "comment"];
    assert(str_views(sk@) =~= seq!["subTitle"@, "description"@, "target_row_title"@, "comment"@]);
    let sub = str_by_keys_or(fields, &sk, "");
    let id = match field_of(fields, "id") {
        Some(v) => value_to_string(v),
        None => pkg.to_string(),
    };
    let mut out: Vec<(String, Json)> = Vec::new();
    assert(fields_view(out@) =~= Seq::<(Seq<char>, JsonV)>::empty());
    push_str_field(&mut out, "id", id.as_str());
    push_str_field(&mut out, "title", title);
    push_str_field(&mut out, "packageName", pkg);
    push_str_field(&mut out, "icon", icon.as_str());
    push_str_field(&mut out, "apkRomIcon", icon.as_str());
    push_str_field(&mut out, "logo", icon.as_str());
    push_str_field(&mut out, "subTitle", sub.as_str());
    push_str_field(&mut out, "description", sub.as_str());
    assert(fields_view(out@) =~= apk_head(fields_view(fields@), title@, pkg@));
    out
}

fn apk_tail_fields(out: &mut Vec<(String, Json)>, fields: &Vec<(String, Json)>, title: &str)
    ensures
        fields_view(final(out)@) == fields_view(old(out)@) + apk_tail(fields_view(fields@), title@),
{
    proof {
        reveal_strlit("");
        assert(""@ =~= Seq::<char>::empty());
    }
    let ghost start = fields_view(out@);
    let sck = ["score", "star", "rating"];
    assert(str_views(sck@) =~= seq!["score"@, "star"@, "rating"@]);
    let score = str_by_keys_or(fields, &sck, "9.0");
    let vk = ["apkversionname", "apkVersionName", "version", "versionName"];
    assert(str_views(vk@) =~= seq!["apkversionname"@, "apkVersionName"@, "version"@, "versionName"@]);
    let version = str_by_keys_or(fields, &vk, "");
    let zk = ["apksize", "apkSizeFormatted", "size", "apk_size"];
    assert(str_views(zk@) =~= seq!["apksize"@, "apkSizeFormatted"@, "size"@, "apk_size"@]);
    let size = str_by_keys_or(fields, &zk, "");
    let dk = ["downCount", "downCountFormatted", "downnum", "download_count"];
    assert(str_views(dk@) =~= seq!["downCount"@, "downCountFormatted"@, "downnum"@, "download_count"@]);
    let down = str_by_keys_or(fields, &dk, "");
    let (category, is_game, is_tool) = apk_flags(fields, title);
    let entity_type: String = match crate::feed::field_str(fields, "entityType") {
        Some(s) => s.to_string(),
        None => "apk".to_string(),
    };
    push_str_field(out, "score", score.as_str());
    push_str_field(out, "version", version.as_str());
    push_str_field(out, "apkSizeFormatted", size.as_str());
    push_str_field(out, "downCountFormatted", down.as_str());
    push_str_field(out, "category", category.as_str());
    push_bool_field(out, "isExplicitGame", is_game);
    push_bool_field(out, "isUtilityTool", is_tool);
    push_str_field(out, "entityType", entity_type.as_str());
    assert(fields_view(out@) =~= start + apk_tail(fields_view(fields@), title@));
}

/// `clean_single_apk`: the card of an app or game entry, or `None` when
/// it has no title or package name (see `cleaned_apk`).
pub fn clean_single_apk(item: &Json) -> (r: Option<Json>)
    ensures
        match r {
            Some(c) => cleaned_apk(json_view(*item)) == Some(json_view(c)),
            None => cleaned_apk(json_view(*item)) is None,
        },
{
    proof {
        lemma_views(*item);
    }
    let fields = match item {
        Json::Object(fields) => fields,
        _ => return None,
    };
    let tk = ["title", "shorttitle", "apkname", "label", "entityTitle"];
    assert(str_views(tk@) =~= title_keys());
    let title = match crate::json::get_str_by_keys(fields, &tk) {
        Some(t) => t,
        None => return None,
    };
    let pk = ["packageName", "apkname", "package_name", "id"];
    assert(str_views(pk@) =~= package_keys());
    let pkg = match crate::json::get_str_by_keys(fields, &pk) {
        Some(p) => p,
        None => return None,
    };
    let mut out = apk_head_fields(fields, title.as_str(), pkg.as_str());
    apk_tail_fields(&mut out, fields, title.as_str());
    let r = Json::Object(out);
    proof {
        lemma_views(r);
    }
    Some(r)
}

// ---------------------------------------------------------------------------
// Lists of entries
// ---------------------------------------------------------------------------

/// Which entries a list keeps: the game page drops game tools, the app
/// page drops games, other pages keep all.
pub open spec fn keep_for(mode: Seq<char>, is_game: bool, is_tool: bool) -> bool {
    if mode == "game"@ {
        !is_tool
    } else if mode == "app"@ {
        !is_game
    } else {
        true
    }
}

/// The card of one entry, when the list keeps it.
pub open spec fn apk_kept(item: JsonV, mode: Seq<char>) -> Seq<JsonV> {
    match item {
        JsonV::Object(f) => match cleaned_apk(item) {
            Some(c) => if keep_for(
                mode,
                apk_is_game(f),
                apk_is_tool(f, str_by_keys(f, title_keys())->0),
            ) {
                seq![c]
            } else {
                Seq::empty()
            },
            None => Seq::empty(),
        },
        _ => Seq::empty(),
    }
}

/// The kept cards of nested entries.
pub open spec fn entity_apks(es: Seq<JsonV>, mode: Seq<char>) -> Seq<JsonV>
    decreases es.len(),
{
    if es.len() == 0 {
        Seq::empty()
    } else {
        apk_kept(es[0], mode) + entity_apks(es.drop_first(), mode)
    }
}

/// The kept cards of a list: each object entry, then its `entities`.
pub open spec fn apk_list(items: Seq<JsonV>, mode: Seq<char>) -> Seq<JsonV>
    decreases items.len(),
{
    if items.len() == 0 {
        Seq::empty()
    } else {
        let it = items[0];
        let head = match it {
            JsonV::Object(f) => apk_kept(it, mode) + match field_value(f, "entities"@) {
                Some(JsonV::Array(es)) => entity_apks(es, mode),
                _ => Seq::empty(),
            },
            _ => Seq::empty(),
        };
        head + apk_list(items.drop_first(), mode)
    }
}

/// The entries of a response: its `data` array, or the response itself
/// when it is an array.
pub open spec fn response_items(data: JsonV) -> Seq<JsonV> {
    match get(data, "data"@) {
        Some(JsonV::Array(a)) => a,
        _ => match data {
            JsonV::Array(a) => a,
            _ => Seq::empty(),
        },
    }
}

fn apk_kept_of(item: &Json, mode: &str) -> (r: Option<Json>)
    ensures
        match r {
            Some(c) => apk_kept(json_view(*item), mode@) == seq![json_view(c)],
            None => apk_kept(json_view(*item), mode@) == Seq::<JsonV>::empty(),
        },
{
    proof {
        lemma_views(*item);
    }
    let fields = match item {
        Json::Object(fields) => fields,
        _ => return None,
    };
    let c = match clean_single_apk(item) {
        Some(c) => c,
        None => return None,
    };
    let tk = ["title", "shorttitle", "apkname", "label", "entityTitle"];
    assert(str_views(tk@) =~= title_keys());
    let title = match crate::json::get_str_by_keys(fields, &tk) {
        Some(t) => t,
        None => return None,
    };
    let (_, is_game, is_tool) = apk_flags(fields, title.as_str());
    let m = chars_of(mode);
    let keep = if crate::text::chars_eq_str(&m, "game") {
        !is_tool
    } else if crate::text::chars_eq_str(&m, "app") {
        !is_game
    } else {
        true
    };
    if keep {
        Some(c)
    } else {
        None
    }
}

fn push_apk(out: &mut Vec<Json>, item: &Json, mode: &str)
    ensures
        items_view(final(out)@) == items_view(old(out)@) + apk_kept(json_view(*item), mode@),
{
    let ghost before = items_view(out@);
    match apk_kept_of(item, mode) {
        Some(c) => {
            let ghost cv = json_view(c);
            out.push(c);
            assert(items_view(out@) =~= before + seq![cv]);
        },
        None => {
            assert(before + Seq::<JsonV>::empty() =~= before);
        },
    }
}

fn push_entity_apks(out: &mut Vec<Json>, es: &Vec<Json>, mode: &str)
    ensures
        items_view(final(out)@) == items_view(old(out)@) + entity_apks(items_view(es@), mode@),
{
    let ghost ev = items_view(es@);
    let ghost start = items_view(out@);
    let mut j: usize = 0;
    assert(ev.skip(0) =~= ev);
    assert(start + entity_apks(ev, mode@) =~= items_view(out@) + entity_apks(ev.skip(0), mode@));
    while j < es.len()
        invariant
            j <= es@.len(),
            ev == items_view(es@),
            ev.len() == es@.len(),
            start + entity_apks(ev, mode@) == items_view(out@) + entity_apks(ev.skip(j as int), mode@),
        decreases es@.len() - j,
    {
        let ghost rest = ev.skip(j as int);
        assert(rest[0] == json_view(es@[j as int]));
        assert(rest.drop_first() =~= ev.skip(j + 1));
        let ghost before = items_view(out@);
        push_apk(out, &es[j], mode);
        assert(items_view(out@) + entity_apks(ev.skip(j + 1), mode@) =~= before + entity_apks(
            rest,
            mode@,
        ));
        j += 1;
    }
    assert(ev.skip(j as int) =~= Seq::<JsonV>::empty());
    assert(items_view(out@) + entity_apks(ev.skip(j as int), mode@) =~= items_view(out@));
}

/// The entries of a response (see `response_items`).
fn response_items_of(json_data: &Json) -> (r: Option<&Vec<Json>>)
    ensures
        match r {
            Some(a) => items_view(a@) == response_items(json_view(*json_data)),
            None => response_items(json_view(*json_data)) == Seq::<JsonV>::empty(),
        },
{
    proof {
        lemma_views(*json_data);
    }
    if let Some(d) = json_data.get("data") {
        proof {
            lemma_views(*d);
        }
        if let Json::Array(a) = d {
            return Some(a);
        }
    }
    match json_data {
        Json::Array(a) => Some(a),
        _ => None,
    }
}

/// `extract_apk_list`: the app and game cards of a response, filtered
/// for the page (`game`, `app`, or anything else for all).
pub fn extract_apk_list(json_data: &Json, filter_mode: &str) -> (r: Vec<Json>)
    ensures
        items_view(r@) == apk_list(response_items(json_view(*json_data)), filter_mode@),
{
    let mut out: Vec<Json> = Vec::new();
    assert(items_view(out@) =~= Seq::<JsonV>::empty());
    let items = match response_items_of(json_data) {
        Some(a) => a,
        None => return out,
    };
    let ghost iv = items_view(items@);
    let mut i: usize = 0;
    assert(iv.skip(0) =~= iv);
    while i < items.len()
        invariant
            i <= items@.len(),
            iv == items_view(items@),
            iv.len() == items@.len(),
            apk_list(iv, filter_mode@) == items_view(out@) + apk_list(iv.skip(i as int), filter_mode@),
        decreases items@.len() - i,
    {
        let it = &items[i];
        proof {
            lemma_views(*it);
        }
        let ghost rest = iv.skip(i as int);
        assert(rest[0] == json_view(*it));
        assert(rest.drop_first() =~= iv.skip(i + 1));
        let ghost before = items_view(out@);
        if let Json::Object(f) = it {
            push_apk(&mut out, it, filter_mode);
            if let Some(e) = field_of(f, "entities") {
                proof {
                    lemma_views(*e);
                }
                if let Json::Array(es) = e {
                    push_entity_apks(&mut out, es, filter_mode);
                }
            }
        }
        assert(apk_list(iv, filter_mode@) =~= items_view(out@) + apk_list(iv.skip(i + 1), filter_mode@));
        i += 1;
    }
    assert(iv.skip(i as int) =~= Seq::<JsonV>::empty());
    assert(items_view(out@) + apk_list(iv.skip(i as int), filter_mode@) =~= items_view(out@));
    out
}

// ---------------------------------------------------------------------------
// App lists by category
// ---------------------------------------------------------------------------

/// The ranking page a category is read from first: the recommended and
/// newest apps have one, other categories none.
pub open spec fn app_rank_page(cat: Seq<char>) -> Option<Seq<char>> {
    if cat == "recommend"@ {
        Some("#/apk/rankList"@)
    } else if cat == "newest"@ {
        Some("#/apk/newestList"@)
    } else {
        None
    }
}

/// The search word a category falls back to.
pub open spec fn app_search_word(cat: Seq<char>) -> Seq<char> {
    if cat == "tools"@ {
        "系统工具"@
    } else if cat == "social"@ {
        "社交聊天"@
    } else if cat == "media"@ {
        "影音播放"@
    } else if cat == "beauty"@ {
        "主题美化"@
    } else if cat == "newest"@ {
        "应用"@
    } else {
        "常用应用"@
    }
}

/// Builds `app_rank_page`.
pub fn app_list_page_url(cat: &str) -> (r: Option<&'static str>)
    ensures
        match r {
            Some(u) => app_rank_page(cat@) == Some(u@),
            None => app_rank_page(cat@) is None,
        },
{
    let c = chars_of(cat);
    proof {
        reveal_strlit("recommend");
        reveal_strlit("newest");
    }
    if crate::text::chars_eq_str(&c, "recommend") {
        Some("#/apk/rankList")
    } else if crate::text::chars_eq_str(&c, "newest") {
        Some("#/apk/newestList")
    } else {
        None
    }
}

/// Builds `app_search_word`.
pub fn app_list_search_word(cat: &str) -> (r: &'static str)
    ensures
        r@ == app_search_word(cat@),
{
    let c = chars_of(cat);
    proof {
        reveal_strlit("tools");
        reveal_strlit("social");
        reveal_strlit("media");
        reveal_strlit("beauty");
        reveal_strlit("newest");
    }
    if crate::text::chars_eq_str(&c, "tools") {
        "系统工具"
    } else if crate::text::chars_eq_str(&c, "social") {
        "社交聊天"
    } else if crate::text::chars_eq_str(&c, "media") {
        "影音播放"
    } else if crate::text::chars_eq_str(&c, "beauty") {
        "主题美化"
    } else if crate::text::chars_eq_str(&c, "newest") {
        "应用"
    } else {
        "常用应用"
    }
}

/// The search word a game category is read from.
pub open spec fn game_search_word(game_type: Seq<char>) -> Seq<char> {
    if game_type == "new"@ {
        "新游戏"@
    } else if game_type == "single"@ {
        "单机游戏"@
    } else if game_type == "online"@ {
        "网游"@
    } else if game_type == "casual"@ {
        "休闲游戏"@
    } else if game_type == "indie"@ {
        "独立游戏"@
    } else {
        "手游"@
    }
}

/// Builds `game_search_word`.
pub fn game_list_search_word(game_type: &str) -> (r: &'static str)
    ensures
        r@ == game_search_word(game_type@),
{
    let c = chars_of(game_type);
    proof {
        reveal_strlit("new");
        reveal_strlit("single");
        reveal_strlit("online");
        reveal_strlit("casual");
        reveal_strlit("indie");
    }
    if crate::text::chars_eq_str(&c, "new") {
        "新游戏"
    } else if crate::text::chars_eq_str(&c, "single") {
        "单机游戏"
    } else if crate::text::chars_eq_str(&c, "online") {
        "网游"
    } else if crate::text::chars_eq_str(&c, "casual") {
        "休闲游戏"
    } else if crate::text::chars_eq_str(&c, "indie") {
        "独立游戏"
    } else {
        "手游"
    }
}

/// The query of an app or game search page (`/v6/search`).
pub open spec fn app_search_query(kind: Seq<char>, word: Seq<char>, page: u32) -> Seq<(Seq<char>, Seq<char>)> {
    seq![("type"@, kind), ("searchValue"@, word), ("page"@, dec(page as nat)), ("show_flag"@, "1"@)]
}

/// Builds `app_search_query`.
pub fn app_search_page_query(kind: &str, word: &str, page: u32) -> (r: Vec<(&'static str, String)>)
    ensures
        crate::text::params_view(r@) == app_search_query(kind@, word@, page),
{
    let mut q: Vec<(&'static str, String)> = Vec::new();
    q.push(("type", kind.to_string()));
    q.push(("searchValue", word.to_string()));
    q.push(("page", crate::text::u64_to_string(page as u64)));
    q.push(("show_flag", "1".to_string()));
    assert(crate::text::params_view(q@) =~= app_search_query(kind@, word@, page));
    q
}

/// The answer of an app or game list: code 200 and the kept apps of the
/// answer for the list's mode.
pub open spec fn app_list_answer(raw: JsonV, mode: Seq<char>) -> JsonV {
    JsonV::Object(
        seq![("code"@, crate::feed::count(200)), ("data"@, JsonV::Array(apk_list(response_items(raw), mode)))],
    )
}

/// Builds `app_list_answer`.
pub fn app_list_result(raw: &Json, mode: &str) -> (r: Json)
    ensures
        json_view(r) == app_list_answer(json_view(*raw), mode@),
{
    let apks = extract_apk_list(raw, mode);
    let ghost av = items_view(apks@);
    let data = Json::Array(apks);
    proof {
        lemma_views(data);
    }
    let mut out: Vec<(String, Json)> = Vec::new();
    assert(fields_view(out@) =~= Seq::<(Seq<char>, JsonV)>::empty());
    crate::feed::push_field(&mut out, "code", crate::feed::count_json(200));
    crate::feed::push_field(&mut out, "data", data);
    let ghost ov = fields_view(out@);
    let r = Json::Object(out);
    proof {
        lemma_views(r);
    }
    assert(ov =~= app_list_answer(json_view(*raw), mode@)->Object_0);
    r
}

} // verus!
