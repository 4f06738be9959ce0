//! Normalising feed items from the API into the shape the front end
//! renders.
//!
//! Items come in many shapes (feeds, articles, answers, ratings, cards);
//! each reader below says which keys it tries, in which order.

use vstd::prelude::*;
use crate::image::{normalize_coolapk_image_url, normalized_image_url};
use crate::json::{
    as_array, as_str, as_str_opt, field_of, field_value, fields_view, first_by_keys, get,
    get_opt, items_view, json_view, lemma_views, non_empty, str_by_keys, u64_by_keys, Json,
    JsonNumber, JsonV, NumberV,
};
use crate::text::{chars_of, push_str, str_views, starts_with, strip_leading};

verus! {

/// Fields of an object, in the model.
pub type FieldsV = Seq<(Seq<char>, JsonV)>;

// ---------------------------------------------------------------------------
// Small readers
// ---------------------------------------------------------------------------

/// `obj.get(key).and_then(Value::as_str)`.
pub open spec fn fstr(f: FieldsV, key: Seq<char>) -> Option<Seq<char>> {
    as_str_opt(field_value(f, key))
}

/// The first of `keys` holding a string (`get(a).and_then(as_str)
/// .or_else(|| get(b).and_then(as_str))...`).
pub open spec fn first_str(f: FieldsV, keys: Seq<Seq<char>>) -> Option<Seq<char>>
    decreases keys.len(),
{
    if keys.len() == 0 {
        None
    } else {
        match fstr(f, keys[0]) {
            Some(s) => Some(s),
            None => first_str(f, keys.drop_first()),
        }
    }
}

pub open spec fn or_empty(o: Option<Seq<char>>) -> Seq<char> {
    match o {
        Some(s) => s,
        None => Seq::empty(),
    }
}

/// `image_source_url`: an image reference made absolute, from a string or
/// from the first usable of an object's URL fields.
pub open spec fn image_source(v: JsonV) -> Option<Seq<char>> {
    match v {
        JsonV::Str(s) => normalized_image_url(s),
        JsonV::Object(f) => first_image_url(f, image_url_keys()),
        _ => None,
    }
}

pub open spec fn image_url_keys() -> Seq<Seq<char>> {
    seq![
        "sourceUrl"@,
        "source_url"@,
        "inSource"@,
        "in_source"@,
        "url"@,
        "pic"@,
        "imageUrl"@,
        "image_url"@,
        "src"@,
    ]
}

/// The first of `keys` holding a string that normalises to a URL.
pub open spec fn first_image_url(f: FieldsV, keys: Seq<Seq<char>>) -> Option<Seq<char>>
    decreases keys.len(),
{
    if keys.len() == 0 {
        None
    } else {
        match fstr(f, keys[0]) {
            Some(raw) => match normalized_image_url(raw) {
                Some(u) => Some(u),
                None => first_image_url(f, keys.drop_first()),
            },
            None => first_image_url(f, keys.drop_first()),
        }
    }
}

/// `obj.get(key).and_then(Value::as_str)`.
pub fn field_str<'a>(fields: &'a Vec<(String, Json)>, key: &str) -> (r: Option<&'a str>)
    ensures
        match r {
            Some(s) => fstr(fields_view(fields@), key@) == Some(s@),
            None => fstr(fields_view(fields@), key@) is None,
        },
{
    match field_of(fields, key) {
        Some(v) => v.as_str(),
        None => None,
    }
}

/// The first of `keys` holding a string.
pub fn first_field_str<'a>(fields: &'a Vec<(String, Json)>, keys: &[&str]) -> (r: Option<&'a str>)
    ensures
        match r {
            Some(s) => first_str(fields_view(fields@), str_views(keys@)) == Some(s@),
            None => first_str(fields_view(fields@), str_views(keys@)) is None,
        },
{
    let ghost ks = str_views(keys@);
    let mut i: usize = 0;
    assert(ks.skip(0) =~= ks);
    while i < keys.len()
        invariant
            i <= keys@.len(),
            ks == str_views(keys@),
            first_str(fields_view(fields@), ks) == first_str(fields_view(fields@), ks.skip(i as int)),
        decreases keys@.len() - i,
    {
        assert(ks.skip(i as int)[0] == keys@[i as int]@);
        assert(ks.skip(i as int).drop_first() =~= ks.skip(i + 1));
        if let Some(s) = field_str(fields, keys[i]) {
            return Some(s);
        }
        i += 1;
    }
    assert(ks.skip(i as int) =~= Seq::<Seq<char>>::empty());
    None
}

/// `image_source_url`.
pub fn image_source_url(value: &Json) -> (r: Option<String>)
    ensures
        match r {
            Some(u) => image_source(json_view(*value)) == Some(u@),
            None => image_source(json_view(*value)) is None,
        },
{
    proof {
        lemma_views(*value);
    }
    match value {
        Json::Str(s) => normalize_coolapk_image_url(s.as_str()),
        Json::Object(fields) => {
            let keys = [
                "sourceUrl",
                "source_url",
                "inSource",
                "in_source",
                "url",
                "pic",
                "imageUrl",
                "image_url",
                "src",
            ];
            let ghost ks = str_views(keys@);
            assert(ks =~= image_url_keys());
            let mut i: usize = 0;
            assert(ks.skip(0) =~= ks);
            while i < 9
                invariant
                    i <= 9,
                    keys@.len() == 9,
                    ks == str_views(keys@),
                    ks == image_url_keys(),
                    json_view(*value) == JsonV::Object(fields_view(fields@)),
                    first_image_url(fields_view(fields@), ks) == first_image_url(
                        fields_view(fields@),
                        ks.skip(i as int),
                    ),
                decreases 9 - i,
            {
                assert(ks.skip(i as int)[0] == keys@[i as int]@);
                assert(ks.skip(i as int).drop_first() =~= ks.skip(i + 1));
                if let Some(raw) = field_str(fields, keys[i]) {
                    if let Some(u) = normalize_coolapk_image_url(raw) {
                        return Some(u);
                    }
                }
                i += 1;
            }
            assert(ks.skip(9) =~= Seq::<Seq<char>>::empty());
            None
        },
        _ => None,
    }
}

// ---------------------------------------------------------------------------
// Building objects
// ---------------------------------------------------------------------------

/// `Map::insert`: the field replaced in place when the key is present,
/// else added at the end.
pub open spec fn insert_field(f: FieldsV, key: Seq<char>, v: JsonV) -> FieldsV {
    match index_of_key(f, key) {
        Some(i) => f.update(i, (key, v)),
        None => f.push((key, v)),
    }
}

/// Position of the first field named `key`.
pub open spec fn index_of_key(f: FieldsV, key: Seq<char>) -> Option<int>
    decreases f.len(),
{
    if f.len() == 0 {
        None
    } else if f[0].0 == key {
        Some(0)
    } else {
        match index_of_key(f.drop_first(), key) {
            Some(i) => Some(i + 1),
            None => None,
        }
    }
}

/// `copy_first_field`: the value of the first of `keys` present in `src`,
/// stored under `out_key`.
pub open spec fn copy_field(out: FieldsV, src: FieldsV, out_key: Seq<char>, keys: Seq<Seq<char>>) -> FieldsV {
    match first_by_keys(src, keys) {
        Some(v) => insert_field(out, out_key, v),
        None => out,
    }
}

proof fn lemma_index_of_key(f: FieldsV, key: Seq<char>, i: int)
    requires
        0 <= i <= f.len(),
        forall|j: int| 0 <= j < i ==> f[j].0 != key,
    ensures
        i < f.len() && f[i].0 == key ==> index_of_key(f, key) == Some(i),
        i == f.len() ==> index_of_key(f, key) is None,
    decreases f.len(),
{
    if f.len() > 0 && i > 0 {
        lemma_index_of_key(f.drop_first(), key, i - 1);
    }
}

pub(crate) fn index_of_field(fields: &Vec<(String, Json)>, key: &str) -> (r: Option<usize>)
    ensures
        match r {
            Some(i) => index_of_key(fields_view(fields@), key@) == Some(i as int) && i < fields@.len(),
            None => index_of_key(fields_view(fields@), key@) is None,
        },
{
    let ghost f = fields_view(fields@);
    let k = key.to_string();
    let mut i: usize = 0;
    while i < fields.len()
        invariant
            i <= fields@.len(),
            k@ == key@,
            f == fields_view(fields@),
            forall|j: int| 0 <= j < i ==> f[j].0 != key@,
        decreases fields@.len() - i,
    {
        if fields[i].0 == k {
            proof {
                lemma_index_at(f, key@, i as int);
            }
            return Some(i);
        }
        i += 1;
    }
    proof {
        lemma_index_none(f, key@);
    }
    None
}

proof fn lemma_index_at(f: Seq<(Seq<char>, JsonV)>, key: Seq<char>, i: int)
    requires
        0 <= i < f.len(),
        f[i].0 == key,
        forall|j: int| 0 <= j < i ==> f[j].0 != key,
    ensures
        index_of_key(f, key) == Some(i),
    decreases i,
{
    if i > 0 {
        lemma_index_at(f.drop_first(), key, i - 1);
    }
}

proof fn lemma_index_none(f: Seq<(Seq<char>, JsonV)>, key: Seq<char>)
    requires
        forall|j: int| 0 <= j < f.len() ==> f[j].0 != key,
    ensures
        index_of_key(f, key) is None,
    decreases f.len(),
{
    if f.len() > 0 {
        lemma_index_none(f.drop_first(), key);
    }
}

/// `Map::insert` on a field list.
pub fn insert_json_field(out: &mut Vec<(String, Json)>, key: &str, v: Json)
    ensures
        fields_view(final(out)@) == insert_field(fields_view(old(out)@), key@, json_view(v)),
{
    let ghost f = fields_view(out@);
    let ghost vv = json_view(v);
    let k = key.to_string();
    let mut i: usize = 0;
    while i < out.len()
        invariant
            i <= out@.len(),
            out@ == old(out)@,
            f == fields_view(out@),
            k@ == key@,
            vv == json_view(v),
            forall|j: int| 0 <= j < i ==> f[j].0 != key@,
        decreases out@.len() - i,
    {
        if out[i].0 == k {
            proof {
                lemma_index_of_key(f, key@, i as int);
            }
            let ghost before = out@;
            let pair = (k, v);
            assert(pair.0@ == key@ && json_view(pair.1) == vv);
            out.set(i, pair);
            assert(out@ == before.update(i as int, pair));
            assert(fields_view(out@) =~= f.update(i as int, (key@, vv)));
            return;
        }
        i += 1;
    }
    proof {
        lemma_index_of_key(f, key@, i as int);
    }
    out.push((k, v));
    assert(fields_view(out@) =~= f.push((key@, vv)));
}

/// `copy_first_field`.
pub fn copy_first_field(out: &mut Vec<(String, Json)>, src: &Vec<(String, Json)>, out_key: &str, keys: &[&str])
    ensures
        fields_view(final(out)@) == copy_field(
            fields_view(old(out)@),
            fields_view(src@),
            out_key@,
            str_views(keys@),
        ),
{
    match crate::json::first_value_by_keys(src, keys) {
        Some(v) => insert_json_field(out, out_key, v.deep_copy()),
        None => {},
    }
}

// ---------------------------------------------------------------------------
// The feed cleaner: model
// ---------------------------------------------------------------------------

/// The author object: `userInfo`, else `user`.
pub open spec fn user_info_of(f: FieldsV) -> Option<JsonV> {
    match field_value(f, "userInfo"@) {
        Some(v) => Some(v),
        None => field_value(f, "user"@),
    }
}

/// The author name fields, in order: `username`, the author object's
/// `username` and `name`, then `user_name`.
pub open spec fn feed_username(f: FieldsV, ui: Option<JsonV>) -> Option<Seq<char>> {
    match fstr(f, "username"@) {
        Some(s) => Some(s),
        None => match as_str_opt(get_opt(ui, "username"@)) {
            Some(s) => Some(s),
            None => match as_str_opt(get_opt(ui, "name"@)) {
                Some(s) => Some(s),
                None => fstr(f, "user_name"@),
            },
        },
    }
}

pub open spec fn uid_keys() -> Seq<Seq<char>> {
    seq!["uid"@, "userId"@, "user_id"@, "authorUid"@, "author_uid"@]
}

pub open spec fn info_uid_keys() -> Seq<Seq<char>> {
    seq!["uid"@, "userId"@, "user_id"@, "authorUid"@, "author_uid"@, "id"@]
}

/// The author id: from the item, else from the author object (which may
/// also call it `id`).
pub open spec fn feed_uid(f: FieldsV, ui: Option<JsonV>) -> Option<Seq<char>> {
    match str_by_keys(f, uid_keys()) {
        Some(u) => Some(u),
        None => match ui {
            Some(JsonV::Object(info)) => str_by_keys(info, info_uid_keys()),
            _ => None,
        },
    }
}

/// `entityType`, else `entity_type`, when a string; else empty.
pub open spec fn feed_entity_type(f: FieldsV) -> Seq<char> {
    or_empty(as_str_opt(first_by_keys(f, seq!["entityType"@, "entity_type"@])))
}

/// Cards, headers and banners are not feed items.
pub open spec fn is_placeholder(et: Seq<char>) -> bool {
    et == "card"@ || et == "header"@ || et == "card_title"@ || et == "banner"@
}

pub open spec fn is_news(et: Seq<char>) -> bool {
    et == "dyh"@ || et == "article"@ || et == "news"@
}

/// The name shown for an item: the author's name, else the column,
/// author or source of an article; news items without one are signed
/// `酷安快讯`; other items without a name are dropped (`None`).
pub open spec fn display_name(f: FieldsV, ui: Option<JsonV>, et: Seq<char>) -> Option<Seq<char>> {
    match feed_username(f, ui) {
        Some(u) if u.len() > 0 => Some(u),
        _ => match first_str(f, seq!["dyh_name"@, "author"@, "source"@]) {
            Some(n) => Some(n),
            None => if is_news(et) {
                Some("酷安快讯"@)
            } else {
                None
            },
        },
    }
}

pub open spec fn nonempty_array_at(f: FieldsV, key: Seq<char>) -> bool {
    match field_value(f, key) {
        Some(v) => match as_array(v) {
            Some(a) => a.len() > 0,
            None => false,
        },
        None => false,
    }
}

pub open spec fn any_non_empty(f: FieldsV, keys: Seq<Seq<char>>) -> bool {
    match first_by_keys(f, keys) {
        Some(v) => non_empty(v),
        None => false,
    }
}

pub open spec fn video_keys() -> Seq<Seq<char>> {
    seq![
        "videoUrl"@, "video_url"@, "videoURL"@, "videoSrc"@, "video_src"@, "videoPic"@,
        "video_pic"@, "videoCover"@, "video_cover"@, "videoThumbnail"@, "video_thumbnail"@,
        "videoDuration"@, "video_duration"@, "mediaUrl"@, "media_url"@, "mediaURL"@,
        "mediaPic"@, "media_pic"@, "mediaInfo"@, "media_info"@, "mediaType"@, "media_type"@,
        "video"@, "videoInfo"@, "video_info"@, "media"@,
    ]
}

pub open spec fn relation_keys() -> Seq<Seq<char>> {
    seq![
        "targetRow"@, "target_row"@, "relationRows"@, "relation_rows"@, "extraRows"@,
        "extra_rows"@, "productRows"@, "product_rows"@,
    ]
}

pub open spec fn rating_keys() -> Seq<Seq<char>> {
    seq![
        "rating_score"@, "ratingScore"@, "rating_item_info"@, "ratingItemInfo"@, "rating_type"@,
        "ratingType"@, "filter_rating"@, "filterRating"@, "v4_rating_message"@,
        "v4RatingMessage"@, "comment_addition"@, "commentAddition"@, "comment_good"@,
        "commentGood"@, "comment_general"@, "commentGeneral"@, "comment_bad"@, "commentBad"@,
        "comment_good_pic"@, "commentGoodPic"@, "comment_general_pic"@, "commentGeneralPic"@,
        "comment_bad_pic"@, "commentBadPic"@,
    ]
}

/// An item is kept only when it shows something: text, a title, pictures,
/// a video, a related object or a rating.
pub open spec fn has_content(f: FieldsV, message: Seq<char>, title: Seq<char>) -> bool {
    message.len() > 0 || title.len() > 0 || nonempty_array_at(f, "picArr"@) || nonempty_array_at(
        f,
        "imageUriList"@,
    ) || nonempty_array_at(f, "image_uri_list"@) || (match fstr(f, "pic"@) {
        Some(p) => p.len() > 0,
        None => false,
    }) || any_non_empty(f, video_keys()) || any_non_empty(f, relation_keys()) || any_non_empty(
        f,
        rating_keys(),
    )
}

/// An id given as a string or a non-negative integer.
pub open spec fn id_text(v: Option<JsonV>) -> Option<Seq<char>> {
    match v {
        Some(v) => match as_str(v) {
            Some(s) => Some(s),
            None => match crate::json::as_u64(v) {
                Some(n) => Some(crate::text::dec(n as nat)),
                None => None,
            },
        },
        None => None,
    }
}

/// `id`, else `entityId`, else `feed_<index>_<seconds>`.
pub open spec fn feed_id(f: FieldsV, idx: u64, now_secs: u64) -> Seq<char> {
    match id_text(field_value(f, "id"@)) {
        Some(s) => s,
        None => match id_text(field_value(f, "entityId"@)) {
            Some(s) => s,
            None => "feed_"@ + crate::text::dec(idx as nat) + seq!['_'] + crate::text::dec(
                now_secs as nat,
            ),
        },
    }
}

/// The avatar URL: kept when it starts with `http`, else a path on the
/// image host.
pub open spec fn avatar_url(f: FieldsV, ui: Option<JsonV>) -> Seq<char> {
    let raw = or_empty(
        match fstr(f, "userAvatar"@) {
            Some(s) => Some(s),
            None => as_str_opt(get_opt(ui, "userAvatar"@)),
        },
    );
    if starts_with(raw, "http"@) {
        raw
    } else if raw.len() > 0 {
        "https://image.coolapk.com/"@ + strip_leading(raw, '/')
    } else {
        Seq::empty()
    }
}

/// A picture list worth reading: a non-empty array, or another non-empty
/// value.
pub open spec fn usable_image_list(v: JsonV) -> bool {
    match as_array(v) {
        Some(a) => a.len() > 0,
        None => non_empty(v),
    }
}

/// The first of `keys` present whose value is a usable picture list.
pub open spec fn first_image_list(f: FieldsV, keys: Seq<Seq<char>>) -> Option<JsonV>
    decreases keys.len(),
{
    if keys.len() == 0 {
        None
    } else {
        match field_value(f, keys[0]) {
            Some(v) => if usable_image_list(v) {
                Some(v)
            } else {
                first_image_list(f, keys.drop_first())
            },
            None => first_image_list(f, keys.drop_first()),
        }
    }
}

/// The image URLs of a list, skipping entries that give none.
pub open spec fn image_urls(items: Seq<JsonV>) -> Seq<Seq<char>>
    decreases items.len(),
{
    if items.len() == 0 {
        Seq::empty()
    } else {
        match image_source(items[0]) {
            Some(u) => seq![u] + image_urls(items.drop_first()),
            None => image_urls(items.drop_first()),
        }
    }
}

/// The pictures of an item: from its picture list, else from `pic`.
pub open spec fn feed_pics(f: FieldsV) -> Seq<Seq<char>> {
    match first_image_list(f, seq!["imageUriList"@, "image_uri_list"@, "picArr"@]) {
        Some(JsonV::Array(items)) => image_urls(items),
        _ => match field_value(f, "pic"@) {
            Some(p) => match image_source(p) {
                Some(u) => seq![u],
                None => Seq::empty(),
            },
            None => Seq::empty(),
        },
    }
}

pub open spec fn str_array(s: Seq<Seq<char>>) -> JsonV {
    JsonV::Array(Seq::new(s.len(), |i: int| JsonV::Str(s[i])))
}

pub open spec fn count(n: u64) -> JsonV {
    JsonV::Number(NumberV::PosInt(n))
}

/// The fields every cleaned item has.
pub open spec fn base_fields(f: FieldsV, name: Seq<char>, idx: u64, now_secs: u64) -> FieldsV {
    base_head(f, name, idx, now_secs) + base_tail(f)
}

/// Identity, text and pictures.
pub open spec fn base_head(f: FieldsV, name: Seq<char>, idx: u64, now_secs: u64) -> FieldsV {
    let ui = user_info_of(f);
    seq![
        ("id"@, JsonV::Str(feed_id(f, idx, now_secs))),
        ("username"@, JsonV::Str(name)),
        ("userAvatar"@, JsonV::Str(avatar_url(f, ui))),
        ("userLevel"@, JsonV::Str(or_empty(str_by_keys(f, seq!["userLevel"@, "level"@, "user_level"@])))),
        ("verifyTitle"@, JsonV::Str(or_empty(as_str_opt(get_opt(ui, "verify_title"@))))),
        ("deviceTitle"@, JsonV::Str(or_empty(first_str(f, seq!["device_title"@, "device_name"@])))),
        ("title"@, JsonV::Str(or_empty(first_str(f, seq!["title"@, "entityTitle"@, "message_title"@])))),
        ("message"@, JsonV::Str(or_empty(first_str(f, seq!["message"@, "description"@, "subTitle"@])))),
        ("pics"@, str_array(feed_pics(f))),
        ("infoHtml"@, JsonV::Str(or_empty(fstr(f, "infoHtml"@)))),
    ]
}

/// Counters, state and classification.
pub open spec fn base_tail(f: FieldsV) -> FieldsV {
    base_counts(f) + base_state(f)
}

/// The counters of an item.
pub open spec fn base_counts(f: FieldsV) -> FieldsV {
    seq![
        ("likenum"@, count(u64_by_keys(f, seq!["likenum"@, "like_num"@, "likeNum"@, "likenum_count"@]))),
        ("replynum"@, count(u64_by_keys(f, seq!["replynum"@, "reply_num"@, "replyNum"@, "commentnum"@, "comment_num"@, "replynum_count"@]))),
        ("hitnum"@, count(u64_by_keys(f, seq!["hitnum"@, "clicknum"@, "read_num"@, "view_num"@, "hit_num"@]))),
        ("favnum"@, count(u64_by_keys(f, seq!["favnum"@, "fav_num"@, "favorite_num"@]))),
        ("sharenum"@, count(u64_by_keys(f, seq!["sharenum"@, "share_num"@]))),
        ("isTop"@, count(u64_by_keys(f, seq!["is_top"@, "isTop"@, "top"@]))),
        ("isModified"@, count(u64_by_keys(f, seq!["isModified"@, "is_modified"@]))),
        ("changeCount"@, count(u64_by_keys(f, seq!["change_count"@, "changeCount"@]))),
        ("lastChangeTime"@, count(u64_by_keys(f, seq!["last_change_time"@, "lastChangeTime"@]))),
    ]
}

/// The state and classification of an item.
pub open spec fn base_state(f: FieldsV) -> FieldsV {
    let ui = user_info_of(f);
    let et = feed_entity_type(f);
    seq![
        ("userAction"@, match first_by_keys(f, seq!["userAction"@, "user_action"@]) {
            Some(v) => v,
            None => JsonV::Object(Seq::empty()),
        }),
        ("entityType"@, JsonV::Str(if et.len() == 0 { "feed"@ } else { et })),
        ("trace"@, JsonV::Str(or_empty(as_str_opt(first_by_keys(f, seq!["trace"@, "extra_key"@, "extraKey"@]))))),
        ("targetType"@, JsonV::Str(or_empty(as_str_opt(get_opt(first_by_keys(f, seq!["targetRow"@, "target_row"@]), "title"@))))),
        ("uid"@, JsonV::Str(match feed_uid(f, ui) {
            Some(u) if u.len() > 0 => u,
            _ => "0"@,
        })),
        ("dateline"@, count(u64_by_keys(f, seq!["dateline"@, "create_time"@, "lastupdate"@, "createTime"@]))),
    ]
}

/// Whether some entry of a list is an object.
pub open spec fn has_object(a: Seq<JsonV>) -> bool {
    exists|j: int| 0 <= j < a.len() && crate::json::is_object(#[trigger] a[j])
}

/// Whether `picArr` is an array holding an object.
pub open spec fn pic_objects(f: FieldsV) -> bool {
    match field_value(f, "picArr"@) {
        Some(v) => match v {
            JsonV::Array(a) => has_object(a),
            _ => false,
        },
        None => false,
    }
}

/// The relation, media and answer fields an item keeps, each under one
/// name whatever the spelling it came with.
pub open spec fn media_copies(c: FieldsV, f: FieldsV) -> FieldsV {
    let c = copy_field(c, f, "targetRow"@, seq!["targetRow"@, "target_row"@]);
    let c = copy_field(c, f, "relationRows"@, seq!["relationRows"@, "relation_rows"@]);
    let c = copy_field(c, f, "extraRows"@, seq!["extraRows"@, "extra_rows"@]);
    let c = copy_field(c, f, "productRows"@, seq!["productRows"@, "product_rows"@]);
    let c = copy_field(c, f, "questionId"@, seq!["questionId"@, "question_id"@, "fid"@, "f_id"@]);
    let c = copy_field(c, f, "answerId"@, seq!["answerId"@, "answer_id"@]);
    let c = copy_field(c, f, "imageUriList"@, seq!["imageUriList"@, "image_uri_list"@]);
    let c = if field_value(c, "imageUriList"@) is None && pic_objects(f) {
        insert_field(c, "imageUriList"@, field_value(f, "picArr"@)->0)
    } else {
        c
    };
    let c = copy_field(c, f, "videoUrl"@, seq!["videoUrl"@, "video_url"@, "videoURL"@, "videoSrc"@, "video_src"@]);
    let c = copy_field(c, f, "videoPic"@, seq!["videoPic"@, "video_pic"@, "videoCover"@, "video_cover"@, "videoThumbnail"@, "video_thumbnail"@]);
    let c = copy_field(c, f, "videoDuration"@, seq!["videoDuration"@, "video_duration"@]);
    let c = copy_field(c, f, "mediaUrl"@, seq!["mediaUrl"@, "media_url"@, "mediaURL"@]);
    let c = copy_field(c, f, "mediaPic"@, seq!["mediaPic"@, "media_pic"@]);
    let c = copy_field(c, f, "mediaInfo"@, seq!["mediaInfo"@, "media_info"@]);
    let c = copy_field(c, f, "mediaType"@, seq!["mediaType"@, "media_type"@]);
    let c = copy_field(c, f, "feedType"@, seq!["feedType"@, "feed_type"@, "type"@]);
    let c = copy_field(c, f, "feedTypeName"@, seq!["feedTypeName"@, "feed_type_name"@]);
    let c = copy_field(c, f, "type"@, seq!["type"@]);
    let c = copy_field(c, f, "message_title"@, seq!["message_title"@, "messageTitle"@]);
    let c = copy_field(c, f, "message_raw_output"@, seq!["message_raw_output"@, "messageRawOutput"@]);
    c
}

/// The rating, vote and collection fields an item keeps.
pub open spec fn rating_copies(c: FieldsV, f: FieldsV) -> FieldsV {
    let c = copy_field(c, f, "ratingScore"@, seq!["rating_score"@, "ratingScore"@]);
    let c = copy_field(c, f, "ratingScore1"@, seq!["rating_score_1"@, "ratingScore1"@]);
    let c = copy_field(c, f, "ratingScore2"@, seq!["rating_score_2"@, "ratingScore2"@]);
    let c = copy_field(c, f, "ratingScore3"@, seq!["rating_score_3"@, "ratingScore3"@]);
    let c = copy_field(c, f, "ratingScore4"@, seq!["rating_score_4"@, "ratingScore4"@]);
    let c = copy_field(c, f, "ratingScore5"@, seq!["rating_score_5"@, "ratingScore5"@]);
    let c = copy_field(c, f, "ratingScore6"@, seq!["rating_score_6"@, "ratingScore6"@]);
    let c = copy_field(c, f, "ratingScore7"@, seq!["rating_score_7"@, "ratingScore7"@]);
    let c = copy_field(c, f, "ratingScore8"@, seq!["rating_score_8"@, "ratingScore8"@]);
    let c = copy_field(c, f, "ratingScore9"@, seq!["rating_score_9"@, "ratingScore9"@]);
    let c = copy_field(c, f, "ratingScore10"@, seq!["rating_score_10"@, "ratingScore10"@]);
    let c = copy_field(c, f, "ratingItemInfo"@, seq!["rating_item_info"@, "ratingItemInfo"@]);
    let c = copy_field(c, f, "ratingType"@, seq!["rating_type"@, "ratingType"@]);
    let c = copy_field(c, f, "filterRating"@, seq!["filter_rating"@, "filterRating"@]);
    let c = copy_field(c, f, "v4RatingMessage"@, seq!["v4_rating_message"@, "v4RatingMessage"@]);
    let c = copy_field(c, f, "v4HasRatingScore"@, seq!["v4_has_rating_score"@, "v4HasRatingScore"@]);
    let c = copy_field(c, f, "v4RatingTotalCount"@, seq!["v4_rating_total_count"@, "v4RatingTotalCount"@]);
    let c = copy_field(c, f, "v4RatingOwnerTotalCount"@, seq!["v4_rating_owner_total_count"@, "v4RatingOwnerTotalCount"@]);
    let c = copy_field(c, f, "isOwner"@, seq!["is_owner"@, "isOwner"@]);
    let c = copy_field(c, f, "showOwner"@, seq!["show_owner"@, "showOwner"@]);
    let c = copy_field(c, f, "commentAddition"@, seq!["comment_addition"@, "commentAddition"@]);
    let c = copy_field(c, f, "commentGood"@, seq!["comment_good"@, "commentGood"@]);
    let c = copy_field(c, f, "commentGoodPic"@, seq!["comment_good_pic"@, "commentGoodPic"@]);
    let c = copy_field(c, f, "commentGoodSource"@, seq!["comment_good_source"@, "commentGoodSource"@]);
    let c = copy_field(c, f, "commentGeneral"@, seq!["comment_general"@, "commentGeneral"@]);
    let c = copy_field(c, f, "commentGeneralPic"@, seq!["comment_general_pic"@, "commentGeneralPic"@]);
    let c = copy_field(c, f, "commentGeneralSource"@, seq!["comment_general_source"@, "commentGeneralSource"@]);
    let c = copy_field(c, f, "commentBad"@, seq!["comment_bad"@, "commentBad"@]);
    let c = copy_field(c, f, "commentBadPic"@, seq!["comment_bad_pic"@, "commentBadPic"@]);
    let c = copy_field(c, f, "commentBadSource"@, seq!["comment_bad_source"@, "commentBadSource"@]);
    let c = copy_field(c, f, "vote"@, seq!["vote"@]);
    let c = copy_field(c, f, "video"@, seq!["video"@]);
    let c = copy_field(c, f, "videoInfo"@, seq!["videoInfo"@, "video_info"@]);
    let c = copy_field(c, f, "media"@, seq!["media"@]);
    let c = copy_field(c, f, "feed"@, seq!["feed"@]);
    let c = copy_field(c, f, "collectionItem"@, seq!["collection_item_info"@, "collectionItemInfo"@, "collectionItem"@, "collection_item"@]);
    let c = copy_field(c, f, "collectionItemId"@, seq!["collectionItemId"@, "collection_item_id"@, "itemId"@, "item_id"@]);
    c
}

proof fn lemma_index_of_key_found(f: FieldsV, key: Seq<char>)
    ensures
        index_of_key(f, key) matches Some(i) ==> 0 <= i < f.len() && f[i].0 == key,
        index_of_key(f, key) is None ==> forall|j: int| 0 <= j < f.len() ==> f[j].0 != key,
    decreases f.len(),
{
    if f.len() > 0 {
        lemma_index_of_key_found(f.drop_first(), key);
        if f[0].0 != key {
            assert forall|j: int| 1 <= j < f.len() implies f[j] == f.drop_first()[j - 1] by {}
        }
    }
}

/// Setting a field leaves every other field's value as it was.
broadcast proof fn lemma_insert_keeps(c: FieldsV, k: Seq<char>, v: JsonV, key: Seq<char>)
    requires
        k != key,
    ensures
        #[trigger] field_value(insert_field(c, k, v), key) == field_value(c, key),
    decreases c.len(),
{
    let d = insert_field(c, k, v);
    lemma_index_of_key_found(c, k);
    if c.len() == 0 {
        assert(d.len() == 1 && d[0] == (k, v));
        assert(d.drop_first() =~= Seq::<(Seq<char>, JsonV)>::empty());
        assert(field_value(d, key) == field_value(d.drop_first(), key));
    } else if c[0].0 == k {
        assert(index_of_key(c, k) == Some(0int));
        assert(d == c.update(0, (k, v)));
        assert(d.drop_first() =~= c.drop_first());
        assert(field_value(d, key) == field_value(d.drop_first(), key));
        assert(field_value(c, key) == field_value(c.drop_first(), key));
    } else {
        lemma_insert_keeps(c.drop_first(), k, v, key);
        lemma_index_of_key_found(c.drop_first(), k);
        match index_of_key(c.drop_first(), k) {
            Some(i) => {
                assert(index_of_key(c, k) == Some(i + 1));
                assert(d.drop_first() =~= insert_field(c.drop_first(), k, v));
            },
            None => {
                assert(index_of_key(c, k) is None);
                assert(d.drop_first() =~= insert_field(c.drop_first(), k, v));
            },
        }
        assert(d[0] == c[0]);
    }
}

/// Copying a field under another name leaves every other field's value as
/// it was.
broadcast proof fn lemma_copy_keeps(c: FieldsV, src: FieldsV, k: Seq<char>, keys: Seq<Seq<char>>, key: Seq<char>)
    requires
        k != key,
    ensures
        #[trigger] field_value(copy_field(c, src, k, keys), key) == field_value(c, key),
{
    if first_by_keys(src, keys) is Some {
        lemma_insert_keeps(c, k, first_by_keys(src, keys)->0, key);
    }
}

proof fn lemma_head_counts(f: FieldsV, name: Seq<char>, idx: u64, now_secs: u64)
    ensures
        field_value(base_fields(f, name, idx, now_secs), "likenum"@) == Some(count(u64_by_keys(f, seq!["likenum"@, "like_num"@, "likeNum"@, "likenum_count"@]))),
        field_value(base_fields(f, name, idx, now_secs), "replynum"@) == Some(count(u64_by_keys(f, seq!["replynum"@, "reply_num"@, "replyNum"@, "commentnum"@, "comment_num"@, "replynum_count"@]))),
{
    reveal_strlit("deviceTitle");
    reveal_strlit("id");
    reveal_strlit("infoHtml");
    reveal_strlit("likenum");
    reveal_strlit("message");
    reveal_strlit("pics");
    reveal_strlit("replynum");
    reveal_strlit("title");
    reveal_strlit("userAvatar");
    reveal_strlit("userLevel");
    reveal_strlit("username");
    reveal_strlit("verifyTitle");
    assert("deviceTitle"@.len() == 11);
    assert("id"@.len() == 2);
    assert("infoHtml"@.len() == 8);
    assert("likenum"@.len() == 7);
    assert("message"@.len() == 7);
    assert("pics"@.len() == 4);
    assert("replynum"@.len() == 8);
    assert("title"@.len() == 5);
    assert("userAvatar"@.len() == 10);
    assert("userLevel"@.len() == 9);
    assert("username"@.len() == 8);
    assert("verifyTitle"@.len() == 11);
    assert("infoHtml"@[0] != "replynum"@[0]);
    assert("message"@[0] != "likenum"@[0]);
    assert("username"@[0] != "replynum"@[0]);
    reveal_with_fuel(field_value, 13);
}

proof fn lemma_media_keeps_counts(c: FieldsV, f: FieldsV, key: Seq<char>)
    requires
        key == "likenum"@ || key == "replynum"@,
    ensures
        field_value(media_copies(c, f), key) == field_value(c, key),
{
    broadcast use lemma_copy_keeps, lemma_insert_keeps;
    reveal_strlit("answerId");
    reveal_strlit("extraRows");
    reveal_strlit("feedType");
    reveal_strlit("feedTypeName");
    reveal_strlit("imageUriList");
    reveal_strlit("likenum");
    reveal_strlit("mediaInfo");
    reveal_strlit("mediaPic");
    reveal_strlit("mediaType");
    reveal_strlit("mediaUrl");
    reveal_strlit("message_raw_output");
    reveal_strlit("message_title");
    reveal_strlit("productRows");
    reveal_strlit("questionId");
    reveal_strlit("relationRows");
    reveal_strlit("replynum");
    reveal_strlit("targetRow");
    reveal_strlit("type");
    reveal_strlit("videoDuration");
    reveal_strlit("videoPic");
    reveal_strlit("videoUrl");
    assert("answerId"@.len() == 8);
    assert("extraRows"@.len() == 9);
    assert("feedType"@.len() == 8);
    assert("feedTypeName"@.len() == 12);
    assert("imageUriList"@.len() == 12);
    assert("likenum"@.len() == 7);
    assert("mediaInfo"@.len() == 9);
    assert("mediaPic"@.len() == 8);
    assert("mediaType"@.len() == 9);
    assert("mediaUrl"@.len() == 8);
    assert("message_raw_output"@.len() == 18);
    assert("message_title"@.len() == 13);
    assert("productRows"@.len() == 11);
    assert("questionId"@.len() == 10);
    assert("relationRows"@.len() == 12);
    assert("replynum"@.len() == 8);
    assert("targetRow"@.len() == 9);
    assert("type"@.len() == 4);
    assert("videoDuration"@.len() == 13);
    assert("videoPic"@.len() == 8);
    assert("videoUrl"@.len() == 8);
    assert("answerId"@[0] != "replynum"@[0]);
    assert("feedType"@[0] != "replynum"@[0]);
    assert("mediaPic"@[0] != "replynum"@[0]);
    assert("mediaUrl"@[0] != "replynum"@[0]);
    assert("videoPic"@[0] != "replynum"@[0]);
    assert("videoUrl"@[0] != "replynum"@[0]);
    let c1 = copy_field(c, f, "targetRow"@, seq!["targetRow"@, "target_row"@]);
    let c2 = copy_field(c1, f, "relationRows"@, seq!["relationRows"@, "relation_rows"@]);
    let c3 = copy_field(c2, f, "extraRows"@, seq!["extraRows"@, "extra_rows"@]);
    let c4 = copy_field(c3, f, "productRows"@, seq!["productRows"@, "product_rows"@]);
    let c5 = copy_field(c4, f, "questionId"@, seq!["questionId"@, "question_id"@, "fid"@, "f_id"@]);
    let c6 = copy_field(c5, f, "answerId"@, seq!["answerId"@, "answer_id"@]);
    let c7 = copy_field(c6, f, "imageUriList"@, seq!["imageUriList"@, "image_uri_list"@]);
    let c8 = if field_value(c7, "imageUriList"@) is None && pic_objects(f) {
        insert_field(c7, "imageUriList"@, field_value(f, "picArr"@)->0)
    } else {
        c7
    };
    let c9 = copy_field(c8, f, "videoUrl"@, seq!["videoUrl"@, "video_url"@, "videoURL"@, "videoSrc"@, "video_src"@]);
    let c10 = copy_field(c9, f, "videoPic"@, seq!["videoPic"@, "video_pic"@, "videoCover"@, "video_cover"@, "videoThumbnail"@, "video_thumbnail"@]);
    let c11 = copy_field(c10, f, "videoDuration"@, seq!["videoDuration"@, "video_duration"@]);
    let c12 = copy_field(c11, f, "mediaUrl"@, seq!["mediaUrl"@, "media_url"@, "mediaURL"@]);
    let c13 = copy_field(c12, f, "mediaPic"@, seq!["mediaPic"@, "media_pic"@]);
    let c14 = copy_field(c13, f, "mediaInfo"@, seq!["mediaInfo"@, "media_info"@]);
    let c15 = copy_field(c14, f, "mediaType"@, seq!["mediaType"@, "media_type"@]);
    let c16 = copy_field(c15, f, "feedType"@, seq!["feedType"@, "feed_type"@, "type"@]);
    let c17 = copy_field(c16, f, "feedTypeName"@, seq!["feedTypeName"@, "feed_type_name"@]);
    let c18 = copy_field(c17, f, "type"@, seq!["type"@]);
    let c19 = copy_field(c18, f, "message_title"@, seq!["message_title"@, "messageTitle"@]);
    let c20 = copy_field(c19, f, "message_raw_output"@, seq!["message_raw_output"@, "messageRawOutput"@]);
    assert(media_copies(c, f) == c20);
}

proof fn lemma_rating_keeps_counts(c: FieldsV, f: FieldsV, key: Seq<char>)
    requires
        key == "likenum"@ || key == "replynum"@,
    ensures
        field_value(rating_copies(c, f), key) == field_value(c, key),
{
    broadcast use lemma_copy_keeps;
    reveal_strlit("collectionItem");
    reveal_strlit("collectionItemId");
    reveal_strlit("commentAddition");
    reveal_strlit("commentBad");
    reveal_strlit("commentBadPic");
    reveal_strlit("commentBadSource");
    reveal_strlit("commentGeneral");
    reveal_strlit("commentGeneralPic");
    reveal_strlit("commentGeneralSource");
    reveal_strlit("commentGood");
    reveal_strlit("commentGoodPic");
    reveal_strlit("commentGoodSource");
    reveal_strlit("feed");
    reveal_strlit("filterRating");
    reveal_strlit("isOwner");
    reveal_strlit("likenum");
    reveal_strlit("media");
    reveal_strlit("ratingItemInfo");
    reveal_strlit("ratingScore");
    reveal_strlit("ratingScore1");
    reveal_strlit("ratingScore10");
    reveal_strlit("ratingScore2");
    reveal_strlit("ratingScore3");
    reveal_strlit("ratingScore4");
    reveal_strlit("ratingScore5");
    reveal_strlit("ratingScore6");
    reveal_strlit("ratingScore7");
    reveal_strlit("ratingScore8");
    reveal_strlit("ratingScore9");
    reveal_strlit("ratingType");
    reveal_strlit("replynum");
    reveal_strlit("showOwner");
    reveal_strlit("v4HasRatingScore");
    reveal_strlit("v4RatingMessage");
    reveal_strlit("v4RatingOwnerTotalCount");
    reveal_strlit("v4RatingTotalCount");
    reveal_strlit("video");
    reveal_strlit("videoInfo");
    reveal_strlit("vote");
    assert("collectionItem"@.len() == 14);
    assert("collectionItemId"@.len() == 16);
    assert("commentAddition"@.len() == 15);
    assert("commentBad"@.len() == 10);
    assert("commentBadPic"@.len() == 13);
    assert("commentBadSource"@.len() == 16);
    assert("commentGeneral"@.len() == 14);
    assert("commentGeneralPic"@.len() == 17);
    assert("commentGeneralSource"@.len() == 20);
    assert("commentGood"@.len() == 11);
    assert("commentGoodPic"@.len() == 14);
    assert("commentGoodSource"@.len() == 17);
    assert("feed"@.len() == 4);
    assert("filterRating"@.len() == 12);
    assert("isOwner"@.len() == 7);
    assert("likenum"@.len() == 7);
    assert("media"@.len() == 5);
    assert("ratingItemInfo"@.len() == 14);
    assert("ratingScore"@.len() == 11);
    assert("ratingScore1"@.len() == 12);
    assert("ratingScore10"@.len() == 13);
    assert("ratingScore2"@.len() == 12);
    assert("ratingScore3"@.len() == 12);
    assert("ratingScore4"@.len() == 12);
    assert("ratingScore5"@.len() == 12);
    assert("ratingScore6"@.len() == 12);
    assert("ratingScore7"@.len() == 12);
    assert("ratingScore8"@.len() == 12);
    assert("ratingScore9"@.len() == 12);
    assert("ratingType"@.len() == 10);
    assert("replynum"@.len() == 8);
    assert("showOwner"@.len() == 9);
    assert("v4HasRatingScore"@.len() == 16);
    assert("v4RatingMessage"@.len() == 15);
    assert("v4RatingOwnerTotalCount"@.len() == 23);
    assert("v4RatingTotalCount"@.len() == 18);
    assert("video"@.len() == 5);
    assert("videoInfo"@.len() == 9);
    assert("vote"@.len() == 4);
    assert("isOwner"@[0] != "likenum"@[0]);
    let c1 = copy_field(c, f, "ratingScore"@, seq!["rating_score"@, "ratingScore"@]);
    let c2 = copy_field(c1, f, "ratingScore1"@, seq!["rating_score_1"@, "ratingScore1"@]);
    let c3 = copy_field(c2, f, "ratingScore2"@, seq!["rating_score_2"@, "ratingScore2"@]);
    let c4 = copy_field(c3, f, "ratingScore3"@, seq!["rating_score_3"@, "ratingScore3"@]);
    let c5 = copy_field(c4, f, "ratingScore4"@, seq!["rating_score_4"@, "ratingScore4"@]);
    let c6 = copy_field(c5, f, "ratingScore5"@, seq!["rating_score_5"@, "ratingScore5"@]);
    let c7 = copy_field(c6, f, "ratingScore6"@, seq!["rating_score_6"@, "ratingScore6"@]);
    let c8 = copy_field(c7, f, "ratingScore7"@, seq!["rating_score_7"@, "ratingScore7"@]);
    let c9 = copy_field(c8, f, "ratingScore8"@, seq!["rating_score_8"@, "ratingScore8"@]);
    let c10 = copy_field(c9, f, "ratingScore9"@, seq!["rating_score_9"@, "ratingScore9"@]);
    let c11 = copy_field(c10, f, "ratingScore10"@, seq!["rating_score_10"@, "ratingScore10"@]);
    let c12 = copy_field(c11, f, "ratingItemInfo"@, seq!["rating_item_info"@, "ratingItemInfo"@]);
    let c13 = copy_field(c12, f, "ratingType"@, seq!["rating_type"@, "ratingType"@]);
    let c14 = copy_field(c13, f, "filterRating"@, seq!["filter_rating"@, "filterRating"@]);
    let c15 = copy_field(c14, f, "v4RatingMessage"@, seq!["v4_rating_message"@, "v4RatingMessage"@]);
    let c16 = copy_field(c15, f, "v4HasRatingScore"@, seq!["v4_has_rating_score"@, "v4HasRatingScore"@]);
    let c17 = copy_field(c16, f, "v4RatingTotalCount"@, seq!["v4_rating_total_count"@, "v4RatingTotalCount"@]);
    let c18 = copy_field(c17, f, "v4RatingOwnerTotalCount"@, seq!["v4_rating_owner_total_count"@, "v4RatingOwnerTotalCount"@]);
    let c19 = copy_field(c18, f, "isOwner"@, seq!["is_owner"@, "isOwner"@]);
    let c20 = copy_field(c19, f, "showOwner"@, seq!["show_owner"@, "showOwner"@]);
    let c21 = copy_field(c20, f, "commentAddition"@, seq!["comment_addition"@, "commentAddition"@]);
    let c22 = copy_field(c21, f, "commentGood"@, seq!["comment_good"@, "commentGood"@]);
    let c23 = copy_field(c22, f, "commentGoodPic"@, seq!["comment_good_pic"@, "commentGoodPic"@]);
    let c24 = copy_field(c23, f, "commentGoodSource"@, seq!["comment_good_source"@, "commentGoodSource"@]);
    let c25 = copy_field(c24, f, "commentGeneral"@, seq!["comment_general"@, "commentGeneral"@]);
    let c26 = copy_field(c25, f, "commentGeneralPic"@, seq!["comment_general_pic"@, "commentGeneralPic"@]);
    let c27 = copy_field(c26, f, "commentGeneralSource"@, seq!["comment_general_source"@, "commentGeneralSource"@]);
    let c28 = copy_field(c27, f, "commentBad"@, seq!["comment_bad"@, "commentBad"@]);
    let c29 = copy_field(c28, f, "commentBadPic"@, seq!["comment_bad_pic"@, "commentBadPic"@]);
    let c30 = copy_field(c29, f, "commentBadSource"@, seq!["comment_bad_source"@, "commentBadSource"@]);
    let c31 = copy_field(c30, f, "vote"@, seq!["vote"@]);
    let c32 = copy_field(c31, f, "video"@, seq!["video"@]);
    let c33 = copy_field(c32, f, "videoInfo"@, seq!["videoInfo"@, "video_info"@]);
    let c34 = copy_field(c33, f, "media"@, seq!["media"@]);
    let c35 = copy_field(c34, f, "feed"@, seq!["feed"@]);
    let c36 = copy_field(c35, f, "collectionItem"@, seq!["collection_item_info"@, "collectionItemInfo"@, "collectionItem"@, "collection_item"@]);
    let c37 = copy_field(c36, f, "collectionItemId"@, seq!["collectionItemId"@, "collection_item_id"@, "itemId"@, "item_id"@]);
    assert(rating_copies(c, f) == c37);
}

/// A cleaned item shows the item's own counters: its like count is the
/// first unsigned number among `likenum`, `like_num`, `likeNum` and
/// `likenum_count` (0 when there is none), and its reply count the first
/// among `replynum`, `reply_num`, `replyNum`, `commentnum`, `comment_num`
/// and `replynum_count`.
pub proof fn law_cleaned_feed_counts(item: JsonV, idx: u64, now_secs: u64)
    requires
        cleaned_feed(item, idx, now_secs) is Some,
    ensures
        item matches JsonV::Object(f) && get(cleaned_feed(item, idx, now_secs)->0, "likenum"@) == Some(
            JsonV::Number(NumberV::PosInt(u64_by_keys(f, seq!["likenum"@, "like_num"@, "likeNum"@, "likenum_count"@]))),
        ) && get(cleaned_feed(item, idx, now_secs)->0, "replynum"@) == Some(
            JsonV::Number(NumberV::PosInt(u64_by_keys(f, seq!["replynum"@, "reply_num"@, "replyNum"@, "commentnum"@, "comment_num"@, "replynum_count"@]))),
        ),
{
    let f = item->Object_0;
    let name = display_name(f, user_info_of(f), feed_entity_type(f))->0;
    let c0 = base_fields(f, name, idx, now_secs);
    let c1 = media_copies(c0, f);
    lemma_head_counts(f, name, idx, now_secs);
    lemma_media_keeps_counts(c0, f, "likenum"@);
    lemma_media_keeps_counts(c0, f, "replynum"@);
    lemma_rating_keeps_counts(c1, f, "likenum"@);
    lemma_rating_keeps_counts(c1, f, "replynum"@);
}

proof fn lemma_pic_objects(f: FieldsV, a: Seq<JsonV>)
    requires
        field_value(f, "picArr"@) == Some(JsonV::Array(a)),
    ensures
        pic_objects(f) == has_object(a),
{
}

/// `picArr` kept as `imageUriList` when no picture list was copied and
/// its entries are objects.
fn keep_object_pictures(out: &mut Vec<(String, Json)>, fields: &Vec<(String, Json)>)
    ensures
        fields_view(final(out)@) == if field_value(fields_view(old(out)@), "imageUriList"@) is None
            && pic_objects(fields_view(fields@)) {
            insert_field(
                fields_view(old(out)@),
                "imageUriList"@,
                field_value(fields_view(fields@), "picArr"@)->0,
            )
        } else {
            fields_view(old(out)@)
        },
{
    if field_of(out, "imageUriList").is_some() {
        return;
    }
    let pic_arr = match field_of(fields, "picArr") {
        Some(v) => v,
        None => return,
    };
    proof {
        lemma_views(*pic_arr);
    }
    let items = match pic_arr {
        Json::Array(items) => items,
        _ => return,
    };
    let ghost iv = crate::json::items_view(items@);
    let mut i: usize = 0;
    let mut any = false;
    while i < items.len()
        invariant
            i <= items@.len(),
            iv == crate::json::items_view(items@),
            iv.len() == items@.len(),
            any <==> exists|k: int| 0 <= k < i && crate::json::is_object(#[trigger] iv[k]),
        decreases items@.len() - i,
    {
        proof {
            lemma_views(items@[i as int]);
        }
        let is_obj = match &items[i] {
            Json::Object(_) => true,
            _ => false,
        };
        assert(is_obj == crate::json::is_object(iv[i as int]));
        if is_obj {
            any = true;
        }
        i += 1;
    }
    assert(field_value(fields_view(fields@), "picArr"@) == Some(JsonV::Array(iv)));
    proof {
        lemma_pic_objects(fields_view(fields@), iv);
    }
    assert(any ==> pic_objects(fields_view(fields@))) by {
        if any {
            let k = choose|k: int| 0 <= k < i && crate::json::is_object(#[trigger] iv[k]);
            assert(crate::json::is_object(iv[k]));
            assert(exists|j: int| 0 <= j < iv.len() && crate::json::is_object(#[trigger] iv[j]));
        }
    }
    assert(pic_objects(fields_view(fields@)) ==> any) by {
        if pic_objects(fields_view(fields@)) {
            let k = choose|k: int| 0 <= k < iv.len() && crate::json::is_object(#[trigger] iv[k]);
            assert(0 <= k < i && crate::json::is_object(iv[k]));
        }
    }
    if any {
        insert_json_field(out, "imageUriList", pic_arr.deep_copy());
    }
}

/// Copies the relation, media and answer fields.
fn append_media_copies(out: &mut Vec<(String, Json)>, fields: &Vec<(String, Json)>)
    ensures
        fields_view(final(out)@) == media_copies(fields_view(old(out)@), fields_view(fields@)),
{
    {
        let keys = ["targetRow", "target_row"];
        assert(str_views(keys@) =~= seq!["targetRow"@, "target_row"@]);
        copy_first_field(out, fields, "targetRow", &keys);
    }
    {
        let keys = ["relationRows", "relation_rows"];
        assert(str_views(keys@) =~= seq!["relationRows"@, "relation_rows"@]);
        copy_first_field(out, fields, "relationRows", &keys);
    }
    {
        let keys = ["extraRows", "extra_rows"];
        assert(str_views(keys@) =~= seq!["extraRows"@, "extra_rows"@]);
        copy_first_field(out, fields, "extraRows", &keys);
    }
    {
        let keys = ["productRows", "product_rows"];
        assert(str_views(keys@) =~= seq!["productRows"@, "product_rows"@]);
        copy_first_field(out, fields, "productRows", &keys);
    }
    {
        let keys = ["questionId", "question_id", "fid", "f_id"];
        assert(str_views(keys@) =~= seq!["questionId"@, "question_id"@, "fid"@, "f_id"@]);
        copy_first_field(out, fields, "questionId", &keys);
    }
    {
        let keys = ["answerId", "answer_id"];
        assert(str_views(keys@) =~= seq!["answerId"@, "answer_id"@]);
        copy_first_field(out, fields, "answerId", &keys);
    }
    {
        let keys = ["imageUriList", "image_uri_list"];
        assert(str_views(keys@) =~= seq!["imageUriList"@, "image_uri_list"@]);
        copy_first_field(out, fields, "imageUriList", &keys);
    }
    let ghost before_pic = fields_view(out@);
    keep_object_pictures(out, fields);
    {
        let keys = ["videoUrl", "video_url", "videoURL", "videoSrc", "video_src"];
        assert(str_views(keys@) =~= seq!["videoUrl"@, "video_url"@, "videoURL"@, "videoSrc"@, "video_src"@]);
        copy_first_field(out, fields, "videoUrl", &keys);
    }
    {
        let keys = ["videoPic", "video_pic", "videoCover", "video_cover", "videoThumbnail", "video_thumbnail"];
        assert(str_views(keys@) =~= seq!["videoPic"@, "video_pic"@, "videoCover"@, "video_cover"@, "videoThumbnail"@, "video_thumbnail"@]);
        copy_first_field(out, fields, "videoPic", &keys);
    }
    {
        let keys = ["videoDuration", "video_duration"];
        assert(str_views(keys@) =~= seq!["videoDuration"@, "video_duration"@]);
        copy_first_field(out, fields, "videoDuration", &keys);
    }
    {
        let keys = ["mediaUrl", "media_url", "mediaURL"];
        assert(str_views(keys@) =~= seq!["mediaUrl"@, "media_url"@, "mediaURL"@]);
        copy_first_field(out, fields, "mediaUrl", &keys);
    }
    {
        let keys = ["mediaPic", "media_pic"];
        assert(str_views(keys@) =~= seq!["mediaPic"@, "media_pic"@]);
        copy_first_field(out, fields, "mediaPic", &keys);
    }
    {
        let keys = ["mediaInfo", "media_info"];
        assert(str_views(keys@) =~= seq!["mediaInfo"@, "media_info"@]);
        copy_first_field(out, fields, "mediaInfo", &keys);
    }
    {
        let keys = ["mediaType", "media_type"];
        assert(str_views(keys@) =~= seq!["mediaType"@, "media_type"@]);
        copy_first_field(out, fields, "mediaType", &keys);
    }
    {
        let keys = ["feedType", "feed_type", "type"];
        assert(str_views(keys@) =~= seq!["feedType"@, "feed_type"@, "type"@]);
        copy_first_field(out, fields, "feedType", &keys);
    }
    {
        let keys = ["feedTypeName", "feed_type_name"];
        assert(str_views(keys@) =~= seq!["feedTypeName"@, "feed_type_name"@]);
        copy_first_field(out, fields, "feedTypeName", &keys);
    }
    {
        let keys = ["type"];
        assert(str_views(keys@) =~= seq!["type"@]);
        copy_first_field(out, fields, "type", &keys);
    }
    {
        let keys = ["message_title", "messageTitle"];
        assert(str_views(keys@) =~= seq!["message_title"@, "messageTitle"@]);
        copy_first_field(out, fields, "message_title", &keys);
    }
    {
        let keys = ["message_raw_output", "messageRawOutput"];
        assert(str_views(keys@) =~= seq!["message_raw_output"@, "messageRawOutput"@]);
        copy_first_field(out, fields, "message_raw_output", &keys);
    }
}

/// Copies the rating, vote and collection fields.
fn append_rating_copies(out: &mut Vec<(String, Json)>, fields: &Vec<(String, Json)>)
    ensures
        fields_view(final(out)@) == rating_copies(fields_view(old(out)@), fields_view(fields@)),
{
    {
        let keys = ["rating_score", "ratingScore"];
        assert(str_views(keys@) =~= seq!["rating_score"@, "ratingScore"@]);
        copy_first_field(out, fields, "ratingScore", &keys);
    }
    {
        let keys = ["rating_score_1", "ratingScore1"];
        assert(str_views(keys@) =~= seq!["rating_score_1"@, "ratingScore1"@]);
        copy_first_field(out, fields, "ratingScore1", &keys);
    }
    {
        let keys = ["rating_score_2", "ratingScore2"];
        assert(str_views(keys@) =~= seq!["rating_score_2"@, "ratingScore2"@]);
        copy_first_field(out, fields, "ratingScore2", &keys);
    }
    {
        let keys = ["rating_score_3", "ratingScore3"];
        assert(str_views(keys@) =~= seq!["rating_score_3"@, "ratingScore3"@]);
        copy_first_field(out, fields, "ratingScore3", &keys);
    }
    {
        let keys = ["rating_score_4", "ratingScore4"];
        assert(str_views(keys@) =~= seq!["rating_score_4"@, "ratingScore4"@]);
        copy_first_field(out, fields, "ratingScore4", &keys);
    }
    {
        let keys = ["rating_score_5", "ratingScore5"];
        assert(str_views(keys@) =~= seq!["rating_score_5"@, "ratingScore5"@]);
        copy_first_field(out, fields, "ratingScore5", &keys);
    }
    {
        let keys = ["rating_score_6", "ratingScore6"];
        assert(str_views(keys@) =~= seq!["rating_score_6"@, "ratingScore6"@]);
        copy_first_field(out, fields, "ratingScore6", &keys);
    }
    {
        let keys = ["rating_score_7", "ratingScore7"];
        assert(str_views(keys@) =~= seq!["rating_score_7"@, "ratingScore7"@]);
        copy_first_field(out, fields, "ratingScore7", &keys);
    }
    {
        let keys = ["rating_score_8", "ratingScore8"];
        assert(str_views(keys@) =~= seq!["rating_score_8"@, "ratingScore8"@]);
        copy_first_field(out, fields, "ratingScore8", &keys);
    }
    {
        let keys = ["rating_score_9", "ratingScore9"];
        assert(str_views(keys@) =~= seq!["rating_score_9"@, "ratingScore9"@]);
        copy_first_field(out, fields, "ratingScore9", &keys);
    }
    {
        let keys = ["rating_score_10", "ratingScore10"];
        assert(str_views(keys@) =~= seq!["rating_score_10"@, "ratingScore10"@]);
        copy_first_field(out, fields, "ratingScore10", &keys);
    }
    {
        let keys = ["rating_item_info", "ratingItemInfo"];
        assert(str_views(keys@) =~= seq!["rating_item_info"@, "ratingItemInfo"@]);
        copy_first_field(out, fields, "ratingItemInfo", &keys);
    }
    {
        let keys = ["rating_type", "ratingType"];
        assert(str_views(keys@) =~= seq!["rating_type"@, "ratingType"@]);
        copy_first_field(out, fields, "ratingType", &keys);
    }
    {
        let keys = ["filter_rating", "filterRating"];
        assert(str_views(keys@) =~= seq!["filter_rating"@, "filterRating"@]);
        copy_first_field(out, fields, "filterRating", &keys);
    }
    {
        let keys = ["v4_rating_message", "v4RatingMessage"];
        assert(str_views(keys@) =~= seq!["v4_rating_message"@, "v4RatingMessage"@]);
        copy_first_field(out, fields, "v4RatingMessage", &keys);
    }
    {
        let keys = ["v4_has_rating_score", "v4HasRatingScore"];
        assert(str_views(keys@) =~= seq!["v4_has_rating_score"@, "v4HasRatingScore"@]);
        copy_first_field(out, fields, "v4HasRatingScore", &keys);
    }
    {
        let keys = ["v4_rating_total_count", "v4RatingTotalCount"];
        assert(str_views(keys@) =~= seq!["v4_rating_total_count"@, "v4RatingTotalCount"@]);
        copy_first_field(out, fields, "v4RatingTotalCount", &keys);
    }
    {
        let keys = ["v4_rating_owner_total_count", "v4RatingOwnerTotalCount"];
        assert(str_views(keys@) =~= seq!["v4_rating_owner_total_count"@, "v4RatingOwnerTotalCount"@]);
        copy_first_field(out, fields, "v4RatingOwnerTotalCount", &keys);
    }
    {
        let keys = ["is_owner", "isOwner"];
        assert(str_views(keys@) =~= seq!["is_owner"@, "isOwner"@]);
        copy_first_field(out, fields, "isOwner", &keys);
    }
    {
        let keys = ["show_owner", "showOwner"];
        assert(str_views(keys@) =~= seq!["show_owner"@, "showOwner"@]);
        copy_first_field(out, fields, "showOwner", &keys);
    }
    {
        let keys = ["comment_addition", "commentAddition"];
        assert(str_views(keys@) =~= seq!["comment_addition"@, "commentAddition"@]);
        copy_first_field(out, fields, "commentAddition", &keys);
    }
    {
        let keys = ["comment_good", "commentGood"];
        assert(str_views(keys@) =~= seq!["comment_good"@, "commentGood"@]);
        copy_first_field(out, fields, "commentGood", &keys);
    }
    {
        let keys = ["comment_good_pic", "commentGoodPic"];
        assert(str_views(keys@) =~= seq!["comment_good_pic"@, "commentGoodPic"@]);
        copy_first_field(out, fields, "commentGoodPic", &keys);
    }
    {
        let keys = ["comment_good_source", "commentGoodSource"];
        assert(str_views(keys@) =~= seq!["comment_good_source"@, "commentGoodSource"@]);
        copy_first_field(out, fields, "commentGoodSource", &keys);
    }
    {
        let keys = ["comment_general", "commentGeneral"];
        assert(str_views(keys@) =~= seq!["comment_general"@, "commentGeneral"@]);
        copy_first_field(out, fields, "commentGeneral", &keys);
    }
    {
        let keys = ["comment_general_pic", "commentGeneralPic"];
        assert(str_views(keys@) =~= seq!["comment_general_pic"@, "commentGeneralPic"@]);
        copy_first_field(out, fields, "commentGeneralPic", &keys);
    }
    {
        let keys = ["comment_general_source", "commentGeneralSource"];
        assert(str_views(keys@) =~= seq!["comment_general_source"@, "commentGeneralSource"@]);
        copy_first_field(out, fields, "commentGeneralSource", &keys);
    }
    {
        let keys = ["comment_bad", "commentBad"];
        assert(str_views(keys@) =~= seq!["comment_bad"@, "commentBad"@]);
        copy_first_field(out, fields, "commentBad", &keys);
    }
    {
        let keys = ["comment_bad_pic", "commentBadPic"];
        assert(str_views(keys@) =~= seq!["comment_bad_pic"@, "commentBadPic"@]);
        copy_first_field(out, fields, "commentBadPic", &keys);
    }
    {
        let keys = ["comment_bad_source", "commentBadSource"];
        assert(str_views(keys@) =~= seq!["comment_bad_source"@, "commentBadSource"@]);
        copy_first_field(out, fields, "commentBadSource", &keys);
    }
    {
        let keys = ["vote"];
        assert(str_views(keys@) =~= seq!["vote"@]);
        copy_first_field(out, fields, "vote", &keys);
    }
    {
        let keys = ["video"];
        assert(str_views(keys@) =~= seq!["video"@]);
        copy_first_field(out, fields, "video", &keys);
    }
    {
        let keys = ["videoInfo", "video_info"];
        assert(str_views(keys@) =~= seq!["videoInfo"@, "video_info"@]);
        copy_first_field(out, fields, "videoInfo", &keys);
    }
    {
        let keys = ["media"];
        assert(str_views(keys@) =~= seq!["media"@]);
        copy_first_field(out, fields, "media", &keys);
    }
    {
        let keys = ["feed"];
        assert(str_views(keys@) =~= seq!["feed"@]);
        copy_first_field(out, fields, "feed", &keys);
    }
    {
        let keys = ["collection_item_info", "collectionItemInfo", "collectionItem", "collection_item"];
        assert(str_views(keys@) =~= seq!["collection_item_info"@, "collectionItemInfo"@, "collectionItem"@, "collection_item"@]);
        copy_first_field(out, fields, "collectionItem", &keys);
    }
    {
        let keys = ["collectionItemId", "collection_item_id", "itemId", "item_id"];
        assert(str_views(keys@) =~= seq!["collectionItemId"@, "collection_item_id"@, "itemId"@, "item_id"@]);
        copy_first_field(out, fields, "collectionItemId", &keys);
    }
}

// ---------------------------------------------------------------------------
// The feed cleaner: readers
// ---------------------------------------------------------------------------

pub open spec fn json_opt(o: Option<&Json>) -> Option<JsonV> {
    match o {
        Some(j) => Some(json_view(*j)),
        None => None,
    }
}

pub(crate) fn user_info<'a>(fields: &'a Vec<(String, Json)>) -> (r: Option<&'a Json>)
    ensures
        json_opt(r) == user_info_of(fields_view(fields@)),
{
    match field_of(fields, "userInfo") {
        Some(v) => Some(v),
        None => field_of(fields, "user"),
    }
}

/// `ui.and_then(|u| u.get(key)).and_then(Value::as_str)`.
pub(crate) fn info_str<'a>(ui: Option<&'a Json>, key: &str) -> (r: Option<&'a str>)
    ensures
        match r {
            Some(s) => as_str_opt(get_opt(json_opt(ui), key@)) == Some(s@),
            None => as_str_opt(get_opt(json_opt(ui), key@)) is None,
        },
{
    match ui {
        Some(u) => match u.get(key) {
            Some(v) => v.as_str(),
            None => None,
        },
        None => None,
    }
}

fn feed_username_of<'a>(fields: &'a Vec<(String, Json)>, ui: Option<&'a Json>) -> (r: Option<&'a str>)
    ensures
        match r {
            Some(s) => feed_username(fields_view(fields@), json_opt(ui)) == Some(s@),
            None => feed_username(fields_view(fields@), json_opt(ui)) is None,
        },
{
    if let Some(s) = field_str(fields, "username") {
        return Some(s);
    }
    if let Some(s) = info_str(ui, "username") {
        return Some(s);
    }
    if let Some(s) = info_str(ui, "name") {
        return Some(s);
    }
    field_str(fields, "user_name")
}

fn feed_uid_of(fields: &Vec<(String, Json)>, ui: Option<&Json>) -> (r: Option<String>)
    ensures
        match r {
            Some(s) => feed_uid(fields_view(fields@), json_opt(ui)) == Some(s@),
            None => feed_uid(fields_view(fields@), json_opt(ui)) is None,
        },
{
    let keys = ["uid", "userId", "user_id", "authorUid", "author_uid"];
    assert(str_views(keys@) =~= uid_keys());
    if let Some(u) = crate::json::get_str_by_keys(fields, &keys) {
        return Some(u);
    }
    match ui {
        Some(u) => {
            proof {
                lemma_views(*u);
            }
            match u {
                Json::Object(info) => {
                    let info_keys = ["uid", "userId", "user_id", "authorUid", "author_uid", "id"];
                    assert(str_views(info_keys@) =~= info_uid_keys());
                    crate::json::get_str_by_keys(info, &info_keys)
                },
                _ => None,
            }
        },
        None => None,
    }
}

fn feed_entity_type_of<'a>(fields: &'a Vec<(String, Json)>) -> (r: &'a str)
    ensures
        r@ == feed_entity_type(fields_view(fields@)),
{
    let keys = ["entityType", "entity_type"];
    assert(str_views(keys@) =~= seq!["entityType"@, "entity_type"@]);
    proof {
        reveal_strlit("");
        assert(""@ =~= Seq::<char>::empty());
    }
    match crate::json::first_value_by_keys(fields, &keys) {
        Some(v) => match v.as_str() {
            Some(s) => s,
            None => "",
        },
        None => "",
    }
}

fn is_placeholder_type(et: &str) -> (r: bool)
    ensures
        r == is_placeholder(et@),
{
    let c = chars_of(et);
    crate::text::chars_eq_str(&c, "card") || crate::text::chars_eq_str(&c, "header")
        || crate::text::chars_eq_str(&c, "card_title") || crate::text::chars_eq_str(&c, "banner")
}

fn is_news_type(et: &str) -> (r: bool)
    ensures
        r == is_news(et@),
{
    let c = chars_of(et);
    crate::text::chars_eq_str(&c, "dyh") || crate::text::chars_eq_str(&c, "article")
        || crate::text::chars_eq_str(&c, "news")
}

fn display_name_of(fields: &Vec<(String, Json)>, ui: Option<&Json>, et: &str) -> (r: Option<String>)
    ensures
        match r {
            Some(s) => display_name(fields_view(fields@), json_opt(ui), et@) == Some(s@),
            None => display_name(fields_view(fields@), json_opt(ui), et@) is None,
        },
{
    if let Some(u) = feed_username_of(fields, ui) {
        if !u.is_empty() {
            return Some(u.to_string());
        }
    }
    let keys = ["dyh_name", "author", "source"];
    assert(str_views(keys@) =~= seq!["dyh_name"@, "author"@, "source"@]);
    if let Some(n) = first_field_str(fields, &keys) {
        return Some(n.to_string());
    }
    if is_news_type(et) {
        Some("酷安快讯".to_string())
    } else {
        None
    }
}

fn nonempty_array_field(fields: &Vec<(String, Json)>, key: &str) -> (r: bool)
    ensures
        r == nonempty_array_at(fields_view(fields@), key@),
{
    match field_of(fields, key) {
        Some(v) => {
            proof {
                lemma_views(*v);
            }
            match v {
                Json::Array(items) => items.len() > 0,
                _ => false,
            }
        },
        None => false,
    }
}

fn has_content_of(fields: &Vec<(String, Json)>, message: &str, title: &str) -> (r: bool)
    ensures
        r == has_content(fields_view(fields@), message@, title@),
{
    let video = [
        "videoUrl", "video_url", "videoURL", "videoSrc", "video_src", "videoPic", "video_pic",
        "videoCover", "video_cover", "videoThumbnail", "video_thumbnail", "videoDuration",
        "video_duration", "mediaUrl", "media_url", "mediaURL", "mediaPic", "media_pic",
        "mediaInfo", "media_info", "mediaType", "media_type", "video", "videoInfo", "video_info",
        "media",
    ];
    assert(str_views(video@) =~= video_keys());
    let relation = [
        "targetRow", "target_row", "relationRows", "relation_rows", "extraRows", "extra_rows",
        "productRows", "product_rows",
    ];
    assert(str_views(relation@) =~= relation_keys());
    let rating = [
        "rating_score", "ratingScore", "rating_item_info", "ratingItemInfo", "rating_type",
        "ratingType", "filter_rating", "filterRating", "v4_rating_message", "v4RatingMessage",
        "comment_addition", "commentAddition", "comment_good", "commentGood", "comment_general",
        "commentGeneral", "comment_bad", "commentBad", "comment_good_pic", "commentGoodPic",
        "comment_general_pic", "commentGeneralPic", "comment_bad_pic", "commentBadPic",
    ];
    assert(str_views(rating@) =~= rating_keys());
    let single_pic = match field_str(fields, "pic") {
        Some(p) => !p.is_empty(),
        None => false,
    };
    !message.is_empty() || !title.is_empty() || nonempty_array_field(fields, "picArr")
        || nonempty_array_field(fields, "imageUriList") || nonempty_array_field(
        fields,
        "image_uri_list",
    ) || single_pic || crate::json::has_any_non_empty_field(fields, &video)
        || crate::json::has_any_non_empty_field(fields, &relation)
        || crate::json::has_any_non_empty_field(fields, &rating)
}

fn id_text_of(v: Option<&Json>) -> (r: Option<String>)
    ensures
        match r {
            Some(s) => id_text(json_opt(v)) == Some(s@),
            None => id_text(json_opt(v)) is None,
        },
{
    match v {
        Some(v) => match v {
            Json::Str(s) => Some(s.clone()),
            Json::Number(JsonNumber::PosInt(n)) => Some(crate::text::u64_to_string(*n)),
            _ => None,
        },
        None => None,
    }
}

fn feed_id_of(fields: &Vec<(String, Json)>, idx: u64, now_secs: u64) -> (r: String)
    ensures
        r@ == feed_id(fields_view(fields@), idx, now_secs),
{
    if let Some(s) = id_text_of(field_of(fields, "id")) {
        return s;
    }
    if let Some(s) = id_text_of(field_of(fields, "entityId")) {
        return s;
    }
    let mut out = "feed_".to_string();
    crate::text::push_dec(&mut out, idx);
    crate::text::push_char(&mut out, '_');
    crate::text::push_dec(&mut out, now_secs);
    out
}

pub(crate) fn avatar_of(fields: &Vec<(String, Json)>, ui: Option<&Json>) -> (r: String)
    ensures
        r@ == avatar_url(fields_view(fields@), json_opt(ui)),
{
    proof {
        reveal_strlit("");
        assert(""@ =~= Seq::<char>::empty());
    }
    let raw: &str = match field_str(fields, "userAvatar") {
        Some(s) => s,
        None => match info_str(ui, "userAvatar") {
            Some(s) => s,
            None => "",
        },
    };
    let cs = chars_of(raw);
    if crate::text::chars_start_with(&cs, "http") {
        return raw.to_string();
    }
    if cs.len() == 0 {
        return String::new();
    }
    let n = cs.len();
    let start = crate::text::strip_leading_range(&cs, 0, n, '/');
    assert(cs@.subrange(0, n as int) =~= cs@);
    let mut out = "https://image.coolapk.com/".to_string();
    crate::text::push_range(&mut out, &cs, start, n);
    out
}

pub open spec fn string_views(v: Seq<String>) -> Seq<Seq<char>> {
    v.map_values(|s: String| s@)
}

fn usable_image_list_value(v: &Json) -> (r: bool)
    ensures
        r == usable_image_list(json_view(*v)),
{
    proof {
        lemma_views(*v);
    }
    match v {
        Json::Array(items) => items.len() > 0,
        _ => crate::json::has_non_empty_json_value(v),
    }
}

fn first_image_list_of<'a>(fields: &'a Vec<(String, Json)>) -> (r: Option<&'a Json>)
    ensures
        json_opt(r) == first_image_list(
            fields_view(fields@),
            seq!["imageUriList"@, "image_uri_list"@, "picArr"@],
        ),
{
    let keys = ["imageUriList", "image_uri_list", "picArr"];
    let ghost ks = str_views(keys@);
    assert(ks =~= seq!["imageUriList"@, "image_uri_list"@, "picArr"@]);
    let mut i: usize = 0;
    assert(ks.skip(0) =~= ks);
    while i < 3
        invariant
            i <= 3,
            keys@.len() == 3,
            ks == str_views(keys@),
            ks == seq!["imageUriList"@, "image_uri_list"@, "picArr"@],
            first_image_list(fields_view(fields@), ks) == first_image_list(
                fields_view(fields@),
                ks.skip(i as int),
            ),
        decreases 3 - i,
    {
        assert(ks.skip(i as int)[0] == keys@[i as int]@);
        assert(ks.skip(i as int).drop_first() =~= ks.skip(i + 1));
        if let Some(v) = field_of(fields, keys[i]) {
            if usable_image_list_value(v) {
                return Some(v);
            }
        }
        i += 1;
    }
    assert(ks.skip(3) =~= Seq::<Seq<char>>::empty());
    None
}

fn image_urls_of(items: &Vec<Json>) -> (r: Vec<String>)
    ensures
        string_views(r@) == image_urls(items_view(items@)),
{
    let ghost iv = items_view(items@);
    let mut out: Vec<String> = Vec::new();
    let mut i: usize = 0;
    assert(iv.skip(0) =~= iv);
    assert(string_views(out@) =~= Seq::<Seq<char>>::empty());
    while i < items.len()
        invariant
            i <= items@.len(),
            iv == items_view(items@),
            iv.len() == items@.len(),
            image_urls(iv) == string_views(out@) + image_urls(iv.skip(i as int)),
        decreases items@.len() - i,
    {
        let ghost rest = iv.skip(i as int);
        assert(rest[0] == json_view(items@[i as int]));
        assert(rest.drop_first() =~= iv.skip(i + 1));
        let ghost before = out@;
        match image_source_url(&items[i]) {
            Some(u) => {
                let ghost uv = u@;
                out.push(u);
                assert(string_views(out@) =~= string_views(before).push(uv));
                assert(image_urls(iv) =~= string_views(out@) + image_urls(iv.skip(i + 1)));
            },
            None => {},
        }
        i += 1;
    }
    assert(iv.skip(i as int) =~= Seq::<JsonV>::empty());
    assert(string_views(out@) =~= image_urls(iv));
    out
}

fn feed_pics_of(fields: &Vec<(String, Json)>) -> (r: Vec<String>)
    ensures
        string_views(r@) == feed_pics(fields_view(fields@)),
{
    if let Some(list) = first_image_list_of(fields) {
        proof {
            lemma_views(*list);
        }
        if let Json::Array(items) = list {
            return image_urls_of(items);
        }
    }
    let mut out: Vec<String> = Vec::new();
    if let Some(p) = field_of(fields, "pic") {
        if let Some(u) = image_source_url(p) {
            let ghost uv = u@;
            out.push(u);
            assert(string_views(out@) =~= seq![uv]);
            return out;
        }
    }
    assert(string_views(out@) =~= Seq::<Seq<char>>::empty());
    out
}

/// A JSON array of strings.
pub(crate) fn string_array(v: Vec<String>) -> (r: Json)
    ensures
        json_view(r) == str_array(string_views(v@)),
{
    let mut items: Vec<Json> = Vec::new();
    let mut i: usize = 0;
    while i < v.len()
        invariant
            i <= v@.len(),
            items@.len() == i,
            forall|k: int| 0 <= k < i ==> json_view(#[trigger] items@[k]) == JsonV::Str(v@[k]@),
        decreases v@.len() - i,
    {
        items.push(Json::Str(v[i].clone()));
        i += 1;
    }
    let r = Json::Array(items);
    proof {
        lemma_views(r);
        assert(items_view(items@) =~= Seq::new(
            string_views(v@).len(),
            |k: int| JsonV::Str(string_views(v@)[k]),
        ));
    }
    r
}

pub(crate) fn count_json(n: u64) -> (r: Json)
    ensures
        json_view(r) == count(n),
{
    Json::Number(JsonNumber::PosInt(n))
}

pub(crate) fn opt_str_json(o: Option<&str>) -> (r: Json)
    ensures
        json_view(r) == JsonV::Str(
            match o {
                Some(s) => s@,
                None => Seq::empty(),
            },
        ),
{
    match o {
        Some(s) => Json::Str(s.to_string()),
        None => Json::Str(String::new()),
    }
}


// ---------------------------------------------------------------------------
// The feed cleaner
// ---------------------------------------------------------------------------

/// What an item becomes: `None` for cards, headers, banners, items
/// without an author that are not news, and items without content;
/// otherwise the common fields followed by the copied ones.
pub open spec fn cleaned_feed(item: JsonV, idx: u64, now_secs: u64) -> Option<JsonV> {
    match item {
        JsonV::Object(f) => {
            let ui = user_info_of(f);
            let et = feed_entity_type(f);
            if is_placeholder(et) {
                None
            } else {
                match display_name(f, ui, et) {
                    None => None,
                    Some(name) => {
                        let message = or_empty(first_str(f, seq!["message"@, "description"@, "subTitle"@]));
                        let title = or_empty(first_str(f, seq!["title"@, "entityTitle"@, "message_title"@]));
                        if !has_content(f, message, title) {
                            None
                        } else {
                            Some(JsonV::Object(rating_copies(media_copies(base_fields(f, name, idx, now_secs), f), f)))
                        }
                    },
                }
            }
        },
        _ => None,
    }
}

pub(crate) fn push_field(out: &mut Vec<(String, Json)>, key: &str, v: Json)
    ensures
        fields_view(final(out)@) == fields_view(old(out)@).push((key@, json_view(v))),
{
    let ghost before = fields_view(out@);
    let ghost vv = json_view(v);
    out.push((key.to_string(), v));
    assert(fields_view(out@) =~= before.push((key@, vv)));
}

fn base_head_fields(fields: &Vec<(String, Json)>, name: String, idx: u64, now_secs: u64) -> (r: Vec<
    (String, Json),
>)
    ensures
        fields_view(r@) == base_head(fields_view(fields@), name@, idx, now_secs),
{
    let ghost f = fields_view(fields@);
    let ui = user_info(fields);
    let mut out: Vec<(String, Json)> = Vec::new();
    assert(fields_view(out@) =~= Seq::<(Seq<char>, JsonV)>::empty());
    push_field(&mut out, "id", Json::Str(feed_id_of(fields, idx, now_secs)));
    push_field(&mut out, "username", Json::Str(name));
    push_field(&mut out, "userAvatar", Json::Str(avatar_of(fields, ui)));
    let level_keys = ["userLevel", "level", "user_level"];
    assert(str_views(level_keys@) =~= seq!["userLevel"@, "level"@, "user_level"@]);
    let level = match crate::json::get_str_by_keys(fields, &level_keys) {
        Some(l) => l,
        None => String::new(),
    };
    push_field(&mut out, "userLevel", Json::Str(level));
    push_field(&mut out, "verifyTitle", opt_str_json(info_str(ui, "verify_title")));
    let device_keys = ["device_title", "device_name"];
    assert(str_views(device_keys@) =~= seq!["device_title"@, "device_name"@]);
    push_field(&mut out, "deviceTitle", opt_str_json(first_field_str(fields, &device_keys)));
    let title_keys = ["title", "entityTitle", "message_title"];
    assert(str_views(title_keys@) =~= seq!["title"@, "entityTitle"@, "message_title"@]);
    push_field(&mut out, "title", opt_str_json(first_field_str(fields, &title_keys)));
    let message_keys = ["message", "description", "subTitle"];
    assert(str_views(message_keys@) =~= seq!["message"@, "description"@, "subTitle"@]);
    push_field(&mut out, "message", opt_str_json(first_field_str(fields, &message_keys)));
    push_field(&mut out, "pics", string_array(feed_pics_of(fields)));
    push_field(&mut out, "infoHtml", opt_str_json(field_str(fields, "infoHtml")));
    assert(fields_view(out@) =~= base_head(f, name@, idx, now_secs));
    out
}

fn base_count_fields(out: &mut Vec<(String, Json)>, fields: &Vec<(String, Json)>)
    ensures
        fields_view(final(out)@) == fields_view(old(out)@) + base_counts(fields_view(fields@)),
{
    let ghost f = fields_view(fields@);
    let ghost start = fields_view(out@);
    let k1 = ["likenum", "like_num", "likeNum", "likenum_count"];
    assert(str_views(k1@) =~= seq!["likenum"@, "like_num"@, "likeNum"@, "likenum_count"@]);
    push_field(out, "likenum", count_json(crate::json::get_u64_by_keys(fields, &k1)));
    let k2 = ["replynum", "reply_num", "replyNum", "commentnum", "comment_num", "replynum_count"];
    assert(str_views(k2@) =~= seq!["replynum"@, "reply_num"@, "replyNum"@, "commentnum"@, "comment_num"@, "replynum_count"@]);
    push_field(out, "replynum", count_json(crate::json::get_u64_by_keys(fields, &k2)));
    let k3 = ["hitnum", "clicknum", "read_num", "view_num", "hit_num"];
    assert(str_views(k3@) =~= seq!["hitnum"@, "clicknum"@, "read_num"@, "view_num"@, "hit_num"@]);
    push_field(out, "hitnum", count_json(crate::json::get_u64_by_keys(fields, &k3)));
    let k4 = ["favnum", "fav_num", "favorite_num"];
    assert(str_views(k4@) =~= seq!["favnum"@, "fav_num"@, "favorite_num"@]);
    push_field(out, "favnum", count_json(crate::json::get_u64_by_keys(fields, &k4)));
    let k5 = ["sharenum", "share_num"];
    assert(str_views(k5@) =~= seq!["sharenum"@, "share_num"@]);
    push_field(out, "sharenum", count_json(crate::json::get_u64_by_keys(fields, &k5)));
    let k6 = ["is_top", "isTop", "top"];
    assert(str_views(k6@) =~= seq!["is_top"@, "isTop"@, "top"@]);
    push_field(out, "isTop", count_json(crate::json::get_u64_by_keys(fields, &k6)));
    let k7 = ["isModified", "is_modified"];
    assert(str_views(k7@) =~= seq!["isModified"@, "is_modified"@]);
    push_field(out, "isModified", count_json(crate::json::get_u64_by_keys(fields, &k7)));
    let k8 = ["change_count", "changeCount"];
    assert(str_views(k8@) =~= seq!["change_count"@, "changeCount"@]);
    push_field(out, "changeCount", count_json(crate::json::get_u64_by_keys(fields, &k8)));
    let k9 = ["last_change_time", "lastChangeTime"];
    assert(str_views(k9@) =~= seq!["last_change_time"@, "lastChangeTime"@]);
    push_field(out, "lastChangeTime", count_json(crate::json::get_u64_by_keys(fields, &k9)));
    assert(fields_view(out@) =~= start + base_counts(f));
}

fn base_state_fields(out: &mut Vec<(String, Json)>, fields: &Vec<(String, Json)>)
    ensures
        fields_view(final(out)@) == fields_view(old(out)@) + base_state(fields_view(fields@)),
{
    let ghost f = fields_view(fields@);
    let ghost start = fields_view(out@);
    let ui = user_info(fields);
    let ka = ["userAction", "user_action"];
    assert(str_views(ka@) =~= seq!["userAction"@, "user_action"@]);
    let action = match crate::json::first_value_by_keys(fields, &ka) {
        Some(v) => v.deep_copy(),
        None => {
            let v: Vec<(String, Json)> = Vec::new();
            assert(fields_view(v@) =~= Seq::<(Seq<char>, JsonV)>::empty());
            let e = Json::Object(v);
            proof {
                lemma_views(e);
            }
            assert(json_view(e) == JsonV::Object(Seq::<(Seq<char>, JsonV)>::empty()));
            e
        },
    };
    push_field(out, "userAction", action);
    let et = feed_entity_type_of(fields);
    let et_json = if et.is_empty() {
        str_json_of("feed")
    } else {
        str_json_of(et)
    };
    push_field(out, "entityType", et_json);
    let kt = ["trace", "extra_key", "extraKey"];
    assert(str_views(kt@) =~= seq!["trace"@, "extra_key"@, "extraKey"@]);
    let trace = match crate::json::first_value_by_keys(fields, &kt) {
        Some(v) => v.as_str(),
        None => None,
    };
    push_field(out, "trace", opt_str_json(trace));
    let kr = ["targetRow", "target_row"];
    assert(str_views(kr@) =~= seq!["targetRow"@, "target_row"@]);
    let target = crate::json::first_value_by_keys(fields, &kr);
    push_field(out, "targetType", opt_str_json(info_str(target, "title")));
    let uid = match feed_uid_of(fields, ui) {
        Some(u) => if u.as_str().is_empty() {
            "0".to_string()
        } else {
            u
        },
        None => "0".to_string(),
    };
    push_field(out, "uid", Json::Str(uid));
    let kd = ["dateline", "create_time", "lastupdate", "createTime"];
    assert(str_views(kd@) =~= seq!["dateline"@, "create_time"@, "lastupdate"@, "createTime"@]);
    push_field(out, "dateline", count_json(crate::json::get_u64_by_keys(fields, &kd)));
    assert(fields_view(out@) =~= start + base_state(f));
}

fn base_tail_fields(out: &mut Vec<(String, Json)>, fields: &Vec<(String, Json)>)
    ensures
        fields_view(final(out)@) == fields_view(old(out)@) + base_tail(fields_view(fields@)),
{
    let ghost start = fields_view(out@);
    base_count_fields(out, fields);
    let ghost mid = fields_view(out@);
    base_state_fields(out, fields);
    assert(fields_view(out@) =~= start + base_tail(fields_view(fields@)));
}

pub(crate) fn str_json_of(s: &str) -> (r: Json)
    ensures
        json_view(r) == JsonV::Str(s@),
{
    Json::Str(s.to_string())
}

/// `clean_single_feed`: one API item in the shape the feed list renders,
/// or `None` when it is not a feed item (see `cleaned_feed`). `idx` and
/// `now_secs` name items that come without an id.
pub fn clean_single_feed(item: &Json, idx: u64, now_secs: u64) -> (r: Option<Json>)
    ensures
        match r {
            Some(c) => cleaned_feed(json_view(*item), idx, now_secs) == Some(json_view(c)),
            None => cleaned_feed(json_view(*item), idx, now_secs) is None,
        },
{
    proof {
        lemma_views(*item);
    }
    let fields = match item {
        Json::Object(fields) => fields,
        _ => return None,
    };
    let ui = user_info(fields);
    let et = feed_entity_type_of(fields);
    if is_placeholder_type(et) {
        return None;
    }
    let name = match display_name_of(fields, ui, et) {
        Some(n) => n,
        None => return None,
    };
    let message_keys = ["message", "description", "subTitle"];
    assert(str_views(message_keys@) =~= seq!["message"@, "description"@, "subTitle"@]);
    let title_keys = ["title", "entityTitle", "message_title"];
    assert(str_views(title_keys@) =~= seq!["title"@, "entityTitle"@, "message_title"@]);
    let message: &str = match first_field_str(fields, &message_keys) {
        Some(m) => m,
        None => "",
    };
    let title: &str = match first_field_str(fields, &title_keys) {
        Some(t) => t,
        None => "",
    };
    proof {
        reveal_strlit("");
        assert(""@ =~= Seq::<char>::empty());
    }
    if !has_content_of(fields, message, title) {
        return None;
    }
    let mut out = base_head_fields(fields, name, idx, now_secs);
    base_tail_fields(&mut out, fields);
    append_media_copies(&mut out, fields);
    append_rating_copies(&mut out, fields);
    let r = Json::Object(out);
    proof {
        lemma_views(r);
    }
    Some(r)
}

} // verus!
