//! Which endpoint a list is read from, and the queries and forms of the
//! simpler list and posting endpoints.

use vstd::prelude::*;
use crate::feed::{count, count_json, push_field};
use crate::feedlist::{cleaned_list, extract_cleaned_list};
use crate::json::{fields_view, items_view, json_view, lemma_views, Json, JsonV};
use crate::replies::opt_param;
use crate::text::{chars_eq_str, chars_of, dec, params_view, push_str, trim, trimmed_str, string_of, u64_to_string};
use crate::topic::{hub_cursor, hub_cursor_of};

verus! {

// ---------------------------------------------------------------------------
// A user's feeds
// ---------------------------------------------------------------------------

/// The list a user's feeds of a kind are read from.
pub open spec fn user_feed_list(feed_type: Seq<char>) -> Seq<char> {
    if feed_type == "picture"@ || feed_type == "coolpic"@ {
        "pictureList"@
    } else if feed_type == "reply"@ {
        "replyList"@
    } else if feed_type == "rating"@ {
        "apkRatingList"@
    } else if feed_type == "ershou"@ {
        "ershouList"@
    } else if feed_type == "fav"@ || feed_type == "favorite"@ {
        "favList"@
    } else {
        "feedList"@
    }
}

/// The endpoint and query of a user's feeds of a kind.
pub open spec fn user_feeds_request(uid: Seq<char>, page: u32, feed_type: Seq<char>) -> (
    Seq<char>,
    Seq<(Seq<char>, Seq<char>)>,
) {
    (
        "/v6/user/"@ + user_feed_list(feed_type),
        seq![("uid"@, uid), ("page"@, dec(page as nat)), ("isIncludeTop"@, "1"@)],
    )
}

/// Builds `user_feeds_request`.
pub fn user_feeds_query(uid: &str, page: u32, feed_type: &str) -> (r: (String, Vec<(&'static str, String)>))
    ensures
        (r.0@, params_view(r.1@)) == user_feeds_request(uid@, page, feed_type@),
{
    let t = chars_of(feed_type);
    proof {
        reveal_strlit("picture");
        reveal_strlit("coolpic");
        reveal_strlit("reply");
        reveal_strlit("rating");
        reveal_strlit("ershou");
        reveal_strlit("fav");
        reveal_strlit("favorite");
    }
    let list = if chars_eq_str(&t, "picture") || chars_eq_str(&t, "coolpic") {
        "pictureList"
    } else if chars_eq_str(&t, "reply") {
        "replyList"
    } else if chars_eq_str(&t, "rating") {
        "apkRatingList"
    } else if chars_eq_str(&t, "ershou") {
        "ershouList"
    } else if chars_eq_str(&t, "fav") || chars_eq_str(&t, "favorite") {
        "favList"
    } else {
        "feedList"
    };
    let mut path = "/v6/user/".to_string();
    push_str(&mut path, list);
    let mut q: Vec<(&'static str, String)> = Vec::new();
    q.push(("uid", uid.to_string()));
    q.push(("page", u64_to_string(page as u64)));
    q.push(("isIncludeTop", "1".to_string()));
    assert(params_view(q@) =~= user_feeds_request(uid@, page, feed_type@).1);
    (path, q)
}

/// The page of a user's goods feeds: all kinds, or the named one.
pub open spec fn goods_feed_url(uid: Seq<char>, goods_type: Seq<char>) -> Seq<char> {
    "/goods/goodsFeedList?uid="@ + uid + if goods_type.len() == 0 || goods_type == "all"@ {
        Seq::empty()
    } else {
        "&type="@ + goods_type
    }
}

/// Builds `goods_feed_url`.
pub fn my_goods_feed_url(uid: &str, goods_type: &str) -> (r: String)
    ensures
        r@ == goods_feed_url(uid@, goods_type@),
{
    let mut u = "/goods/goodsFeedList?uid=".to_string();
    push_str(&mut u, uid);
    proof {
        reveal_strlit("all");
    }
    let t = chars_of(goods_type);
    if !(t.len() == 0 || chars_eq_str(&t, "all")) {
        push_str(&mut u, "&type=");
        push_str(&mut u, goods_type);
    }
    u
}

// ---------------------------------------------------------------------------
// Cursor pages
// ---------------------------------------------------------------------------

/// The cursors of a list when not blank, trimmed.
pub open spec fn cursor_params(first_item: Seq<char>, last_item: Seq<char>) -> Seq<(Seq<char>, Seq<char>)> {
    opt_param(trim(first_item).len() > 0, "firstItem"@, trim(first_item)) + opt_param(
        trim(last_item).len() > 0,
        "lastItem"@,
        trim(last_item),
    )
}

fn push_cursors(q: &mut Vec<(&'static str, String)>, first_item: &str, last_item: &str)
    ensures
        params_view(final(q)@) == params_view(old(q)@) + cursor_params(first_item@, last_item@),
{
    let ghost before = params_view(q@);
    let f = trimmed_str(first_item);
    if f.len() > 0 {
        q.push(("firstItem", string_of(&f)));
    }
    let l = trimmed_str(last_item);
    if l.len() > 0 {
        q.push(("lastItem", string_of(&l)));
    }
    assert(params_view(q@) =~= before + cursor_params(first_item@, last_item@));
}

fn page_at_least_one(page: u32) -> (r: String)
    ensures
        r@ == dec(if page < 1 {
            1nat
        } else {
            page as nat
        }),
{
    if page < 1 {
        u64_to_string(1)
    } else {
        u64_to_string(page as u64)
    }
}

/// The query of a device's feed list (newest first).
pub open spec fn device_feed_query(tag: Seq<char>, page: u32, first_item: Seq<char>, last_item: Seq<char>) -> Seq<
    (Seq<char>, Seq<char>),
> {
    seq![("tag"@, tag), ("page"@, dec(if page < 1 { 1nat } else { page as nat })), ("listType"@, "lastupdate_desc"@)]
        + cursor_params(first_item, last_item)
}

/// Builds `device_feed_query`.
pub fn device_feed_list_query(tag: &str, page: u32, first_item: &str, last_item: &str) -> (r: Vec<
    (&'static str, String),
>)
    ensures
        params_view(r@) == device_feed_query(tag@, page, first_item@, last_item@),
{
    let mut q: Vec<(&'static str, String)> = Vec::new();
    q.push(("tag", tag.to_string()));
    q.push(("page", page_at_least_one(page)));
    q.push(("listType", "lastupdate_desc".to_string()));
    let ghost head = params_view(q@);
    push_cursors(&mut q, first_item, last_item);
    assert(params_view(q@) =~= device_feed_query(tag@, page, first_item@, last_item@));
    q
}

/// The query of a question's answers.
pub open spec fn answer_list_query(
    feed_id: Seq<char>,
    sort: Seq<char>,
    page: u32,
    first_item: Seq<char>,
    last_item: Seq<char>,
) -> Seq<(Seq<char>, Seq<char>)> {
    seq![("id"@, feed_id), ("sort"@, sort), ("page"@, dec(if page < 1 { 1nat } else { page as nat }))]
        + cursor_params(first_item, last_item)
}

/// Builds `answer_list_query`.
pub fn question_answers_query(feed_id: &str, sort: &str, page: u32, first_item: &str, last_item: &str) -> (r: Vec<
    (&'static str, String),
>)
    ensures
        params_view(r@) == answer_list_query(feed_id@, sort@, page, first_item@, last_item@),
{
    let mut q: Vec<(&'static str, String)> = Vec::new();
    q.push(("id", feed_id.to_string()));
    q.push(("sort", sort.to_string()));
    q.push(("page", page_at_least_one(page)));
    push_cursors(&mut q, first_item, last_item);
    assert(params_view(q@) =~= answer_list_query(feed_id@, sort@, page, first_item@, last_item@));
    q
}

/// A feed list page with the cursors of its first and last feeds.
pub open spec fn cursor_page(raw: JsonV, now_secs: u64) -> JsonV {
    let data = cleaned_list(raw, now_secs);
    let (first, last) = if data.len() > 0 {
        (hub_cursor(data[0]), hub_cursor(data.last()))
    } else {
        (Seq::empty(), Seq::empty())
    };
    JsonV::Object(seq![
        ("code"@, count(200)),
        ("data"@, JsonV::Array(data)),
        ("firstItem"@, JsonV::Str(first)),
        ("lastItem"@, JsonV::Str(last)),
    ])
}

/// Builds `cursor_page`.
pub fn cleaned_cursor_page(raw: &Json, now_secs: u64) -> (r: Json)
    ensures
        json_view(r) == cursor_page(json_view(*raw), now_secs),
{
    let rows = extract_cleaned_list(raw, now_secs);
    let (first, last) = if rows.len() > 0 {
        (hub_cursor_of(&rows[0]), hub_cursor_of(&rows[rows.len() - 1]))
    } else {
        (String::new(), String::new())
    };
    let data = Json::Array(rows);
    proof {
        lemma_views(data);
    }
    let mut out: Vec<(String, Json)> = Vec::new();
    assert(fields_view(out@) =~= Seq::<(Seq<char>, JsonV)>::empty());
    push_field(&mut out, "code", count_json(200));
    push_field(&mut out, "data", data);
    push_field(&mut out, "firstItem", Json::Str(first));
    push_field(&mut out, "lastItem", Json::Str(last));
    let ghost ov = fields_view(out@);
    let r = Json::Object(out);
    proof {
        lemma_views(r);
    }
    assert(ov =~= cursor_page(json_view(*raw), now_secs)->Object_0);
    r
}

// ---------------------------------------------------------------------------
// Notifications
// ---------------------------------------------------------------------------

/// The notification list a kind is read from: the current list names are
/// kept, the retired ones mapped to their successors, anything else reads
/// the mentions.
pub open spec fn notification_list(kind: Seq<char>) -> Seq<char> {
    if kind == "atMeList"@ || kind == "list"@ || kind == "atCommentMeList"@ || kind == "feedLikeList"@ || kind
        == "contactsFollowList"@ {
        kind
    } else if kind == "comment"@ {
        "list"@
    } else if kind == "like"@ || kind == "feedlike"@ {
        "feedLikeList"@
    } else {
        "atMeList"@
    }
}

/// The endpoint of a kind of notifications.
pub open spec fn notification_path(kind: Seq<char>) -> Seq<char> {
    "/v6/notification/"@ + notification_list(kind)
}

/// Builds `notification_path`.
pub fn notification_endpoint(kind: &str) -> (r: String)
    ensures
        r@ == notification_path(kind@),
{
    let k = chars_of(kind);
    proof {
        reveal_strlit("atMeList");
        reveal_strlit("list");
        reveal_strlit("atCommentMeList");
        reveal_strlit("feedLikeList");
        reveal_strlit("contactsFollowList");
        reveal_strlit("comment");
        reveal_strlit("like");
        reveal_strlit("feedlike");
    }
    let mut path = "/v6/notification/".to_string();
    if chars_eq_str(&k, "atMeList") || chars_eq_str(&k, "list") || chars_eq_str(&k, "atCommentMeList")
        || chars_eq_str(&k, "feedLikeList") || chars_eq_str(&k, "contactsFollowList") {
        push_str(&mut path, kind);
    } else if chars_eq_str(&k, "comment") {
        push_str(&mut path, "list");
    } else if chars_eq_str(&k, "like") || chars_eq_str(&k, "feedlike") {
        push_str(&mut path, "feedLikeList");
    } else {
        push_str(&mut path, "atMeList");
    }
    path
}

// ---------------------------------------------------------------------------
// Replies
// ---------------------------------------------------------------------------

/// An optional form value when given and not empty.
pub open spec fn opt_value(key: Seq<char>, v: Option<Seq<char>>) -> Seq<(Seq<char>, Seq<char>)> {
    match v {
        Some(s) => opt_param(s.len() > 0, key, s),
        None => Seq::empty(),
    }
}

/// The form of a reply: the message, then the picture and the captcha
/// token when given.
pub open spec fn reply_form(message: Seq<char>, pic: Option<Seq<char>>, post_token: Option<Seq<char>>) -> Seq<
    (Seq<char>, Seq<char>),
> {
    seq![("message"@, message)] + opt_value("pic"@, pic) + opt_value("_v2_post_token"@, post_token)
}

fn push_opt_value(q: &mut Vec<(&'static str, String)>, key: &'static str, v: Option<&str>)
    ensures
        params_view(final(q)@) == params_view(old(q)@) + opt_value(
            key@,
            match v {
                Some(s) => Some(s@),
                None => None,
            },
        ),
{
    let ghost before = params_view(q@);
    if let Some(s) = v {
        if !s.is_empty() {
            q.push((key, s.to_string()));
        }
    }
    assert(params_view(q@) =~= before + opt_value(
        key@,
        match v {
            Some(s) => Some(s@),
            None => None,
        },
    ));
}

/// Builds `reply_form`.
pub fn reply_feed_form(message: &str, pic: Option<&str>, post_token: Option<&str>) -> (r: Vec<(&'static str, String)>)
    ensures
        params_view(r@) == reply_form(
            message@,
            match pic {
                Some(s) => Some(s@),
                None => None,
            },
            match post_token {
                Some(s) => Some(s@),
                None => None,
            },
        ),
{
    let mut q: Vec<(&'static str, String)> = Vec::new();
    q.push(("message", message.to_string()));
    push_opt_value(&mut q, "pic", pic);
    push_opt_value(&mut q, "_v2_post_token", post_token);
    q
}

// ---------------------------------------------------------------------------
// Orders and kinds the server accepts
// ---------------------------------------------------------------------------

/// The order of an app's comments: one the server offers, else newest
/// replies first.
pub open spec fn apk_comment_sort(sort_type: Seq<char>) -> Seq<char> {
    if sort_type == "lastupdate_desc"@ || sort_type == "dateline_desc"@ || sort_type == "popular"@ {
        sort_type
    } else {
        "lastupdate_desc"@
    }
}

/// Builds `apk_comment_sort`.
pub fn apk_comment_sort_of(sort_type: &str) -> (r: String)
    ensures
        r@ == apk_comment_sort(sort_type@),
{
    let t = chars_of(sort_type);
    proof {
        reveal_strlit("lastupdate_desc");
        reveal_strlit("dateline_desc");
        reveal_strlit("popular");
    }
    if chars_eq_str(&t, "lastupdate_desc") || chars_eq_str(&t, "dateline_desc") || chars_eq_str(&t, "popular") {
        sort_type.to_string()
    } else {
        "lastupdate_desc".to_string()
    }
}

/// The kind of a column's articles: the square, else all.
pub open spec fn dyh_feed_kind(feed_type: Seq<char>) -> Seq<char> {
    if feed_type == "square"@ {
        "square"@
    } else {
        "all"@
    }
}

/// Builds `dyh_feed_kind`.
pub fn dyh_feed_kind_of(feed_type: &str) -> (r: &'static str)
    ensures
        r@ == dyh_feed_kind(feed_type@),
{
    proof {
        reveal_strlit("square");
    }
    if chars_eq_str(&chars_of(feed_type), "square") {
        "square"
    } else {
        "all"
    }
}

/// The query of a product list page: the address and page (at least 1),
/// then its title, subtitle and cursors when not blank.
pub open spec fn product_list_query(
    url: Seq<char>,
    title: Seq<char>,
    sub_title: Seq<char>,
    page: u32,
    first_item: Seq<char>,
    last_item: Seq<char>,
) -> Seq<(Seq<char>, Seq<char>)> {
    seq![("url"@, url), ("page"@, dec(if page < 1 { 1nat } else { page as nat }))] + opt_param(
        trim(title).len() > 0,
        "title"@,
        title,
    ) + opt_param(trim(sub_title).len() > 0, "subTitle"@, sub_title) + opt_param(
        trim(first_item).len() > 0,
        "firstItem"@,
        first_item,
    ) + opt_param(trim(last_item).len() > 0, "lastItem"@, last_item)
}

fn push_if_not_blank(q: &mut Vec<(&'static str, String)>, key: &'static str, value: &str)
    ensures
        params_view(final(q)@) == params_view(old(q)@) + opt_param(trim(value@).len() > 0, key@, value@),
{
    let ghost before = params_view(q@);
    if trimmed_str(value).len() > 0 {
        q.push((key, value.to_string()));
    }
    assert(params_view(q@) =~= before + opt_param(trim(value@).len() > 0, key@, value@));
}

/// Builds `product_list_query`.
pub fn product_list_page_query(
    url: &str,
    title: &str,
    sub_title: &str,
    page: u32,
    first_item: &str,
    last_item: &str,
) -> (r: Vec<(&'static str, String)>)
    ensures
        params_view(r@) == product_list_query(url@, title@, sub_title@, page, first_item@, last_item@),
{
    let mut q: Vec<(&'static str, String)> = Vec::new();
    q.push(("url", url.to_string()));
    q.push(("page", page_at_least_one(page)));
    push_if_not_blank(&mut q, "title", title);
    push_if_not_blank(&mut q, "subTitle", sub_title);
    push_if_not_blank(&mut q, "firstItem", first_item);
    push_if_not_blank(&mut q, "lastItem", last_item);
    assert(params_view(q@) =~= product_list_query(url@, title@, sub_title@, page, first_item@, last_item@));
    q
}

/// The form of a product follow change: the trimmed product id and the
/// status; `None` when the id is blank, which is refused.
pub open spec fn product_follow_form(product_id: Seq<char>, status: i32) -> Option<Seq<(Seq<char>, Seq<char>)>> {
    if trim(product_id).len() == 0 {
        None
    } else {
        Some(seq![("id"@, trim(product_id)), ("status"@, crate::text::dec_int(status as int))])
    }
}

/// Builds `product_follow_form`.
pub fn product_follow_status_form(product_id: &str, status: i32) -> (r: Option<Vec<(&'static str, String)>>)
    ensures
        match r {
            Some(q) => product_follow_form(product_id@, status) == Some(params_view(q@)),
            None => product_follow_form(product_id@, status) is None,
        },
{
    let id = trimmed_str(product_id);
    if id.len() == 0 {
        return None;
    }
    let mut q: Vec<(&'static str, String)> = Vec::new();
    q.push(("id", string_of(&id)));
    q.push(("status", crate::text::i64_to_string(status as i64)));
    assert(params_view(q@) =~= seq![("id"@, trim(product_id@)), ("status"@, crate::text::dec_int(status as int))]);
    Some(q)
}

} // verus!
