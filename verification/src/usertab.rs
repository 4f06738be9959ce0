//! The tabs of a user's space: which endpoint or server page each tab is
//! read from, the page request (only the fixed routes a user space uses),
//! and the rows handed to the front end.

use vstd::prelude::*;
use crate::feed::{count, count_json, push_field};
use crate::json::{as_i64, fields_view, get, items_view, json_view, lemma_views, Json, JsonNumber, JsonV};
use crate::replies::opt_param;
use crate::search::{entity_rows, extract_entity_rows};
use crate::text::{chars_eq_str, chars_of, contains, dec, params_view, push_str, u64_to_string};
use crate::url::{allowed_user_page_route, is_allowed_user_page_url};

verus! {

/// What a user-space tab is read from.
pub enum UserTabSource {
    /// An API endpoint, with extra fields after the common query.
    Endpoint { path: String, extra: Vec<(&'static str, String)> },
    /// A server page, with its title.
    Page { url: String, title: String },
    /// The blacklist.
    BlackList,
}

pub enum UserTabSourceV {
    Endpoint { path: Seq<char>, extra: Seq<(Seq<char>, Seq<char>)> },
    Page { url: Seq<char>, title: Seq<char> },
    BlackList,
}

pub open spec fn source_view(s: UserTabSource) -> UserTabSourceV {
    match s {
        UserTabSource::Endpoint { path, extra } => UserTabSourceV::Endpoint { path: path@, extra: params_view(extra@) },
        UserTabSource::Page { url, title } => UserTabSourceV::Page { url: url@, title: title@ },
        UserTabSource::BlackList => UserTabSourceV::BlackList,
    }
}

pub open spec fn endpoint(path: Seq<char>) -> Option<UserTabSourceV> {
    Some(UserTabSourceV::Endpoint { path, extra: Seq::empty() })
}

/// The source of each tab; `None` for a tab the user space does not have.
/// Rating pages name the uid and the rated kind in their address.
pub open spec fn user_tab_source(uid: Seq<char>, tab: Seq<char>, rating_target: Seq<char>) -> Option<UserTabSourceV> {
    if tab == "feed"@ {
        Some(UserTabSourceV::Endpoint {
            path: "/v6/user/feedList"@,
            extra: seq![("showAnonymous"@, "0"@), ("isIncludeTop"@, "1"@), ("showDoing"@, "1"@)],
        })
    } else if tab == "reply"@ {
        endpoint("/v6/user/replyList"@)
    } else if tab == "collection"@ {
        endpoint("/v6/collection/list"@)
    } else if tab == "goods_store"@ {
        endpoint("/v6/goods/goodsStoreItemList"@)
    } else if tab == "goods_rank"@ {
        endpoint("/v6/goodsList/list"@)
    } else if tab == "developer_apps"@ {
        endpoint("/v6/apk/developerAppList"@)
    } else if tab == "apk_follow"@ {
        endpoint("/v6/user/apkFollowList"@)
    } else if tab == "article"@ {
        endpoint("/v6/user/htmlFeedList"@)
    } else if tab == "qa"@ {
        endpoint("/v6/user/questionAndAnswerList"@)
    } else if tab == "album"@ {
        endpoint("/v6/user/albumList"@)
    } else if tab == "like"@ {
        endpoint("/v6/user/likeList"@)
    } else if tab == "discovery"@ {
        endpoint("/v6/user/discoveryList"@)
    } else if tab == "coolpic"@ {
        Some(UserTabSourceV::Page { url: "#/feed/userCoolPictureFeedList?fragmentTemplate=flex"@, title: "酷图"@ })
    } else if tab == "rating"@ {
        Some(UserTabSourceV::Page {
            url: "#/feed/nodeRatingList?uid="@ + uid + "&targetType="@ + rating_target + "&parseRatingToFeed=1"@,
            title: "评分"@,
        })
    } else if tab == "goods"@ {
        Some(UserTabSourceV::Page { url: "#/goods/goodsFeedList?type=default&fragmentTemplate=flex"@, title: "好物"@ })
    } else if tab == "ershou"@ {
        Some(UserTabSourceV::Page { url: "#/feed/userErshouList?fragmentTemplate=flex&ershouStatus=userAll"@, title: "二手"@ })
    } else if tab == "recycle"@ {
        Some(UserTabSourceV::Page { url: "#/feed/userDeleteFeedList"@, title: "回收站"@ })
    } else if tab == "blacklist"@ {
        Some(UserTabSourceV::BlackList)
    } else {
        None
    }
}

fn endpoint_of(path: &str) -> (r: Option<UserTabSource>)
    ensures
        match r {
            Some(s) => endpoint(path@) == Some(source_view(s)),
            None => false,
        },
{
    let extra: Vec<(&'static str, String)> = Vec::new();
    assert(params_view(extra@) =~= Seq::<(Seq<char>, Seq<char>)>::empty());
    Some(UserTabSource::Endpoint { path: path.to_string(), extra })
}

/// The source of a user-space tab (see `user_tab_source`).
pub fn user_tab_source_of(uid: &str, tab: &str, rating_target: &str) -> (r: Option<UserTabSource>)
    ensures
        match user_tab_source(uid@, tab@, rating_target@) {
            Some(s) => r matches Some(x) && source_view(x) == s,
            None => r is None,
        },
{
    let t = chars_of(tab);
    if chars_eq_str(&t, "feed") {
        let mut extra: Vec<(&'static str, String)> = Vec::new();
        extra.push(("showAnonymous", "0".to_string()));
        extra.push(("isIncludeTop", "1".to_string()));
        extra.push(("showDoing", "1".to_string()));
        assert(params_view(extra@) =~= seq![("showAnonymous"@, "0"@), ("isIncludeTop"@, "1"@), ("showDoing"@, "1"@)]);
        return Some(UserTabSource::Endpoint { path: "/v6/user/feedList".to_string(), extra });
    }
    if chars_eq_str(&t, "reply") {
        return endpoint_of("/v6/user/replyList");
    }
    if chars_eq_str(&t, "collection") {
        return endpoint_of("/v6/collection/list");
    }
    if chars_eq_str(&t, "goods_store") {
        return endpoint_of("/v6/goods/goodsStoreItemList");
    }
    if chars_eq_str(&t, "goods_rank") {
        return endpoint_of("/v6/goodsList/list");
    }
    if chars_eq_str(&t, "developer_apps") {
        return endpoint_of("/v6/apk/developerAppList");
    }
    if chars_eq_str(&t, "apk_follow") {
        return endpoint_of("/v6/user/apkFollowList");
    }
    if chars_eq_str(&t, "article") {
        return endpoint_of("/v6/user/htmlFeedList");
    }
    if chars_eq_str(&t, "qa") {
        return endpoint_of("/v6/user/questionAndAnswerList");
    }
    if chars_eq_str(&t, "album") {
        return endpoint_of("/v6/user/albumList");
    }
    if chars_eq_str(&t, "like") {
        return endpoint_of("/v6/user/likeList");
    }
    if chars_eq_str(&t, "discovery") {
        return endpoint_of("/v6/user/discoveryList");
    }
    if chars_eq_str(&t, "coolpic") {
        return Some(UserTabSource::Page {
            url: "#/feed/userCoolPictureFeedList?fragmentTemplate=flex".to_string(),
            title: "酷图".to_string(),
        });
    }
    if chars_eq_str(&t, "rating") {
        let mut url = "#/feed/nodeRatingList?uid=".to_string();
        push_str(&mut url, uid);
        push_str(&mut url, "&targetType=");
        push_str(&mut url, rating_target);
        push_str(&mut url, "&parseRatingToFeed=1");
        return Some(UserTabSource::Page { url, title: "评分".to_string() });
    }
    if chars_eq_str(&t, "goods") {
        return Some(UserTabSource::Page {
            url: "#/goods/goodsFeedList?type=default&fragmentTemplate=flex".to_string(),
            title: "好物".to_string(),
        });
    }
    if chars_eq_str(&t, "ershou") {
        return Some(UserTabSource::Page {
            url: "#/feed/userErshouList?fragmentTemplate=flex&ershouStatus=userAll".to_string(),
            title: "二手".to_string(),
        });
    }
    if chars_eq_str(&t, "recycle") {
        return Some(UserTabSource::Page { url: "#/feed/userDeleteFeedList".to_string(), title: "回收站".to_string() });
    }
    if chars_eq_str(&t, "blacklist") {
        return Some(UserTabSource::BlackList);
    }
    None
}

/// The common query of a user-space endpoint: the uid, the page, and the
/// cursors when not empty, followed by the tab's extra fields.
pub open spec fn user_tab_query(
    uid: Seq<char>,
    page: u32,
    first_item: Seq<char>,
    last_item: Seq<char>,
    extra: Seq<(Seq<char>, Seq<char>)>,
) -> Seq<(Seq<char>, Seq<char>)> {
    seq![("uid"@, uid), ("page"@, dec(page as nat))] + opt_param(first_item.len() > 0, "firstItem"@, first_item)
        + opt_param(last_item.len() > 0, "lastItem"@, last_item) + extra
}

/// Builds `user_tab_query`.
pub fn user_tab_endpoint_query(
    uid: &str,
    page: u32,
    first_item: &str,
    last_item: &str,
    extra: &Vec<(&'static str, String)>,
) -> (r: Vec<(&'static str, String)>)
    ensures
        params_view(r@) == user_tab_query(uid@, page, first_item@, last_item@, params_view(extra@)),
{
    let mut q: Vec<(&'static str, String)> = Vec::new();
    q.push(("uid", uid.to_string()));
    q.push(("page", u64_to_string(page as u64)));
    if !first_item.is_empty() {
        q.push(("firstItem", first_item.to_string()));
    }
    if !last_item.is_empty() {
        q.push(("lastItem", last_item.to_string()));
    }
    let ghost start = params_view(q@);
    let mut i: usize = 0;
    while i < extra.len()
        invariant
            i <= extra@.len(),
            params_view(q@) == start + params_view(extra@).take(i as int),
        decreases extra@.len() - i,
    {
        let ghost before = params_view(q@);
        q.push((extra[i].0, extra[i].1.clone()));
        assert(params_view(q@) =~= before.push((extra@[i as int].0@, extra@[i as int].1@)));
        assert(params_view(extra@).take(i + 1) =~= params_view(extra@).take(i as int).push(params_view(extra@)[i as int]));
        i += 1;
    }
    assert(params_view(extra@).take(extra@.len() as int) =~= params_view(extra@));
    assert(params_view(q@) =~= user_tab_query(uid@, page, first_item@, last_item@, params_view(extra@)));
    q
}

/// The query of `/v6/page/dataList` for a user-space page: only the fixed
/// routes a user space uses (`None` otherwise); the uid is added to an
/// address that lacks one.
pub open spec fn user_page_query(
    uid: Seq<char>,
    page_url: Seq<char>,
    page: u32,
    first_item: Seq<char>,
    last_item: Seq<char>,
    title: Seq<char>,
    sub_title: Seq<char>,
) -> Option<Seq<(Seq<char>, Seq<char>)>> {
    if !allowed_user_page_route(page_url) {
        None
    } else {
        let url = if contains(page_url, "uid="@) {
            page_url
        } else {
            page_url + "&uid="@ + uid
        };
        Some(seq![
            ("url"@, url),
            ("title"@, title),
            ("subTitle"@, sub_title),
            ("page"@, dec(page as nat)),
            ("pageContext"@, "user_space"@),
        ] + opt_param(first_item.len() > 0, "firstItem"@, first_item) + opt_param(
            last_item.len() > 0,
            "lastItem"@,
            last_item,
        ))
    }
}

/// Builds `user_page_query`.
pub fn user_page_data_query(
    uid: &str,
    page_url: &str,
    page: u32,
    first_item: &str,
    last_item: &str,
    title: &str,
    sub_title: &str,
) -> (r: Option<Vec<(&'static str, String)>>)
    ensures
        match user_page_query(uid@, page_url@, page, first_item@, last_item@, title@, sub_title@) {
            Some(q) => r matches Some(x) && params_view(x@) == q,
            None => r is None,
        },
{
    if !is_allowed_user_page_url(page_url) {
        return None;
    }
    let url = if crate::text::chars_contain(&chars_of(page_url), "uid=") {
        page_url.to_string()
    } else {
        let mut u = page_url.to_string();
        push_str(&mut u, "&uid=");
        push_str(&mut u, uid);
        u
    };
    let mut q: Vec<(&'static str, String)> = Vec::new();
    q.push(("url", url));
    q.push(("title", title.to_string()));
    q.push(("subTitle", sub_title.to_string()));
    q.push(("page", u64_to_string(page as u64)));
    q.push(("pageContext", "user_space".to_string()));
    if !first_item.is_empty() {
        q.push(("firstItem", first_item.to_string()));
    }
    if !last_item.is_empty() {
        q.push(("lastItem", last_item.to_string()));
    }
    assert(params_view(q@) =~= user_page_query(uid@, page_url@, page, first_item@, last_item@, title@, sub_title@)->Some_0);
    Some(q)
}

/// A tab's answer as handed on: kept when its `code` is 200, else its
/// entity rows as `{ code: 200, data }`.
pub open spec fn user_tab_result(raw: JsonV) -> JsonV {
    match get(raw, "code"@) {
        Some(c) if as_i64(c) == Some(200i64) => raw,
        _ => JsonV::Object(seq![("code"@, count(200)), ("data"@, JsonV::Array(entity_rows(raw)))]),
    }
}

/// Builds `user_tab_result`.
pub fn user_tab_data_result(raw: Json) -> (r: Json)
    ensures
        json_view(r) == user_tab_result(json_view(raw)),
{
    let ok = match raw.get("code") {
        Some(Json::Number(JsonNumber::PosInt(n))) => *n == 200,
        Some(Json::Number(JsonNumber::NegInt(i))) => *i == 200,
        Some(other) => {
            proof {
                lemma_views(*other);
            }
            false
        },
        None => false,
    };
    if ok {
        return raw;
    }
    let rows = extract_entity_rows(&raw);
    let ghost rv = items_view(rows@);
    let data = Json::Array(rows);
    proof {
        lemma_views(data);
    }
    let mut out: Vec<(String, Json)> = Vec::new();
    assert(fields_view(out@) =~= Seq::<(Seq<char>, JsonV)>::empty());
    push_field(&mut out, "code", count_json(200));
    push_field(&mut out, "data", data);
    let ghost ov = fields_view(out@);
    let r = Json::Object(out);
    proof {
        lemma_views(r);
    }
    assert(ov =~= user_tab_result(json_view(raw))->Object_0);
    r
}

} // verus!
