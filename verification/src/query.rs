//! Query strings and form bodies sent to the Coolapk API.

use vstd::prelude::*;
use crate::text::{dec, dec_int, i64_to_string, params_view, trim, trimmed_str, u64_to_string, string_of};

verus! {

/// `(target id, target type)` of a reply: the trimmed reply id with type
/// `reply` when one is given and not blank, else the trimmed feed id with
/// type `feed`.
pub open spec fn reply_target(feed_id: Seq<char>, rid: Option<Seq<char>>) -> (Seq<char>, Seq<char>) {
    match rid {
        Some(r) if trim(r).len() > 0 => (trim(r), "reply"@),
        _ => (trim(feed_id), "feed"@),
    }
}

/// Chooses whether a reply targets a comment or the feed itself.
pub fn reply_target_params(feed_id: &str, rid: Option<&str>) -> (r: (String, String))
    ensures
        (r.0@, r.1@) == reply_target(feed_id@, match rid {
            Some(x) => Some(x@),
            None => None,
        }),
{
    if let Some(reply_id) = rid {
        let t = trimmed_str(reply_id);
        if t.len() > 0 {
            return (string_of(&t), "reply".to_owned());
        }
    }
    let t = trimmed_str(feed_id);
    (string_of(&t), "feed".to_owned())
}

/// Parameters of `/v6/product/changeRating`-style rating queries.
pub fn build_product_rating_query(product_id: &str, value: i32) -> (r: Vec<(&'static str, String)>)
    ensures
        params_view(r@) == seq![("id"@, product_id@), ("value"@, dec_int(value as int))],
{
    let r = vec![("id", product_id.to_owned()), ("value", i64_to_string(value as i64))];
    assert(params_view(r@) =~= seq![("id"@, product_id@), ("value"@, dec_int(value as int))]);
    r
}

/// `page.max(1)`.
pub open spec fn page_at_least_one(page: u32) -> nat {
    if page < 1 {
        1
    } else {
        page as nat
    }
}

/// Parameters of the product rating list page.
pub open spec fn rating_list_query(product_id: Seq<char>, star: int, is_owner: int, page: u32) -> Seq<
    (Seq<char>, Seq<char>),
> {
    let base = seq![
        ("url"@, "/feed/nodeRatingList"@),
        ("targetType"@, "7"@),
        ("targetId"@, product_id),
        ("ratingType"@, "all"@),
        ("isOwner"@, dec_int(is_owner)),
        ("page"@, dec(page_at_least_one(page))),
    ];
    if star > 0 {
        base.push(("star"@, dec_int(star)))
    } else {
        base
    }
}

pub fn build_product_rating_list_query(product_id: &str, star: i32, is_owner: i32, page: u32) -> (r:
    Vec<(&'static str, String)>)
    ensures
        params_view(r@) == rating_list_query(product_id@, star as int, is_owner as int, page),
{
    let p: u32 = if page < 1 {
        1
    } else {
        page
    };
    let mut query = vec![
        ("url", "/feed/nodeRatingList".to_owned()),
        ("targetType", "7".to_owned()),
        ("targetId", product_id.to_owned()),
        ("ratingType", "all".to_owned()),
        ("isOwner", i64_to_string(is_owner as i64)),
        ("page", u64_to_string(p as u64)),
    ];
    let ghost base = params_view(query@);
    if star > 0 {
        query.push(("star", i64_to_string(star as i64)));
        assert(params_view(query@) =~= base.push(("star"@, dec_int(star as int))));
    }
    assert(params_view(query@) =~= rating_list_query(product_id@, star as int, is_owner as int, page));
    query
}

/// Parameters of the second-hand product list.
pub open spec fn secondhand_query(
    brand_id: Seq<char>,
    list_type: Seq<char>,
    page: u32,
    first_item: Seq<char>,
    last_item: Seq<char>,
) -> Seq<(Seq<char>, Seq<char>)> {
    let base = seq![
        ("id"@, brand_id),
        ("listType"@, list_type),
        ("page"@, dec(page_at_least_one(page))),
    ];
    let with_first = if trim(first_item).len() > 0 {
        base.push(("firstItem"@, first_item))
    } else {
        base
    };
    if trim(last_item).len() > 0 {
        with_first.push(("lastItem"@, last_item))
    } else {
        with_first
    }
}

pub fn build_secondhand_product_list_query(
    brand_id: &str,
    list_type: &str,
    page: u32,
    first_item: &str,
    last_item: &str,
) -> (r: Vec<(&'static str, String)>)
    ensures
        params_view(r@) == secondhand_query(brand_id@, list_type@, page, first_item@, last_item@),
{
    let p: u32 = if page < 1 {
        1
    } else {
        page
    };
    let mut query = vec![
        ("id", brand_id.to_owned()),
        ("listType", list_type.to_owned()),
        ("page", u64_to_string(p as u64)),
    ];
    let ghost base = params_view(query@);
    if trimmed_str(first_item).len() > 0 {
        query.push(("firstItem", first_item.to_owned()));
        assert(params_view(query@) =~= base.push(("firstItem"@, first_item@)));
    }
    let ghost mid = params_view(query@);
    if trimmed_str(last_item).len() > 0 {
        query.push(("lastItem", last_item.to_owned()));
        assert(params_view(query@) =~= mid.push(("lastItem"@, last_item@)));
    }
    assert(params_view(query@) =~= secondhand_query(
        brand_id@,
        list_type@,
        page,
        first_item@,
        last_item@,
    ));
    query
}

/// Parameters of a user's collection list, default collection included.
pub fn build_collection_list_query(uid: &str, page: u32) -> (r: Vec<(&'static str, String)>)
    ensures
        params_view(r@) == seq![("uid"@, uid@), ("showDefault"@, "1"@), ("page"@, dec(page as nat))],
{
    let r = vec![
        ("uid", uid.to_owned()),
        ("showDefault", "1".to_owned()),
        ("page", u64_to_string(page as u64)),
    ];
    assert(params_view(r@) =~= seq![
        ("uid"@, uid@),
        ("showDefault"@, "1"@),
        ("page"@, dec(page as nat)),
    ]);
    r
}

/// Parameters of a product's feed list; the sort key only when one is chosen.
pub open spec fn product_feeds_query(
    product_id: Seq<char>,
    feed_type: Seq<char>,
    list_type: Seq<char>,
    page: u32,
) -> Seq<(Seq<char>, Seq<char>)> {
    let base = seq![
        ("url"@, "/page?url=/product/feedList"@),
        ("id"@, product_id),
        ("type"@, feed_type),
    ];
    let sorted = if trim(list_type).len() > 0 {
        base.push(("listType"@, trim(list_type)))
    } else {
        base
    };
    sorted.push(("page"@, dec(page as nat)))
}

pub fn build_product_feeds_query(product_id: &str, feed_type: &str, list_type: &str, page: u32) -> (r:
    Vec<(&'static str, String)>)
    ensures
        params_view(r@) == product_feeds_query(product_id@, feed_type@, list_type@, page),
{
    let mut query = vec![
        ("url", "/page?url=/product/feedList".to_owned()),
        ("id", product_id.to_owned()),
        ("type", feed_type.to_owned()),
    ];
    let ghost base = params_view(query@);
    let t = trimmed_str(list_type);
    if t.len() > 0 {
        query.push(("listType", string_of(&t)));
        assert(params_view(query@) =~= base.push(("listType"@, trim(list_type@))));
    }
    let ghost mid = params_view(query@);
    query.push(("page", u64_to_string(page as u64)));
    assert(params_view(query@) =~= mid.push(("page"@, dec(page as nat))));
    assert(params_view(query@) =~= product_feeds_query(product_id@, feed_type@, list_type@, page));
    query
}

/// The statistics route behind each hot-rank tab.
pub open spec fn rank_route(rank_type: Seq<char>) -> Option<Seq<char>> {
    if rank_type == "month"@ {
        Some("#/feed/statList?statType=30days&sortField=likenum"@)
    } else if rank_type == "favorite"@ {
        Some("#/feed/statList?statType=7days&sortField=favnum"@)
    } else if rank_type == "index"@ {
        Some("#/feed/statList?statType=7days&sortField=detailnum"@)
    } else {
        None
    }
}

pub fn rank_feed_url(rank_type: &str) -> (r: Option<&'static str>)
    ensures
        match r {
            Some(u) => rank_route(rank_type@) == Some(u@),
            None => rank_route(rank_type@) == None::<Seq<char>>,
        },
{
    let cs = crate::text::chars_of(rank_type);
    if crate::text::chars_eq_str(&cs, "month") {
        Some("#/feed/statList?statType=30days&sortField=likenum")
    } else if crate::text::chars_eq_str(&cs, "favorite") {
        Some("#/feed/statList?statType=7days&sortField=favnum")
    } else if crate::text::chars_eq_str(&cs, "index") {
        Some("#/feed/statList?statType=7days&sortField=detailnum")
    } else {
        None
    }
}

/// The fields of a `createFeed` form, in the order the official client sends
/// them; the post token is appended only when present and not blank.
pub open spec fn create_feed_form(
    message: Seq<char>,
    pic: Option<Seq<char>>,
    post_token: Option<Seq<char>>,
    feed_type: Seq<char>,
    fid: Seq<char>,
) -> Seq<(Seq<char>, Seq<char>)> {
    let pic_text = match pic {
        Some(p) => p,
        None => Seq::empty(),
    };
    let base = seq![
        ("id"@, Seq::<char>::empty()),
        ("message"@, message),
        ("type"@, feed_type),
        ("pic"@, pic_text),
        ("status"@, "1"@),
        ("publish_status"@, "0"@),
        ("location"@, Seq::<char>::empty()),
        ("long_location"@, Seq::<char>::empty()),
        ("latitude"@, "0.0"@),
        ("longitude"@, "0.0"@),
        ("media_url"@, Seq::<char>::empty()),
        ("media_type"@, "0"@),
        ("media_pic"@, Seq::<char>::empty()),
        ("message_title"@, Seq::<char>::empty()),
        ("message_brief"@, Seq::<char>::empty()),
        ("extra_title"@, Seq::<char>::empty()),
        ("extra_url"@, Seq::<char>::empty()),
        ("extra_key"@, Seq::<char>::empty()),
        ("extra_pic"@, Seq::<char>::empty()),
        ("extra_info"@, Seq::<char>::empty()),
        ("message_cover"@, Seq::<char>::empty()),
        ("original_type"@, "0"@),
        ("is_editInDyh"@, "0"@),
        ("forwardid"@, Seq::<char>::empty()),
        ("fid"@, fid),
        ("dyhId"@, Seq::<char>::empty()),
        ("targetType"@, Seq::<char>::empty()),
        ("productId"@, Seq::<char>::empty()),
        ("targetId"@, Seq::<char>::empty()),
        ("location_city"@, Seq::<char>::empty()),
        ("location_country"@, Seq::<char>::empty()),
        ("disallow_reply"@, "0"@),
        ("vote_score"@, "0"@),
        ("replyWithForward"@, "0"@),
        ("media_info"@, Seq::<char>::empty()),
        ("insert_product_media"@, "0"@),
        ("is_ks_doc"@, "0"@),
        ("goods_list_id"@, Seq::<char>::empty()),
        ("is_html_article"@, "0"@),
    ];
    match post_token {
        Some(t) if trim(t).len() > 0 => base.push(("_v2_post_token"@, t)),
        _ => base,
    }
}

pub open spec fn opt_view(o: Option<&str>) -> Option<Seq<char>> {
    match o {
        Some(x) => Some(x@),
        None => None,
    }
}

/// The `createFeed` form of a new feed.
pub fn build_create_feed_form(message: &str, pic: Option<&str>, post_token: Option<&str>) -> (r: Vec<
    (&'static str, String),
>)
    ensures
        params_view(r@) == create_feed_form(message@, opt_view(pic), opt_view(post_token), "feed"@, Seq::empty()),
{
    proof {
        reveal_strlit("");
        assert(""@ =~= Seq::<char>::empty());
    }
    build_create_feed_form_for_type(message, pic, post_token, "feed", "")
}

/// The `createFeed` form for a given feed type and parent id (answers carry
/// their question in `fid`).
pub fn build_create_feed_form_for_type(
    message: &str,
    pic: Option<&str>,
    post_token: Option<&str>,
    feed_type: &str,
    fid: &str,
) -> (r: Vec<(&'static str, String)>)
    ensures
        params_view(r@) == create_feed_form(message@, opt_view(pic), opt_view(post_token), feed_type@, fid@),
{
    let pic_owned = match pic {
        Some(p) => p.to_owned(),
        None => String::new(),
    };
    let mut form = vec![
        ("id", String::new()),
        ("message", message.to_owned()),
        ("type", feed_type.to_owned()),
        ("pic", pic_owned),
        ("status", "1".to_owned()),
        ("publish_status", "0".to_owned()),
        ("location", String::new()),
        ("long_location", String::new()),
        ("latitude", "0.0".to_owned()),
        ("longitude", "0.0".to_owned()),
        ("media_url", String::new()),
        ("media_type", "0".to_owned()),
        ("media_pic", String::new()),
        ("message_title", String::new()),
        ("message_brief", String::new()),
        ("extra_title", String::new()),
        ("extra_url", String::new()),
        ("extra_key", String::new()),
        ("extra_pic", String::new()),
        ("extra_info", String::new()),
        ("message_cover", String::new()),
        ("original_type", "0".to_owned()),
        ("is_editInDyh", "0".to_owned()),
        ("forwardid", String::new()),
        ("fid", fid.to_owned()),
        ("dyhId", String::new()),
        ("targetType", String::new()),
        ("productId", String::new()),
        ("targetId", String::new()),
        ("location_city", String::new()),
        ("location_country", String::new()),
        ("disallow_reply", "0".to_owned()),
        ("vote_score", "0".to_owned()),
        ("replyWithForward", "0".to_owned()),
        ("media_info", String::new()),
        ("insert_product_media", "0".to_owned()),
        ("is_ks_doc", "0".to_owned()),
        ("goods_list_id", String::new()),
        ("is_html_article", "0".to_owned()),
    ];
    let ghost base = params_view(form@);
    if let Some(token) = post_token {
        if trimmed_str(token).len() > 0 {
            form.push(("_v2_post_token", token.to_owned()));
            assert(params_view(form@) =~= base.push(("_v2_post_token"@, token@)));
        }
    }
    assert(params_view(form@) =~= create_feed_form(message@, opt_view(pic), opt_view(post_token), feed_type@, fid@));
    form
}

} // verus!
