//! Comment lists: the requests for the replies of a feed and of a reply,
//! and the shape each reply is given for the front end.

use vstd::prelude::*;
use crate::api::{api_error_view, wrap_api_data, wrapped_answer, ApiError, ApiErrorV};
use crate::agent::{build_id, device_rom, device_title, parse_reply_user_agent};
use crate::apk::{value_text, value_to_string};
use crate::feed::{
    avatar_of, avatar_url, count, count_json, first_field_str, first_str, fstr, field_str, info_str,
    json_opt, opt_str_json, or_empty, push_field, str_json_of, user_info, user_info_of, FieldsV,
};
use crate::json::{
    as_array, as_i64, as_str, as_str_opt, as_u64, field_of, field_value, fields_view, get, get_opt,
    items_view, json_view, lemma_views, Json, JsonNumber, JsonV, NumberV,
};
use crate::text::{chars_eq, chars_eq_str, chars_of, dec, params_view, str_views, string_of, trim, trimmed_str, u64_to_string};

verus! {

// ---------------------------------------------------------------------------
// Requests
// ---------------------------------------------------------------------------

/// Why a comment list could not be had.
pub enum ReplyError {
    /// The parent reply's id is blank.
    EmptyReplyId,
    /// An ordering the server does not offer.
    UnsupportedListType(String),
    /// An author filter other than 0 (all) and 1 (the author only).
    UnsupportedAuthorFilter(u32),
    /// The server refused the request.
    Api(ApiError),
    /// The answer holds no list of replies.
    BadShape,
}

/// Model of `ReplyError`.
pub enum ReplyErrorV {
    EmptyReplyId,
    UnsupportedListType(Seq<char>),
    UnsupportedAuthorFilter(u32),
    Api(ApiErrorV),
    BadShape,
}

pub open spec fn reply_error_view(e: ReplyError) -> ReplyErrorV {
    match e {
        ReplyError::EmptyReplyId => ReplyErrorV::EmptyReplyId,
        ReplyError::UnsupportedListType(t) => ReplyErrorV::UnsupportedListType(t@),
        ReplyError::UnsupportedAuthorFilter(n) => ReplyErrorV::UnsupportedAuthorFilter(n),
        ReplyError::Api(e) => ReplyErrorV::Api(api_error_view(e)),
        ReplyError::BadShape => ReplyErrorV::BadShape,
    }
}

/// The orderings of a feed's replies.
pub open spec fn known_list_type(t: Seq<char>) -> bool {
    t == "lastupdate_desc"@ || t == "dateline_desc"@ || t == "popular"@
}

/// With no ordering and no author filter, the newest replies first.
pub open spec fn effective_list_type(t: Seq<char>, from_feed_author: u32) -> Seq<char> {
    if t.len() == 0 && from_feed_author == 0 {
        "lastupdate_desc"@
    } else {
        t
    }
}

pub open spec fn opt_param(present: bool, key: Seq<char>, value: Seq<char>) -> Seq<(Seq<char>, Seq<char>)> {
    if present {
        seq![(key, value)]
    } else {
        Seq::empty()
    }
}

/// The query of `/v6/feed/replyList` for a feed's replies.
pub open spec fn feed_reply_query(
    feed_id: Seq<char>,
    page: u32,
    first_item: Seq<char>,
    last_item: Seq<char>,
    list_type: Seq<char>,
    from_feed_author: u32,
) -> Seq<(Seq<char>, Seq<char>)> {
    let eff = effective_list_type(trim(list_type), from_feed_author);
    seq![("id"@, feed_id)] + opt_param(eff.len() > 0, "listType"@, eff) + seq![("page"@, dec(page as nat))]
        + opt_param(trim(first_item).len() > 0, "firstItem"@, first_item) + opt_param(
        trim(last_item).len() > 0,
        "lastItem"@,
        last_item,
    ) + seq![
        ("discussMode"@, "1"@),
        ("feedType"@, "feed"@),
        ("blockStatus"@, "0"@),
        ("fromFeedAuthor"@, dec(from_feed_author as nat)),
    ]
}

/// The request for a page of a feed's replies, or why it is refused.
pub open spec fn feed_reply_request(
    feed_id: Seq<char>,
    page: u32,
    first_item: Seq<char>,
    last_item: Seq<char>,
    list_type: Seq<char>,
    from_feed_author: u32,
) -> Result<Seq<(Seq<char>, Seq<char>)>, ReplyErrorV> {
    let t = trim(list_type);
    if t.len() > 0 && !known_list_type(t) {
        Err(ReplyErrorV::UnsupportedListType(t))
    } else if from_feed_author > 1 {
        Err(ReplyErrorV::UnsupportedAuthorFilter(from_feed_author))
    } else {
        Ok(feed_reply_query(feed_id, page, first_item, last_item, list_type, from_feed_author))
    }
}

/// A feed's replies can be ordered by last update, by date or by
/// popularity: with one of these orderings (surrounding blanks aside) and
/// an author filter of 0 or 1 the query is built, with the ordering as its
/// `listType` right after the feed id; any other non-blank ordering is
/// refused with that ordering.
pub proof fn law_reply_orderings(
    feed_id: Seq<char>,
    page: u32,
    first_item: Seq<char>,
    last_item: Seq<char>,
    list_type: Seq<char>,
    from_feed_author: u32,
)
    requires
        from_feed_author <= 1,
    ensures
        trim(list_type) == "lastupdate_desc"@ || trim(list_type) == "dateline_desc"@ || trim(list_type) == "popular"@
            ==> (feed_reply_request(feed_id, page, first_item, last_item, list_type, from_feed_author) matches Ok(q)
            && q[0] == ("id"@, feed_id) && q[1] == ("listType"@, trim(list_type))),
        trim(list_type).len() > 0 && trim(list_type) != "lastupdate_desc"@ && trim(list_type) != "dateline_desc"@
            && trim(list_type) != "popular"@ ==> feed_reply_request(
            feed_id,
            page,
            first_item,
            last_item,
            list_type,
            from_feed_author,
        ) == Err::<Seq<(Seq<char>, Seq<char>)>, ReplyErrorV>(ReplyErrorV::UnsupportedListType(trim(list_type))),
{
    reveal_strlit("lastupdate_desc");
    reveal_strlit("dateline_desc");
    reveal_strlit("popular");
    let t = trim(list_type);
    if t == "lastupdate_desc"@ || t == "dateline_desc"@ || t == "popular"@ {
        assert(t.len() > 0);
        let q = feed_reply_query(feed_id, page, first_item, last_item, list_type, from_feed_author);
        assert(effective_list_type(t, from_feed_author) == t);
        assert(q[0] == ("id"@, feed_id));
        assert(q[1] == ("listType"@, t));
    }
}

pub open spec fn query_result_view(r: Result<Vec<(&str, String)>, ReplyError>) -> Result<Seq<(Seq<char>, Seq<char>)>, ReplyErrorV> {
    match r {
        Ok(q) => Ok(params_view(q@)),
        Err(e) => Err(reply_error_view(e)),
    }
}

fn push_param(q: &mut Vec<(&'static str, String)>, key: &'static str, value: String)
    ensures
        params_view(final(q)@) == params_view(old(q)@).push((key@, value@)),
{
    let ghost before = params_view(q@);
    q.push((key, value));
    assert(params_view(q@) =~= before.push((key@, value@)));
}

/// The query for a page of a feed's replies.
pub fn feed_reply_list_query(
    feed_id: &str,
    page: u32,
    first_item: &str,
    last_item: &str,
    list_type: &str,
    from_feed_author: u32,
) -> (r: Result<Vec<(&'static str, String)>, ReplyError>)
    ensures
        query_result_view(r) == feed_reply_request(feed_id@, page, first_item@, last_item@, list_type@, from_feed_author),
{
    let t = trimmed_str(list_type);
    if t.len() > 0 && !(chars_eq_str(&t, "lastupdate_desc") || chars_eq_str(&t, "dateline_desc") || chars_eq_str(&t, "popular")) {
        return Err(ReplyError::UnsupportedListType(string_of(&t)));
    }
    if from_feed_author > 1 {
        return Err(ReplyError::UnsupportedAuthorFilter(from_feed_author));
    }
    let eff = if t.len() == 0 && from_feed_author == 0 {
        "lastupdate_desc".to_string()
    } else {
        string_of(&t)
    };
    let ghost effv = effective_list_type(trim(list_type@), from_feed_author);
    assert(eff@ == effv);
    let mut q: Vec<(&'static str, String)> = Vec::new();
    let ghost g0 = params_view(q@);
    push_param(&mut q, "id", feed_id.to_string());
    if !eff.as_str().is_empty() {
        push_param(&mut q, "listType", eff);
    }
    push_param(&mut q, "page", u64_to_string(page as u64));
    if trimmed_str(first_item).len() > 0 {
        push_param(&mut q, "firstItem", first_item.to_string());
    }
    if trimmed_str(last_item).len() > 0 {
        push_param(&mut q, "lastItem", last_item.to_string());
    }
    push_param(&mut q, "discussMode", "1".to_string());
    push_param(&mut q, "feedType", "feed".to_string());
    push_param(&mut q, "blockStatus", "0".to_string());
    push_param(&mut q, "fromFeedAuthor", u64_to_string(from_feed_author as u64));
    assert(params_view(q@) =~= feed_reply_query(feed_id@, page, first_item@, last_item@, list_type@, from_feed_author));
    Ok(q)
}

/// The query of `/v6/feed/replyList` for the replies under a reply.
pub open spec fn sub_reply_query(reply_id: Seq<char>, page: u32, last_item: Seq<char>) -> Seq<(Seq<char>, Seq<char>)> {
    seq![
        ("id"@, reply_id),
        ("listType"@, Seq::empty()),
        ("page"@, dec(page as nat)),
        ("discussMode"@, "0"@),
        ("feedType"@, "feed_reply"@),
        ("blockStatus"@, "0"@),
        ("fromFeedAuthor"@, "0"@),
    ] + opt_param(trim(last_item).len() > 0, "lastItem"@, trim(last_item))
}

/// The request for the replies under a reply, or `EmptyReplyId`.
pub open spec fn sub_reply_request(reply_id: Seq<char>, page: u32, last_item: Seq<char>) -> Result<Seq<(Seq<char>, Seq<char>)>, ReplyErrorV> {
    if trim(reply_id).len() == 0 {
        Err(ReplyErrorV::EmptyReplyId)
    } else {
        Ok(sub_reply_query(trim(reply_id), page, last_item))
    }
}

/// The query for a page of the replies under a reply.
pub fn sub_reply_list_query(reply_id: &str, page: u32, last_item: &str) -> (r: Result<Vec<(&'static str, String)>, ReplyError>)
    ensures
        query_result_view(r) == sub_reply_request(reply_id@, page, last_item@),
{
    let id = trimmed_str(reply_id);
    if id.len() == 0 {
        return Err(ReplyError::EmptyReplyId);
    }
    let mut q: Vec<(&'static str, String)> = Vec::new();
    push_param(&mut q, "id", string_of(&id));
    push_param(&mut q, "listType", String::new());
    push_param(&mut q, "page", u64_to_string(page as u64));
    push_param(&mut q, "discussMode", "0".to_string());
    push_param(&mut q, "feedType", "feed_reply".to_string());
    push_param(&mut q, "blockStatus", "0".to_string());
    push_param(&mut q, "fromFeedAuthor", "0".to_string());
    let last = trimmed_str(last_item);
    if last.len() > 0 {
        push_param(&mut q, "lastItem", string_of(&last));
    }
    assert(params_view(q@) =~= sub_reply_query(trim(reply_id@), page, last_item@));
    Ok(q)
}

// ---------------------------------------------------------------------------
// Reply objects
// ---------------------------------------------------------------------------

/// `value_to_string` of a field, empty when absent.
pub open spec fn text_of_field(f: FieldsV, key: Seq<char>) -> Seq<char> {
    match field_value(f, key) {
        Some(v) => value_text(v),
        None => Seq::empty(),
    }
}

/// A field's value, or `default` when absent.
pub open spec fn value_or(f: FieldsV, key: Seq<char>, default: JsonV) -> JsonV {
    match field_value(f, key) {
        Some(v) => v,
        None => default,
    }
}

pub open spec fn empty_array() -> JsonV {
    JsonV::Array(Seq::empty())
}

/// serde_json's number for an `i64`.
pub open spec fn int_json(i: i64) -> JsonV {
    if i < 0 {
        JsonV::Number(NumberV::NegInt(i))
    } else {
        JsonV::Number(NumberV::PosInt(i as u64))
    }
}

/// An unsigned field, 0 when absent or not one.
pub open spec fn u64_field(f: FieldsV, key: Seq<char>) -> u64 {
    match field_value(f, key) {
        Some(v) => match as_u64(v) {
            Some(n) => n,
            None => 0,
        },
        None => 0,
    }
}

/// The author's id: the reply's `uid`, else the author object's.
pub open spec fn reply_uid(f: FieldsV) -> Seq<char> {
    match field_value(f, "uid"@) {
        Some(v) => value_text(v),
        None => match get_opt(user_info_of(f), "uid"@) {
            Some(v) => value_text(v),
            None => Seq::empty(),
        },
    }
}

/// The author's level: the author object's, else the reply's.
pub open spec fn reply_level(f: FieldsV) -> Seq<char> {
    match get_opt(user_info_of(f), "level"@) {
        Some(v) => value_text(v),
        None => match field_value(f, "level"@) {
            Some(v) => value_text(v),
            None => Seq::empty(),
        },
    }
}

/// The author's verification title: the author object's, else the reply's.
pub open spec fn reply_verify_title(f: FieldsV) -> Seq<char> {
    match as_str_opt(get_opt(user_info_of(f), "verify_title"@)) {
        Some(s) => s,
        None => or_empty(fstr(f, "verify_title"@)),
    }
}

/// The floor number: `floor`, else `rank`.
pub open spec fn reply_floor(f: FieldsV) -> Seq<char> {
    match field_value(f, "floor"@) {
        Some(v) => value_text(v),
        None => text_of_field(f, "rank"@),
    }
}

/// The author's name: the reply's, else the author object's, else
/// `fallback`.
pub open spec fn reply_username(f: FieldsV, fallback: Seq<char>) -> Seq<char> {
    match fstr(f, "username"@) {
        Some(s) => s,
        None => match as_str_opt(get_opt(user_info_of(f), "username"@)) {
            Some(s) => s,
            None => fallback,
        },
    }
}

/// Whether the viewer liked the reply: `userAction.like`, else 0.
pub open spec fn reply_like(f: FieldsV) -> i64 {
    match get_opt(field_value(f, "userAction"@), "like"@) {
        Some(v) => match as_i64(v) {
            Some(i) => i,
            None => 0,
        },
        None => 0,
    }
}

/// Identity fields of a reply.
pub open spec fn reply_head(f: FieldsV, id: Seq<char>, username: Seq<char>) -> FieldsV {
    seq![
        ("id"@, JsonV::Str(id)),
        ("fid"@, JsonV::Str(text_of_field(f, "fid"@))),
        ("rid"@, JsonV::Str(text_of_field(f, "rid"@))),
        ("rrid"@, JsonV::Str(text_of_field(f, "rrid"@))),
        ("uid"@, JsonV::Str(reply_uid(f))),
        ("username"@, JsonV::Str(username)),
        ("rusername"@, JsonV::Str(or_empty(fstr(f, "rusername"@)))),
    ]
}

/// Author, text, pictures and state of a reply.
pub open spec fn reply_body(f: FieldsV) -> FieldsV {
    reply_body_author(f) + reply_body_state(f)
}

/// Author, text and pictures of a reply.
pub open spec fn reply_body_author(f: FieldsV) -> FieldsV {
    seq![
        ("userAvatar"@, JsonV::Str(avatar_url(f, user_info_of(f)))),
        ("userLevel"@, JsonV::Str(reply_level(f))),
        ("verifyTitle"@, JsonV::Str(reply_verify_title(f))),
        ("deviceTitle"@, JsonV::Str(or_empty(first_str(f, seq!["device_title"@, "deviceTitle"@, "device_name"@, "device"@])))),
        ("message"@, JsonV::Str(or_empty(first_str(f, seq!["message"@, "description"@])))),
        ("pic"@, JsonV::Str(or_empty(fstr(f, "pic"@)))),
        ("picArr"@, value_or(f, "picArr"@, empty_array())),
        ("images"@, value_or(f, "images"@, empty_array())),
    ]
}

/// Date, place and state of a reply.
pub open spec fn reply_body_state(f: FieldsV) -> FieldsV {
    seq![
        ("dateline"@, value_or(f, "dateline"@, count(0))),
        ("infoHtml"@, JsonV::Str(or_empty(first_str(f, seq!["dateline_text"@, "infoHtml"@])))),
        ("floor"@, JsonV::Str(reply_floor(f))),
        ("ipLocation"@, JsonV::Str(or_empty(first_str(f, seq!["ipLocation"@, "ip_location"@, "location"@])))),
        ("isFeedAuthor"@, value_or(f, "isFeedAuthor"@, count(0))),
        ("feedUid"@, JsonV::Str(text_of_field(f, "feedUid"@))),
        ("likenum"@, count(u64_field(f, "likenum"@))),
        ("userAction"@, JsonV::Object(seq![("like"@, int_json(reply_like(f)))])),
    ]
}

/// The number of replies shown under a feed's reply: `replyRowsCount`,
/// else the length of `replyRows` (an absent list counts 0).
pub open spec fn reply_rows_count(f: FieldsV) -> u64 {
    match field_value(f, "replyRowsCount"@) {
        Some(v) if as_u64(v) is Some => as_u64(v)->Some_0,
        _ => match as_array(value_or(f, "replyRows"@, empty_array())) {
            Some(rows) => if rows.len() <= u64::MAX {
                rows.len() as u64
            } else {
                0
            },
            None => 0,
        },
    }
}

/// The nested rows of a feed's reply.
pub open spec fn feed_reply_tail(f: FieldsV) -> FieldsV {
    seq![
        ("replyRows"@, value_or(f, "replyRows"@, empty_array())),
        ("replyRowsCount"@, count(reply_rows_count(f))),
        ("replynum"@, value_or(f, "replynum"@, count(0))),
        ("replyRowsMore"@, value_or(f, "replyRowsMore"@, count(0))),
        ("targetRow"@, value_or(f, "targetRow"@, JsonV::Null)),
    ]
}

/// A feed reply's id: a string, or an unsigned number in decimal.
pub open spec fn feed_reply_id(f: FieldsV) -> Seq<char> {
    match field_value(f, "id"@) {
        Some(v) => match as_str(v) {
            Some(s) => s,
            None => match as_u64(v) {
                Some(n) => dec(n as nat),
                None => Seq::empty(),
            },
        },
        None => Seq::empty(),
    }
}

/// A reply of a feed as the front end shows it; separator cards without an
/// id, and values that are not objects, are dropped.
pub open spec fn cleaned_feed_reply(item: JsonV) -> Option<JsonV> {
    match item {
        JsonV::Object(f) => {
            let id = feed_reply_id(f);
            if id.len() == 0 {
                None
            } else {
                Some(JsonV::Object(reply_head(f, id, reply_username(f, "酷友"@)) + reply_body(f) + feed_reply_tail(f)))
            }
        },
        _ => None,
    }
}

/// The kept replies of a list, in order.
pub open spec fn feed_replies(items: Seq<JsonV>) -> Seq<JsonV>
    decreases items.len(),
{
    if items.len() == 0 {
        Seq::empty()
    } else {
        feed_replies(items.drop_last()) + match cleaned_feed_reply(items.last()) {
            Some(v) => seq![v],
            None => Seq::empty(),
        }
    }
}

/// `{ code: 200, data: [replies] }` for a page of a feed's replies; an
/// answer without a `data` list gives an empty page.
pub open spec fn feed_reply_page(raw: JsonV) -> JsonV {
    JsonV::Object(seq![
        ("code"@, count(200)),
        ("data"@, JsonV::Array(match as_array_opt(get(raw, "data"@)) {
            Some(items) => feed_replies(items),
            None => Seq::empty(),
        })),
    ])
}

pub open spec fn as_array_opt(v: Option<JsonV>) -> Option<Seq<JsonV>> {
    match v {
        Some(v) => as_array(v),
        None => None,
    }
}

/// The nested rows of a reply under a reply.
pub open spec fn sub_reply_tail(f: FieldsV) -> FieldsV {
    seq![
        ("replyRows"@, value_or(f, "replyRows"@, empty_array())),
        ("replyRowsCount"@, count(
            match field_value(f, "replynum"@) {
                Some(v) if as_u64(v) is Some => as_u64(v)->Some_0,
                _ => u64_field(f, "replyRowsCount"@),
            },
        )),
        ("replyRowsMore"@, value_or(f, "replyRowsMore"@, count(0))),
        ("targetRow"@, value_or(f, "targetRow"@, JsonV::Null)),
    ]
}

/// A reply under `target` as the front end shows it. Dropped: values that
/// are not objects, replies without an id, the parent itself, and replies
/// whose `rid`/`rrid` name another parent (replies naming none are kept).
pub open spec fn cleaned_sub_reply(item: JsonV, target: Seq<char>) -> Option<JsonV> {
    match item {
        JsonV::Object(f) => {
            let id = text_of_field(f, "id"@);
            let rid = text_of_field(f, "rid"@);
            let rrid = text_of_field(f, "rrid"@);
            if id.len() == 0 || id == target {
                None
            } else if rid != target && rrid != target && (rid.len() > 0 || rrid.len() > 0) {
                None
            } else {
                Some(JsonV::Object(
                    reply_head(f, id, reply_username(f, Seq::empty())) + seq![
                        ("replyUsername"@, JsonV::Str(or_empty(fstr(f, "rusername"@)))),
                    ] + reply_body(f) + sub_reply_tail(f),
                ))
            }
        },
        _ => None,
    }
}

/// The kept replies under `target`, in order.
pub open spec fn sub_replies(items: Seq<JsonV>, target: Seq<char>) -> Seq<JsonV>
    decreases items.len(),
{
    if items.len() == 0 {
        Seq::empty()
    } else {
        sub_replies(items.drop_last(), target) + match cleaned_sub_reply(items.last(), target) {
            Some(v) => seq![v],
            None => Seq::empty(),
        }
    }
}

/// The page of replies under `reply_id` (trimmed): a refusal of the
/// server, `BadShape` when the answer's data is no list, else
/// `{ code: 200, data: [replies] }`.
pub open spec fn sub_reply_page(raw: JsonV, reply_id: Seq<char>) -> Result<JsonV, ReplyErrorV> {
    match crate::api::response_refusal(raw) {
        Some(e) => Err(ReplyErrorV::Api(e)),
        None => match as_array_opt(get(wrapped_answer(raw), "data"@)) {
            Some(items) => Ok(JsonV::Object(seq![
                ("code"@, count(200)),
                ("data"@, JsonV::Array(sub_replies(items, trim(reply_id)))),
            ])),
            None => Err(ReplyErrorV::BadShape),
        },
    }
}

// ---------------------------------------------------------------------------
// Building reply objects
// ---------------------------------------------------------------------------

fn text_field_of(fields: &Vec<(String, Json)>, key: &str) -> (r: String)
    ensures
        r@ == text_of_field(fields_view(fields@), key@),
{
    match field_of(fields, key) {
        Some(v) => value_to_string(v),
        None => String::new(),
    }
}

fn value_or_of(fields: &Vec<(String, Json)>, key: &str, default: Json) -> (r: Json)
    ensures
        json_view(r) == value_or(fields_view(fields@), key@, json_view(default)),
{
    match field_of(fields, key) {
        Some(v) => v.deep_copy(),
        None => default,
    }
}

fn empty_array_json() -> (r: Json)
    ensures
        json_view(r) == empty_array(),
{
    let items: Vec<Json> = Vec::new();
    let r = Json::Array(items);
    proof {
        lemma_views(r);
        assert(items_view(items@) =~= Seq::<JsonV>::empty());
    }
    r
}

fn u64_of(v: &Json) -> (r: Option<u64>)
    ensures
        r == as_u64(json_view(*v)),
{
    match v {
        Json::Number(JsonNumber::PosInt(n)) => Some(*n),
        _ => None,
    }
}

fn i64_of(v: &Json) -> (r: Option<i64>)
    ensures
        r == as_i64(json_view(*v)),
{
    match v {
        Json::Number(JsonNumber::PosInt(n)) => if *n <= 9223372036854775807u64 {
            Some(*n as i64)
        } else {
            None
        },
        Json::Number(JsonNumber::NegInt(i)) => Some(*i),
        _ => None,
    }
}

fn int_json_of(i: i64) -> (r: Json)
    ensures
        json_view(r) == int_json(i),
{
    if i < 0 {
        Json::Number(JsonNumber::NegInt(i))
    } else {
        Json::Number(JsonNumber::PosInt(i as u64))
    }
}

fn u64_field_of(fields: &Vec<(String, Json)>, key: &str) -> (r: u64)
    ensures
        r == u64_field(fields_view(fields@), key@),
{
    match field_of(fields, key) {
        Some(v) => match u64_of(v) {
            Some(n) => n,
            None => 0,
        },
        None => 0,
    }
}

fn reply_head_fields(out: &mut Vec<(String, Json)>, fields: &Vec<(String, Json)>, id: String, username: String)
    ensures
        fields_view(final(out)@) == fields_view(old(out)@) + reply_head(fields_view(fields@), id@, username@),
{
    let ghost f = fields_view(fields@);
    let ghost start = fields_view(out@);
    let ui = user_info(fields);
    let ghost idv = id@;
    let ghost namev = username@;
    push_field(out, "id", Json::Str(id));
    push_field(out, "fid", Json::Str(text_field_of(fields, "fid")));
    push_field(out, "rid", Json::Str(text_field_of(fields, "rid")));
    push_field(out, "rrid", Json::Str(text_field_of(fields, "rrid")));
    let uid = match field_of(fields, "uid") {
        Some(v) => value_to_string(v),
        None => match ui {
            Some(u) => match u.get("uid") {
                Some(v) => value_to_string(v),
                None => String::new(),
            },
            None => String::new(),
        },
    };
    assert(uid@ == reply_uid(f));
    push_field(out, "uid", Json::Str(uid));
    push_field(out, "username", Json::Str(username));
    push_field(out, "rusername", opt_str_json(field_str(fields, "rusername")));
    assert(fields_view(out@) =~= start + reply_head(f, idv, namev));
}

fn reply_body_fields(out: &mut Vec<(String, Json)>, fields: &Vec<(String, Json)>)
    ensures
        fields_view(final(out)@) == fields_view(old(out)@) + reply_body(fields_view(fields@)),
{
    let ghost start = fields_view(out@);
    reply_author_fields(out, fields);
    reply_state_fields(out, fields);
    assert(fields_view(out@) =~= start + reply_body(fields_view(fields@)));
}

fn reply_author_fields(out: &mut Vec<(String, Json)>, fields: &Vec<(String, Json)>)
    ensures
        fields_view(final(out)@) == fields_view(old(out)@) + reply_body_author(fields_view(fields@)),
{
    let ghost f = fields_view(fields@);
    let ghost start = fields_view(out@);
    let ui = user_info(fields);
    push_field(out, "userAvatar", Json::Str(avatar_of(fields, ui)));
    let level = match ui {
        Some(u) => match u.get("level") {
            Some(v) => Some(v),
            None => field_of(fields, "level"),
        },
        None => field_of(fields, "level"),
    };
    let level_text = match level {
        Some(v) => value_to_string(v),
        None => String::new(),
    };
    assert(level_text@ == reply_level(f));
    push_field(out, "userLevel", Json::Str(level_text));
    let verify = match info_str(ui, "verify_title") {
        Some(s) => Some(s),
        None => field_str(fields, "verify_title"),
    };
    push_field(out, "verifyTitle", opt_str_json(verify));
    let device_keys = ["device_title", "deviceTitle", "device_name", "device"];
    assert(str_views(device_keys@) =~= seq!["device_title"@, "deviceTitle"@, "device_name"@, "device"@]);
    push_field(out, "deviceTitle", opt_str_json(first_field_str(fields, &device_keys)));
    let message_keys = ["message", "description"];
    assert(str_views(message_keys@) =~= seq!["message"@, "description"@]);
    push_field(out, "message", opt_str_json(first_field_str(fields, &message_keys)));
    push_field(out, "pic", opt_str_json(field_str(fields, "pic")));
    push_field(out, "picArr", value_or_of(fields, "picArr", empty_array_json()));
    push_field(out, "images", value_or_of(fields, "images", empty_array_json()));
    assert(fields_view(out@) =~= start + reply_body_author(f));
}

fn reply_state_fields(out: &mut Vec<(String, Json)>, fields: &Vec<(String, Json)>)
    ensures
        fields_view(final(out)@) == fields_view(old(out)@) + reply_body_state(fields_view(fields@)),
{
    let ghost f = fields_view(fields@);
    let ghost start = fields_view(out@);
    push_field(out, "dateline", value_or_of(fields, "dateline", count_json(0)));
    let info_keys = ["dateline_text", "infoHtml"];
    assert(str_views(info_keys@) =~= seq!["dateline_text"@, "infoHtml"@]);
    push_field(out, "infoHtml", opt_str_json(first_field_str(fields, &info_keys)));
    let floor = match field_of(fields, "floor") {
        Some(v) => value_to_string(v),
        None => text_field_of(fields, "rank"),
    };
    push_field(out, "floor", Json::Str(floor));
    let ip_keys = ["ipLocation", "ip_location", "location"];
    assert(str_views(ip_keys@) =~= seq!["ipLocation"@, "ip_location"@, "location"@]);
    push_field(out, "ipLocation", opt_str_json(first_field_str(fields, &ip_keys)));
    push_field(out, "isFeedAuthor", value_or_of(fields, "isFeedAuthor", count_json(0)));
    push_field(out, "feedUid", Json::Str(text_field_of(fields, "feedUid")));
    push_field(out, "likenum", count_json(u64_field_of(fields, "likenum")));
    let like = match field_of(fields, "userAction") {
        Some(ua) => match ua.get("like") {
            Some(v) => match i64_of(v) {
                Some(i) => i,
                None => 0,
            },
            None => 0,
        },
        None => 0,
    };
    assert(like == reply_like(f));
    let mut action: Vec<(String, Json)> = Vec::new();
    assert(fields_view(action@) =~= Seq::<(Seq<char>, JsonV)>::empty());
    push_field(&mut action, "like", int_json_of(like));
    let ghost av = fields_view(action@);
    let action_json = Json::Object(action);
    proof {
        lemma_views(action_json);
        assert(av =~= seq![("like"@, int_json(reply_like(f)))]);
    }
    push_field(out, "userAction", action_json);
    assert(fields_view(out@) =~= start + reply_body_state(f));
}

/// The items of an array value.
fn array_items(v: Option<&Json>) -> (r: Option<&Vec<Json>>)
    ensures
        match r {
            Some(items) => as_array_opt(json_opt(v)) == Some(items_view(items@)),
            None => as_array_opt(json_opt(v)) is None,
        },
{
    match v {
        Some(j) => {
            proof {
                lemma_views(*j);
            }
            match j {
                Json::Array(items) => Some(items),
                Json::Null => None,
                Json::Bool(_) => None,
                Json::Number(_) => None,
                Json::Str(_) => None,
                Json::Object(_) => None,
            }
        },
        None => None,
    }
}

fn feed_reply_tail_fields(out: &mut Vec<(String, Json)>, fields: &Vec<(String, Json)>)
    ensures
        fields_view(final(out)@) == fields_view(old(out)@) + feed_reply_tail(fields_view(fields@)),
{
    let ghost f = fields_view(fields@);
    let ghost start = fields_view(out@);
    let rows = value_or_of(fields, "replyRows", empty_array_json());
    let explicit = match field_of(fields, "replyRowsCount") {
        Some(v) => u64_of(v),
        None => None,
    };
    let n = match explicit {
        Some(n) => n,
        None => match &rows {
            Json::Array(items) => {
                proof {
                    lemma_views(rows);
                }
                items.len() as u64
            },
            _ => 0,
        },
    };
    assert(n == reply_rows_count(f));
    push_field(out, "replyRows", rows);
    push_field(out, "replyRowsCount", count_json(n));
    push_field(out, "replynum", value_or_of(fields, "replynum", count_json(0)));
    push_field(out, "replyRowsMore", value_or_of(fields, "replyRowsMore", count_json(0)));
    push_field(out, "targetRow", value_or_of(fields, "targetRow", Json::Null));
    assert(fields_view(out@) =~= start + feed_reply_tail(f));
}

fn sub_reply_tail_fields(out: &mut Vec<(String, Json)>, fields: &Vec<(String, Json)>)
    ensures
        fields_view(final(out)@) == fields_view(old(out)@) + sub_reply_tail(fields_view(fields@)),
{
    let ghost f = fields_view(fields@);
    let ghost start = fields_view(out@);
    push_field(out, "replyRows", value_or_of(fields, "replyRows", empty_array_json()));
    let explicit = match field_of(fields, "replynum") {
        Some(v) => u64_of(v),
        None => None,
    };
    let n = match explicit {
        Some(n) => n,
        None => u64_field_of(fields, "replyRowsCount"),
    };
    push_field(out, "replyRowsCount", count_json(n));
    push_field(out, "replyRowsMore", value_or_of(fields, "replyRowsMore", count_json(0)));
    push_field(out, "targetRow", value_or_of(fields, "targetRow", Json::Null));
    assert(fields_view(out@) =~= start + sub_reply_tail(f));
}

fn reply_username_of(fields: &Vec<(String, Json)>, fallback: &str) -> (r: String)
    ensures
        r@ == reply_username(fields_view(fields@), fallback@),
{
    match field_str(fields, "username") {
        Some(s) => s.to_string(),
        None => match info_str(user_info(fields), "username") {
            Some(s) => s.to_string(),
            None => fallback.to_string(),
        },
    }
}

/// One reply of a feed, cleaned (see `cleaned_feed_reply`).
pub fn clean_feed_reply(item: &Json) -> (r: Option<Json>)
    ensures
        match r {
            Some(j) => cleaned_feed_reply(json_view(*item)) == Some(json_view(j)),
            None => cleaned_feed_reply(json_view(*item)) is None,
        },
{
    proof {
        lemma_views(*item);
    }
    match item {
        Json::Object(fields) => {
            let ghost f = fields_view(fields@);
            let id = match field_of(fields, "id") {
                Some(v) => match v.as_str() {
                    Some(s) => s.to_string(),
                    None => match u64_of(v) {
                        Some(n) => u64_to_string(n),
                        None => String::new(),
                    },
                },
                None => String::new(),
            };
            assert(id@ == feed_reply_id(f));
            if id.as_str().is_empty() {
                return None;
            }
            let name = reply_username_of(fields, "酷友");
            let ghost idv = id@;
            let ghost namev = name@;
            let mut out: Vec<(String, Json)> = Vec::new();
            assert(fields_view(out@) =~= Seq::<(Seq<char>, JsonV)>::empty());
            reply_head_fields(&mut out, fields, id, name);
            reply_body_fields(&mut out, fields);
            feed_reply_tail_fields(&mut out, fields);
            let ghost ov = fields_view(out@);
            assert(ov =~= reply_head(f, idv, namev) + reply_body(f) + feed_reply_tail(f));
            let r = Json::Object(out);
            proof {
                lemma_views(r);
            }
            Some(r)
        },
        _ => None,
    }
}

/// One reply under `target`, cleaned (see `cleaned_sub_reply`).
pub fn clean_sub_reply(item: &Json, target: &str) -> (r: Option<Json>)
    ensures
        match r {
            Some(j) => cleaned_sub_reply(json_view(*item), target@) == Some(json_view(j)),
            None => cleaned_sub_reply(json_view(*item), target@) is None,
        },
{
    proof {
        lemma_views(*item);
    }
    match item {
        Json::Object(fields) => {
            let ghost f = fields_view(fields@);
            let id = text_field_of(fields, "id");
            let rid = text_field_of(fields, "rid");
            let rrid = text_field_of(fields, "rrid");
            let tc = chars_of(target);
            let idc = chars_of(id.as_str());
            let ridc = chars_of(rid.as_str());
            let rridc = chars_of(rrid.as_str());
            if idc.len() == 0 || chars_eq(&idc, &tc) {
                return None;
            }
            if !chars_eq(&ridc, &tc) && !chars_eq(&rridc, &tc) && (ridc.len() > 0 || rridc.len() > 0) {
                return None;
            }
            let name = reply_username_of(fields, "");
            proof {
                reveal_strlit("");
                assert(""@ =~= Seq::<char>::empty());
            }
            let ghost idv = id@;
            let ghost namev = name@;
            let mut out: Vec<(String, Json)> = Vec::new();
            assert(fields_view(out@) =~= Seq::<(Seq<char>, JsonV)>::empty());
            reply_head_fields(&mut out, fields, id, name);
            push_field(&mut out, "replyUsername", opt_str_json(field_str(fields, "rusername")));
            reply_body_fields(&mut out, fields);
            sub_reply_tail_fields(&mut out, fields);
            let ghost ov = fields_view(out@);
            assert(ov =~= reply_head(f, idv, reply_username(f, Seq::empty())) + seq![
                ("replyUsername"@, JsonV::Str(or_empty(fstr(f, "rusername"@)))),
            ] + reply_body(f) + sub_reply_tail(f));
            let r = Json::Object(out);
            proof {
                lemma_views(r);
            }
            Some(r)
        },
        _ => None,
    }
}

/// A page of a feed's replies from the answer of `/v6/feed/replyList`
/// (see `feed_reply_page`).
pub fn feed_reply_list(raw: &Json) -> (r: Json)
    ensures
        json_view(r) == feed_reply_page(json_view(*raw)),
{
    let mut kept: Vec<Json> = Vec::new();
    let d = raw.get("data");
    assert(json_opt(d) == get(json_view(*raw), "data"@));
    match array_items(d) {
        Some(items) => {
            let ghost iv = items_view(items@);
            let mut i: usize = 0;
            while i < items.len()
                invariant
                    i <= items@.len(),
                    iv == items_view(items@),
                    items_view(kept@) == feed_replies(iv.take(i as int)),
                decreases items@.len() - i,
            {
                proof {
                    assert(iv.take(i + 1).drop_last() =~= iv.take(i as int));
                    assert(iv.take(i + 1).last() == json_view(items@[i as int]));
                }
                let ghost before = items_view(kept@);
                match clean_feed_reply(&items[i]) {
                    Some(c) => {
                        kept.push(c);
                        assert(items_view(kept@) =~= before.push(json_view(c)));
                    },
                    None => {},
                }
                i += 1;
                assert(items_view(kept@) =~= feed_replies(iv.take(i as int)));
            }
            assert(iv.take(items@.len() as int) =~= iv);
        },
        None => {
            assert(items_view(kept@) =~= Seq::<JsonV>::empty());
        },
    }
    let ghost kv = items_view(kept@);
    assert(kv == match as_array_opt(get(json_view(*raw), "data"@)) {
        Some(items) => feed_replies(items),
        None => Seq::empty(),
    });
    let data = Json::Array(kept);
    proof {
        lemma_views(data);
    }
    let mut out: Vec<(String, Json)> = Vec::new();
    assert(fields_view(out@) =~= Seq::<(Seq<char>, JsonV)>::empty());
    push_field(&mut out, "code", count_json(200));
    push_field(&mut out, "data", data);
    let ghost ov = fields_view(out@);
    let r = Json::Object(out);
    proof {
        lemma_views(r);
    }
    assert(ov =~= seq![("code"@, count(200)), ("data"@, JsonV::Array(kv))]);
    assert(json_view(r) == JsonV::Object(ov));
    assert(feed_reply_page(json_view(*raw))->Object_0 =~= ov);
    r
}

/// A page of the replies under `reply_id` from the answer of
/// `/v6/feed/replyList` (see `sub_reply_page`).
pub fn sub_reply_list(raw: Json, reply_id: &str) -> (r: Result<Json, ReplyError>)
    ensures
        match sub_reply_page(json_view(raw), reply_id@) {
            Ok(p) => r matches Ok(x) && json_view(x) == p,
            Err(e) => r matches Err(x) && reply_error_view(x) == e,
        },
{
    let ghost rv = json_view(raw);
    let target = string_of(&trimmed_str(reply_id));
    let normalized = match wrap_api_data(raw) {
        Ok(n) => n,
        Err(e) => {
            return Err(ReplyError::Api(e));
        },
    };
    let mut kept: Vec<Json> = Vec::new();
    match array_items(normalized.get("data")) {
        Some(items) => {
            let ghost iv = items_view(items@);
            let mut i: usize = 0;
            while i < items.len()
                invariant
                    i <= items@.len(),
                    iv == items_view(items@),
                    items_view(kept@) == sub_replies(iv.take(i as int), target@),
                decreases items@.len() - i,
            {
                proof {
                    assert(iv.take(i + 1).drop_last() =~= iv.take(i as int));
                    assert(iv.take(i + 1).last() == json_view(items@[i as int]));
                }
                let ghost before = items_view(kept@);
                match clean_sub_reply(&items[i], target.as_str()) {
                    Some(c) => {
                        kept.push(c);
                        assert(items_view(kept@) =~= before.push(json_view(c)));
                    },
                    None => {},
                }
                i += 1;
                assert(items_view(kept@) =~= sub_replies(iv.take(i as int), target@));
            }
            assert(iv.take(items@.len() as int) =~= iv);
        },
        None => {
            return Err(ReplyError::BadShape);
        },
    }
    let ghost kv = items_view(kept@);
    let data = Json::Array(kept);
    proof {
        lemma_views(data);
    }
    let mut out: Vec<(String, Json)> = Vec::new();
    assert(fields_view(out@) =~= Seq::<(Seq<char>, JsonV)>::empty());
    push_field(&mut out, "code", count_json(200));
    push_field(&mut out, "data", data);
    let ghost ov = fields_view(out@);
    let r = Json::Object(out);
    proof {
        lemma_views(r);
    }
    assert(ov =~= seq![("code"@, count(200)), ("data"@, JsonV::Array(kv))]);
    Ok(r)
}

impl ReplyError {
    /// The text shown for the failure. A refusal shows the server's
    /// message; for a captcha request the whole answer as JSON text, which
    /// the front end reads to show the captcha.
    pub fn message(&self) -> (r: String)
        ensures
            match self {
                ReplyError::EmptyReplyId => r@ == "评论 ID 不能为空"@,
                ReplyError::UnsupportedListType(t) => r@ == "不支持的评论排序类型："@ + t@,
                ReplyError::UnsupportedAuthorFilter(n) => r@ == "不支持的楼主评论筛选值："@ + dec(*n as nat),
                ReplyError::Api(ApiError::Message(m)) => r@ == m@,
                ReplyError::Api(ApiError::Captcha(j)) => r@ == crate::outside::json_text_of(json_view(*j)),
                ReplyError::BadShape => r@ == "酷安返回的楼中楼数据格式不正确"@,
            },
    {
        match self {
            ReplyError::EmptyReplyId => "评论 ID 不能为空".to_string(),
            ReplyError::UnsupportedListType(t) => {
                let mut out = "不支持的评论排序类型：".to_string();
                crate::text::push_str(&mut out, t.as_str());
                out
            },
            ReplyError::UnsupportedAuthorFilter(n) => {
                let mut out = "不支持的楼主评论筛选值：".to_string();
                crate::text::push_dec(&mut out, *n as u64);
                out
            },
            ReplyError::Api(ApiError::Message(m)) => m.clone(),
            ReplyError::Api(ApiError::Captcha(j)) => crate::outside::json_to_text(j),
            ReplyError::BadShape => "酷安返回的楼中楼数据格式不正确".to_string(),
        }
    }
}

// ---------------------------------------------------------------------------
// One reply's details
// ---------------------------------------------------------------------------

/// A string that is not blank, else the fallback.
pub open spec fn non_blank_or(o: Option<Seq<char>>, fallback: Seq<char>) -> Seq<char> {
    match o {
        Some(s) => if trim(s).len() > 0 {
            s
        } else {
            fallback
        },
        None => fallback,
    }
}

/// The text of a field read as `value_to_string` does (empty when absent).
pub open spec fn text_of(o: Option<JsonV>) -> Seq<char> {
    match o {
        Some(v) => value_text(v),
        None => Seq::empty(),
    }
}

/// The fields of a reply's details: the device the reply was written on,
/// taken from the reply's own fields when they are not blank and else read
/// from its user agent, with the writer's level and verification, the
/// pictures, time, author flag and IP location.
pub open spec fn reply_detail_fields(f: FieldsV) -> FieldsV {
    let ui = field_value(f, "userInfo"@);
    let ua = or_empty(fstr(f, "useragent"@));
    let title = non_blank_or(first_str(f, seq!["device_title"@, "deviceTitle"@, "device_name"@]), device_title(ua));
    let build = non_blank_or(fstr(f, "device_build"@), build_id(ua));
    let rom = non_blank_or(fstr(f, "device_rom"@), device_rom(ua));
    seq![
        ("dateline"@, value_or(f, "dateline"@, count(0))),
        ("deviceBuild"@, JsonV::Str(build)),
        ("deviceName"@, JsonV::Str(or_empty(fstr(f, "device_name"@)))),
        ("deviceRom"@, JsonV::Str(rom)),
        ("deviceTitle"@, JsonV::Str(title)),
        ("id"@, JsonV::Str(text_of_field(f, "id"@))),
        ("ipLocation"@, JsonV::Str(or_empty(first_str(f, seq!["ipLocation"@, "ip_location"@])))),
        ("isFeedAuthor"@, value_or(f, "isFeedAuthor"@, count(0))),
        ("pic"@, value_or(f, "pic"@, JsonV::Null)),
        ("userAgent"@, JsonV::Str(ua)),
        ("userLevel"@, JsonV::Str(text_of(get_opt(ui, "level"@)))),
        ("verifyTitle"@, JsonV::Str(or_empty(as_str_opt(get_opt(ui, "verify_title"@))))),
    ]
}

/// The answer of `/v6/feed/replyDetail` as the app shows it: code 200
/// and the reply's details (see `reply_detail_fields`); `None` when the
/// answer's `data` is not an object.
pub open spec fn reply_detail(raw: JsonV) -> Option<JsonV> {
    match get(raw, "data"@) {
        Some(JsonV::Object(f)) => Some(
            JsonV::Object(seq![("code"@, count(200)), ("data"@, JsonV::Object(reply_detail_fields(f)))]),
        ),
        _ => None,
    }
}

fn non_blank_or_of(o: Option<&str>, fallback: &String) -> (r: String)
    ensures
        r@ == non_blank_or(
            match o {
                Some(s) => Some(s@),
                None => None,
            },
            fallback@,
        ),
{
    match o {
        Some(s) => if trimmed_str(s).len() > 0 {
            s.to_string()
        } else {
            fallback.clone()
        },
        None => fallback.clone(),
    }
}

fn text_of_opt(o: Option<&Json>) -> (r: String)
    ensures
        r@ == text_of(json_opt(o)),
{
    match o {
        Some(v) => value_to_string(v),
        None => String::new(),
    }
}

fn reply_detail_data(fields: &Vec<(String, Json)>) -> (r: Json)
    ensures
        json_view(r) == JsonV::Object(reply_detail_fields(fields_view(fields@))),
{
    let ghost f = fields_view(fields@);
    let ui = field_of(fields, "userInfo");
    proof {
        reveal_strlit("");
    }
    let ua: &str = match field_str(fields, "useragent") {
        Some(s) => s,
        None => "",
    };
    assert(ua@ == or_empty(fstr(f, "useragent"@)));
    let (ua_title, ua_build, ua_rom) = parse_reply_user_agent(ua);
    let title_keys = ["device_title", "deviceTitle", "device_name"];
    assert(str_views(title_keys@) =~= seq!["device_title"@, "deviceTitle"@, "device_name"@]);
    let title = non_blank_or_of(first_field_str(fields, &title_keys), &ua_title);
    let build = non_blank_or_of(field_str(fields, "device_build"), &ua_build);
    let rom = non_blank_or_of(field_str(fields, "device_rom"), &ua_rom);
    let ip_keys = ["ipLocation", "ip_location"];
    assert(str_views(ip_keys@) =~= seq!["ipLocation"@, "ip_location"@]);
    let ip = opt_str_json(first_field_str(fields, &ip_keys));
    let level = match ui {
        Some(u) => text_of_opt(u.get("level")),
        None => String::new(),
    };
    let verify = opt_str_json(info_str(ui, "verify_title"));
    let mut data: Vec<(String, Json)> = Vec::new();
    assert(fields_view(data@) =~= Seq::<(Seq<char>, JsonV)>::empty());
    push_field(&mut data, "dateline", value_or_of(fields, "dateline", count_json(0)));
    push_field(&mut data, "deviceBuild", Json::Str(build));
    push_field(&mut data, "deviceName", opt_str_json(field_str(fields, "device_name")));
    push_field(&mut data, "deviceRom", Json::Str(rom));
    push_field(&mut data, "deviceTitle", Json::Str(title));
    push_field(&mut data, "id", Json::Str(text_field_of(fields, "id")));
    push_field(&mut data, "ipLocation", ip);
    push_field(&mut data, "isFeedAuthor", value_or_of(fields, "isFeedAuthor", count_json(0)));
    push_field(&mut data, "pic", value_or_of(fields, "pic", Json::Null));
    push_field(&mut data, "userAgent", Json::Str(ua.to_string()));
    push_field(&mut data, "userLevel", Json::Str(level));
    push_field(&mut data, "verifyTitle", verify);
    let ghost dv = fields_view(data@);
    let r = Json::Object(data);
    proof {
        lemma_views(r);
    }
    assert(dv =~= reply_detail_fields(f));
    r
}

/// `get_reply_detail`'s answer built from `/v6/feed/replyDetail` (see
/// `reply_detail`); `None` when the answer holds no reply.
pub fn reply_detail_answer(raw: &Json) -> (r: Option<Json>)
    ensures
        match r {
            Some(a) => reply_detail(json_view(*raw)) == Some(json_view(a)),
            None => reply_detail(json_view(*raw)) is None,
        },
{
    let d = raw.get("data");
    let fields = match d {
        Some(Json::Object(fields)) => fields,
        _ => {
            proof {
                match d {
                    Some(v) => {
                        lemma_views(*v);
                    },
                    None => {},
                }
            }
            return None;
        },
    };
    proof {
        lemma_views(Json::Object(*fields));
    }
    let inner = reply_detail_data(fields);
    let mut out: Vec<(String, Json)> = Vec::new();
    assert(fields_view(out@) =~= Seq::<(Seq<char>, JsonV)>::empty());
    push_field(&mut out, "code", count_json(200));
    push_field(&mut out, "data", inner);
    let ghost ov = fields_view(out@);
    let r = Json::Object(out);
    proof {
        lemma_views(r);
    }
    assert(ov =~= reply_detail(json_view(*raw))->Some_0->Object_0);
    Some(r)
}

} // verus!
