//! Form bodies whose field names are built from positions: a vote's
//! selected options and a product album's items.

use vstd::prelude::*;
use crate::json::{as_str_opt, get, items_view, json_view, lemma_views, Json, JsonV};
use crate::outside::{json_text_value, parse_json_text};
use crate::text::{dec, push_dec, push_str, trim, trimmed_str, string_of, u64_to_string};

verus! {

/// A form's fields as texts.
pub open spec fn pairs_view(v: Seq<(String, String)>) -> Seq<(Seq<char>, Seq<char>)> {
    Seq::new(v.len(), |i: int| (v[i].0@, v[i].1@))
}

fn push_pair(out: &mut Vec<(String, String)>, key: String, value: String)
    ensures
        pairs_view(final(out)@) == pairs_view(old(out)@).push((key@, value@)),
{
    let ghost before = pairs_view(out@);
    let ghost kv = (key@, value@);
    out.push((key, value));
    assert(pairs_view(out@) =~= before.push(kv));
}

// ---------------------------------------------------------------------------
// Votes
// ---------------------------------------------------------------------------

/// Why a vote was not sent.
#[derive(Debug)]
pub enum VoteError {
    /// The voted feed's id is blank.
    EmptyFeedId,
    /// No option is selected.
    NoOption,
    /// A selected option's id is blank.
    EmptyOption,
}

impl VoteError {
    /// The message shown for the error.
    pub fn message(&self) -> (r: String)
        ensures
            match self {
                VoteError::EmptyFeedId => r@ == "投票动态 ID 不能为空"@,
                VoteError::NoOption => r@ == "至少选择一个投票选项"@,
                VoteError::EmptyOption => r@ == "投票选项 ID 不能为空"@,
            },
    {
        match self {
            VoteError::EmptyFeedId => "投票动态 ID 不能为空".to_string(),
            VoteError::NoOption => "至少选择一个投票选项".to_string(),
            VoteError::EmptyOption => "投票选项 ID 不能为空".to_string(),
        }
    }
}

/// Model of `VoteError`.
pub enum VoteErrorV {
    EmptyFeedId,
    NoOption,
    EmptyOption,
}

pub open spec fn vote_error_view(e: VoteError) -> VoteErrorV {
    match e {
        VoteError::EmptyFeedId => VoteErrorV::EmptyFeedId,
        VoteError::NoOption => VoteErrorV::NoOption,
        VoteError::EmptyOption => VoteErrorV::EmptyOption,
    }
}

/// The name of the `i`-th selected option's field.
pub open spec fn option_key(i: int) -> Seq<char> {
    "select_option["@ + dec(i as nat) + "]"@
}

/// The form of `/v6/vote/createUserVote`: the feed id, whether the vote
/// is anonymous (`1`/`0`), and each selected option's trimmed id under its
/// position. Refused when the feed id is blank, nothing is selected, or a
/// selected id is blank.
pub open spec fn vote_form(feed_id: Seq<char>, option_ids: Seq<Seq<char>>, anonymous: bool) -> Result<
    Seq<(Seq<char>, Seq<char>)>,
    VoteErrorV,
> {
    if trim(feed_id).len() == 0 {
        Err(VoteErrorV::EmptyFeedId)
    } else if option_ids.len() == 0 {
        Err(VoteErrorV::NoOption)
    } else if exists|i: int| 0 <= i < option_ids.len() && trim(#[trigger] option_ids[i]).len() == 0 {
        Err(VoteErrorV::EmptyOption)
    } else {
        Ok(
            seq![("id"@, feed_id), ("anonymous_status"@, if anonymous {
                "1"@
            } else {
                "0"@
            })] + Seq::new(option_ids.len(), |i: int| (option_key(i), trim(option_ids[i]))),
        )
    }
}

/// The texts of a list of strings.
pub open spec fn texts(v: Seq<String>) -> Seq<Seq<char>> {
    Seq::new(v.len(), |i: int| v[i]@)
}

/// Builds `vote_form`.
pub fn user_vote_form(feed_id: &str, option_ids: &[String], anonymous_status: bool) -> (r: Result<
    Vec<(String, String)>,
    VoteError,
>)
    ensures
        match r {
            Ok(f) => vote_form(feed_id@, texts(option_ids@), anonymous_status) == Ok::<
                Seq<(Seq<char>, Seq<char>)>,
                VoteErrorV,
            >(pairs_view(f@)),
            Err(e) => vote_form(feed_id@, texts(option_ids@), anonymous_status) == Err::<
                Seq<(Seq<char>, Seq<char>)>,
                VoteErrorV,
            >(vote_error_view(e)),
        },
{
    let ghost ids = texts(option_ids@);
    if trimmed_str(feed_id).len() == 0 {
        return Err(VoteError::EmptyFeedId);
    }
    if option_ids.len() == 0 {
        return Err(VoteError::NoOption);
    }
    let mut out: Vec<(String, String)> = Vec::new();
    push_pair(&mut out, "id".to_string(), feed_id.to_string());
    push_pair(&mut out, "anonymous_status".to_string(), if anonymous_status {
        "1".to_string()
    } else {
        "0".to_string()
    });
    let ghost head = pairs_view(out@);
    let mut i: usize = 0;
    while i < option_ids.len()
        invariant
            i <= option_ids@.len(),
            ids == texts(option_ids@),
            trim(feed_id@).len() > 0,
            option_ids@.len() > 0,
            head == seq![("id"@, feed_id@), ("anonymous_status"@, if anonymous_status {
                "1"@
            } else {
                "0"@
            })],
            pairs_view(out@) == head + Seq::new(i as nat, |k: int| (option_key(k), trim(ids[k]))),
            forall|k: int| 0 <= k < i ==> trim(#[trigger] ids[k]).len() > 0,
        decreases option_ids@.len() - i,
    {
        let t = trimmed_str(option_ids[i].as_str());
        if t.len() == 0 {
            assert(trim(ids[i as int]).len() == 0);
            return Err(VoteError::EmptyOption);
        }
        let mut key = "select_option[".to_string();
        push_dec(&mut key, i as u64);
        push_str(&mut key, "]");
        let ghost before = pairs_view(out@);
        push_pair(&mut out, key, string_of(&t));
        assert(pairs_view(out@) =~= head + Seq::new((i + 1) as nat, |k: int| (option_key(k), trim(ids[k]))));
        i += 1;
    }
    assert(forall|k: int| 0 <= k < ids.len() ==> trim(#[trigger] ids[k]).len() > 0);
    Ok(out)
}

// ---------------------------------------------------------------------------
// Product albums
// ---------------------------------------------------------------------------

/// A string field of an item, else `default`.
pub open spec fn item_text(item: JsonV, key: Seq<char>, default: Seq<char>) -> Seq<char> {
    match as_str_opt(get(item, key)) {
        Some(s) => s,
        None => default,
    }
}

/// The name of field `name` of the `i`-th album item.
pub open spec fn item_key(i: int, name: Seq<char>) -> Seq<char> {
    "productItems["@ + dec(i as nat) + "]["@ + name + "]"@
}

/// The fields of the `i`-th album item: its id, level (default 1), item
/// id, logo, name, description and images, and its position.
pub open spec fn album_item_fields(i: int, item: JsonV) -> Seq<(Seq<char>, Seq<char>)> {
    seq![
        (item_key(i, "id"@), item_text(item, "id"@, Seq::empty())),
        (item_key(i, "level"@), item_text(item, "level"@, "1"@)),
        (item_key(i, "item_id"@), item_text(item, "item_id"@, Seq::empty())),
        (item_key(i, "item_logo"@), item_text(item, "item_logo"@, Seq::empty())),
        (item_key(i, "item_name"@), item_text(item, "item_name"@, Seq::empty())),
        (item_key(i, "item_description"@), item_text(item, "item_description"@, Seq::empty())),
        (item_key(i, "item_images"@), item_text(item, "item_images"@, Seq::empty())),
        (item_key(i, "display_order"@), dec(i as nat)),
    ]
}

/// The fields of the first `n` album items.
pub open spec fn album_items_fields(items: Seq<JsonV>, n: int) -> Seq<(Seq<char>, Seq<char>)>
    decreases n,
{
    if n <= 0 {
        Seq::empty()
    } else {
        album_items_fields(items, n - 1) + album_item_fields(n - 1, items[n - 1])
    }
}

/// The form of a new product album: its title, description, type and
/// target, then the fields of each item of the JSON list `product_items`
/// (none when that text is not a JSON list).
pub open spec fn album_form(
    title: Seq<char>,
    description: Seq<char>,
    album_type: u32,
    target_type: Seq<char>,
    target_id: Seq<char>,
    product_items: Seq<char>,
) -> Seq<(Seq<char>, Seq<char>)> {
    seq![
        ("title"@, title),
        ("description"@, description),
        ("album_type"@, dec(album_type as nat)),
        ("targetType"@, target_type),
        ("targetId"@, target_id),
    ] + match json_text_value(product_items) {
        Some(JsonV::Array(items)) => album_items_fields(items, items.len() as int),
        _ => Seq::empty(),
    }
}

fn item_text_of(item: &Json, key: &str, default: &str) -> (r: String)
    ensures
        r@ == item_text(json_view(*item), key@, default@),
{
    match item.get(key) {
        Some(v) => match v.as_str() {
            Some(s) => s.to_string(),
            None => default.to_string(),
        },
        None => default.to_string(),
    }
}

fn item_key_of(i: usize, name: &str) -> (r: String)
    ensures
        r@ == item_key(i as int, name@),
{
    let mut k = "productItems[".to_string();
    push_dec(&mut k, i as u64);
    push_str(&mut k, "][");
    push_str(&mut k, name);
    push_str(&mut k, "]");
    k
}

/// `create_product_album`'s form (see `album_form`).
pub fn product_album_form(
    title: &str,
    description: &str,
    album_type: u32,
    target_type: &str,
    target_id: &str,
    product_items: &str,
) -> (r: Vec<(String, String)>)
    ensures
        pairs_view(r@) == album_form(title@, description@, album_type, target_type@, target_id@, product_items@),
{
    let mut out: Vec<(String, String)> = Vec::new();
    push_pair(&mut out, "title".to_string(), title.to_string());
    push_pair(&mut out, "description".to_string(), description.to_string());
    push_pair(&mut out, "album_type".to_string(), u64_to_string(album_type as u64));
    push_pair(&mut out, "targetType".to_string(), target_type.to_string());
    push_pair(&mut out, "targetId".to_string(), target_id.to_string());
    let ghost head = pairs_view(out@);
    assert(head =~= seq![
        ("title"@, title@),
        ("description"@, description@),
        ("album_type"@, dec(album_type as nat)),
        ("targetType"@, target_type@),
        ("targetId"@, target_id@),
    ]);
    let parsed = parse_json_text(product_items);
    match parsed {
        Some(Json::Array(items)) => {
            proof {
                lemma_views(Json::Array(items));
            }
            let ghost iv = items_view(items@);
            let mut i: usize = 0;
            assert(head + album_items_fields(iv, 0) =~= head);
            while i < items.len()
                invariant
                    i <= items@.len(),
                    iv == items_view(items@),
                    pairs_view(out@) == head + album_items_fields(iv, i as int),
                decreases items@.len() - i,
            {
                let item = &items[i];
                assert(iv[i as int] == json_view(*item));
                let ghost before = pairs_view(out@);
                push_pair(&mut out, item_key_of(i, "id"), item_text_of(item, "id", ""));
                push_pair(&mut out, item_key_of(i, "level"), item_text_of(item, "level", "1"));
                push_pair(&mut out, item_key_of(i, "item_id"), item_text_of(item, "item_id", ""));
                push_pair(&mut out, item_key_of(i, "item_logo"), item_text_of(item, "item_logo", ""));
                push_pair(&mut out, item_key_of(i, "item_name"), item_text_of(item, "item_name", ""));
                push_pair(&mut out, item_key_of(i, "item_description"), item_text_of(item, "item_description", ""));
                push_pair(&mut out, item_key_of(i, "item_images"), item_text_of(item, "item_images", ""));
                push_pair(&mut out, item_key_of(i, "display_order"), u64_to_string(i as u64));
                proof {
                    reveal_strlit("");
                    assert(""@ =~= Seq::<char>::empty());
                }
                assert(pairs_view(out@) =~= before + album_item_fields(i as int, iv[i as int]));
                i += 1;
            }
        },
        _ => {
            proof {
                match parsed {
                    Some(v) => {
                        lemma_views(v);
                    },
                    None => {},
                }
            }
            assert(pairs_view(out@) =~= head + Seq::<(Seq<char>, Seq<char>)>::empty());
        },
    }
    out
}

} // verus!
