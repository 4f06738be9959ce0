//! Which anti-abuse tokens the server configuration demands per API path.

use vstd::prelude::*;
use crate::text::{str_views, chars_eq_str, chars_of, chars_start_with, starts_with};

verus! {

/// Requirements the server configuration declares for a write endpoint.
///
/// `needs_ddid` only records the configuration; the client never sends `ddid`.
#[derive(Clone, Copy, Debug, Default)]
pub struct PathRequirements {
    /// The server configuration lists the path among those needing `ddid`.
    pub needs_ddid: bool,
    /// The form must carry `_v2_post_token` (slider captcha token).
    pub needs_post_token: bool,
}

/// `MainInit.useDDIEventList` as served by the Coolapk configuration.
pub open spec fn ddi_event_paths() -> Seq<Seq<char>> {
    seq![
        "/v6/feed/createFeed"@,
        "/v6/feed/reply"@,
        "/v6/feed/like"@,
        "/v6/feed/likeReply"@,
        "/v6/message/send"@,
    ]
}

/// `PostToken.List` as served by the Coolapk configuration.
pub open spec fn post_token_paths() -> Seq<Seq<char>> {
    seq!["/v6/feed/createFeed"@, "/v6/feed/reply"@]
}

/// `path` is one of the endpoints of `list`, with or without a query
/// string.
pub open spec fn matches_listed(path: Seq<char>, list: Seq<Seq<char>>) -> bool {
    exists|k: int| 0 <= k < list.len() && (path == list[k] || starts_with(path, #[trigger] list[k] + "?"@))
}

fn matches_any(path: &Vec<char>, list: &Vec<&str>) -> (r: bool)
    ensures
        r == matches_listed(path@, str_views(list@)),
{
    let ghost views = str_views(list@);
    let mut k: usize = 0;
    while k < list.len()
        invariant
            k <= list@.len(),
            views == str_views(list@),
            forall|j: int| 0 <= j < k ==> !(path@ == views[j] || starts_with(path@, #[trigger] views[j] + "?"@)),
        decreases list@.len() - k,
    {
        let p = list[k];
        let mut with_query = p.to_string();
        crate::text::push_char(&mut with_query, '?');
        proof {
            reveal_strlit("?");
            assert(with_query@ =~= p@ + "?"@);
        }
        if chars_eq_str(path, p) || chars_start_with(path, with_query.as_str()) {
            assert(views[k as int] == p@);
            return true;
        }
        k += 1;
    }
    false
}

/// Classifies an API path by the token requirements the server declares for it.
pub fn classify_path(path: &str) -> (r: PathRequirements)
    ensures
        r.needs_ddid == matches_listed(path@, ddi_event_paths()),
        r.needs_post_token == matches_listed(path@, post_token_paths()),
{
    let cs = chars_of(path);
    let ddi = vec![
        "/v6/feed/createFeed",
        "/v6/feed/reply",
        "/v6/feed/like",
        "/v6/feed/likeReply",
        "/v6/message/send",
    ];
    let post = vec!["/v6/feed/createFeed", "/v6/feed/reply"];
    assert(str_views(ddi@) =~= ddi_event_paths());
    assert(str_views(post@) =~= post_token_paths());
    PathRequirements { needs_ddid: matches_any(&cs, &ddi), needs_post_token: matches_any(&cs, &post) }
}

/// Every path that needs a post token is also one the `ddid` list covers.
pub proof fn lemma_post_token_paths_need_ddid(path: Seq<char>)
    ensures
        matches_listed(path, post_token_paths()) ==> matches_listed(path, ddi_event_paths()),
{
    if matches_listed(path, post_token_paths()) {
        let k = choose|k: int|
            0 <= k < post_token_paths().len() && (path == post_token_paths()[k] || starts_with(
                path,
                #[trigger] post_token_paths()[k] + "?"@,
            ));
        assert(post_token_paths()[k] == ddi_event_paths()[k]);
        assert(path == ddi_event_paths()[k] || starts_with(path, ddi_event_paths()[k] + "?"@));
    }
}

} // verus!
