//! Host allow-lists and route checks that keep credentials on Coolapk hosts.

use vstd::prelude::*;
use crate::text::{
    chars_end_with, chars_eq_str, chars_of, chars_start_with, contains, ends_with, find_char,
    find_char_from, is_control, is_control_char, lemma_find_char_at, lemma_find_char_none,
    lemma_split_piece, lower_chars, lower_seq, push_str, range_eq_str, range_starts_with,
    ranges_of, ranges_within, split, split_bounds, starts_with, string_of_range, trim,
    trim_range, utf8_len, utf8_len_capped,
};

verus! {

/// A host under an apex domain: the domain itself or one of its subdomains,
/// compared after ASCII lowercasing.
pub open spec fn under_domain(host: Seq<char>, apex: Seq<char>) -> bool {
    let h = lower_seq(host);
    h == apex || ends_with(h, "."@ + apex)
}

fn host_under(host: &str, apex: &str, dotted: &str) -> (r: bool)
    requires
        dotted@ == "."@ + apex@,
    ensures
        r == under_domain(host@, apex@),
{
    let h = lower_chars(&chars_of(host));
    chars_eq_str(&h, apex) || chars_end_with(&h, dotted)
}

/// Login cookies and app fingerprint headers may only go to Coolapk hosts.
pub fn is_coolapk_host(host: &str) -> (r: bool)
    ensures
        r == under_domain(host@, "coolapk.com"@),
{
    proof {
        reveal_strlit("coolapk.com");
        reveal_strlit(".coolapk.com");
        assert(".coolapk.com"@ =~= "."@ + "coolapk.com"@) by {
            reveal_strlit(".");
        }
    }
    host_under(host, "coolapk.com", ".coolapk.com")
}

/// Weibo video CDN hosts the video proxy accepts.
pub fn is_weibo_video_host(host: &str) -> (r: bool)
    ensures
        r == under_domain(host@, "weibocdn.com"@),
{
    proof {
        reveal_strlit("weibocdn.com");
        reveal_strlit(".weibocdn.com");
        assert(".weibocdn.com"@ =~= "."@ + "weibocdn.com"@) by {
            reveal_strlit(".");
        }
    }
    host_under(host, "weibocdn.com", ".weibocdn.com")
}

/// Weibo image hosts the image proxy accepts.
pub fn is_weibo_image_host(host: &str) -> (r: bool)
    ensures
        r == under_domain(host@, "sinaimg.cn"@),
{
    proof {
        reveal_strlit("sinaimg.cn");
        reveal_strlit(".sinaimg.cn");
        assert(".sinaimg.cn"@ =~= "."@ + "sinaimg.cn"@) by {
            reveal_strlit(".");
        }
    }
    host_under(host, "sinaimg.cn", ".sinaimg.cn")
}

/// Only the official API hosts take the Coolapk POST download protocol.
pub fn is_coolapk_download_host(host: &str) -> (r: bool)
    ensures
        r == (lower_seq(host@) == "api.coolapk.com"@ || lower_seq(host@) == "api-dev.coolapk.com"@),
{
    let h = lower_chars(&chars_of(host));
    chars_eq_str(&h, "api.coolapk.com") || chars_eq_str(&h, "api-dev.coolapk.com")
}

/// The text before the first `c` (`split(c).next()`).
pub open spec fn before_char(s: Seq<char>, c: char) -> Seq<char> {
    match find_char(s, c) {
        Some(i) => s.take(i),
        None => s,
    }
}

/// A URL without its fragment and query, for logs.
pub open spec fn redacted(url: Seq<char>) -> Seq<char> {
    before_char(before_char(url, '#'), '?')
}

fn before_char_bound(cs: &Vec<char>, hi: usize, c: char) -> (r: usize)
    requires
        hi <= cs@.len(),
    ensures
        r <= hi,
        cs@.subrange(0, r as int) == before_char(cs@.subrange(0, hi as int), c),
{
    let ghost s = cs@.subrange(0, hi as int);
    match find_char_from(cs, c, 0, hi) {
        Some(i) => {
            proof {
                lemma_find_char_at(s, c, i as int);
                assert(s.take(i as int) =~= cs@.subrange(0, i as int));
            }
            i
        },
        None => {
            proof {
                lemma_find_char_none(s, c);
            }
            hi
        },
    }
}

/// Keeps scheme, host and path; drops query and fragment so credentials in
/// callback parameters never reach the log.
pub fn redact_url(url: &str) -> (r: String)
    ensures
        r@ == redacted(url@),
{
    let cs = chars_of(url);
    assert(cs@.subrange(0, cs@.len() as int) =~= url@);
    let a = before_char_bound(&cs, cs.len(), '#');
    let b = before_char_bound(&cs, a, '?');
    string_of_range(&cs, 0, b)
}

/// A server-provided discovery route is only followed when it is an in-app
/// route: non-blank, at most 2048 bytes, free of control characters, and
/// not an external, script, file or data URL.
pub open spec fn safe_discovery_route(value: Seq<char>) -> bool {
    let t = trim(value);
    let l = lower_seq(t);
    &&& t.len() > 0
    &&& utf8_len(t) <= 2048
    &&& !(exists|i: int| 0 <= i < t.len() && is_control(#[trigger] t[i]))
    &&& !starts_with(l, "http://"@)
    &&& !starts_with(l, "https://"@)
    &&& !starts_with(l, "javascript:"@)
    &&& !starts_with(l, "file:"@)
    &&& !starts_with(l, "data:"@)
}

pub fn is_safe_discovery_page_url(value: &str) -> (r: bool)
    ensures
        r == safe_discovery_route(value@),
{
    let cs = chars_of(value);
    assert(cs@.subrange(0, cs@.len() as int) =~= value@);
    let (a, b) = trim_range(&cs, 0, cs.len());
    let ghost t = cs@.subrange(a as int, b as int);
    if a == b {
        return false;
    }
    let mut i = a;
    while i < b
        invariant
            a <= i <= b <= cs@.len(),
            t == cs@.subrange(a as int, b as int),
            t == trim(value@),
            forall|j: int| 0 <= j < i - a ==> !is_control(#[trigger] t[j]),
        decreases b - i,
    {
        if is_control_char(cs[i]) {
            assert(is_control(t[i - a]));
            return false;
        }
        i += 1;
    }
    let mut lc: Vec<char> = Vec::new();
    let mut j = a;
    while j < b
        invariant
            a <= j <= b <= cs@.len(),
            t == cs@.subrange(a as int, b as int),
            t == trim(value@),
            forall|k: int| 0 <= k < t.len() ==> !is_control(#[trigger] t[k]),
            lc@ == lower_seq(t.take(j - a)),
        decreases b - j,
    {
        lc.push(crate::text::lower_char(cs[j]));
        j += 1;
        assert(lc@ =~= lower_seq(t.take(j - a)));
    }
    assert(t.take(b - a) =~= t);
    if utf8_len_capped(&cs, a, b, 2048).is_none() {
        return false;
    }
    !chars_start_with(&lc, "http://") && !chars_start_with(&lc, "https://") && !chars_start_with(
        &lc,
        "javascript:",
    ) && !chars_start_with(&lc, "file:") && !chars_start_with(&lc, "data:")
}

/// The fixed user-page routes the `/page/dataList` dispatcher accepts, so
/// requests carrying the device fingerprint and cookie cannot be pointed
/// anywhere else.
pub open spec fn rating_route(u: Seq<char>) -> bool {
    let prefix = "#/feed/nodeRatingList?uid="@;
    let parts = split(u.skip(prefix.len() as int), '&');
    &&& starts_with(u, prefix)
    &&& parts.len() == 3
    &&& parts[0].len() > 0
    &&& (parts[1] == "targetType=all"@ || parts[1] == "targetType=apk"@ || parts[1]
        == "targetType=product"@)
    &&& parts[2] == "parseRatingToFeed=1"@
}

pub open spec fn allowed_user_page_route(u: Seq<char>) -> bool {
    ||| u == "#/feed/userCoolPictureFeedList?fragmentTemplate=flex"@
    ||| u == "#/goods/goodsFeedList?type=default&fragmentTemplate=flex"@
    ||| u == "#/feed/userErshouList?fragmentTemplate=flex&ershouStatus=userAll"@
    ||| u == "#/feed/userDeleteFeedList"@
    ||| rating_route(u)
}

fn is_rating_route(cs: &Vec<char>) -> (r: bool)
    ensures
        r == rating_route(cs@),
{
    let prefix = chars_of("#/feed/nodeRatingList?uid=");
    if !chars_start_with(cs, "#/feed/nodeRatingList?uid=") {
        return false;
    }
    let mut rest: Vec<char> = Vec::new();
    let mut i = prefix.len();
    let ghost skipped = cs@.skip(prefix@.len() as int);
    while i < cs.len()
        invariant
            prefix@.len() <= i <= cs@.len(),
            skipped == cs@.skip(prefix@.len() as int),
            rest@ == skipped.take(i - prefix@.len()),
        decreases cs@.len() - i,
    {
        rest.push(cs[i]);
        i += 1;
        assert(rest@ =~= skipped.take(i - prefix@.len()));
    }
    assert(skipped.take(cs@.len() - prefix@.len()) =~= skipped);
    let parts = split_bounds(&rest, '&');
    proof {
        lemma_split_piece(rest@, '&', parts@, 0);
    }
    if parts.len() != 3 {
        return false;
    }
    proof {
        lemma_split_piece(rest@, '&', parts@, 1);
        lemma_split_piece(rest@, '&', parts@, 2);
    }
    let (a0, b0) = parts[0];
    let (a1, b1) = parts[1];
    let (a2, b2) = parts[2];
    let second = range_eq_str(&rest, a1, b1, "targetType=all") || range_eq_str(
        &rest,
        a1,
        b1,
        "targetType=apk",
    ) || range_eq_str(&rest, a1, b1, "targetType=product");
    let third = range_eq_str(&rest, a2, b2, "parseRatingToFeed=1");
    a0 < b0 && second && third
}

pub fn is_allowed_user_page_url(page_url: &str) -> (r: bool)
    ensures
        r == allowed_user_page_route(page_url@),
{
    let cs = chars_of(page_url);
    if chars_eq_str(&cs, "#/feed/userCoolPictureFeedList?fragmentTemplate=flex") {
        return true;
    }
    if chars_eq_str(&cs, "#/goods/goodsFeedList?type=default&fragmentTemplate=flex") {
        return true;
    }
    if chars_eq_str(&cs, "#/feed/userErshouList?fragmentTemplate=flex&ershouStatus=userAll") {
        return true;
    }
    if chars_eq_str(&cs, "#/feed/userDeleteFeedList") {
        return true;
    }
    is_rating_route(&cs)
}

/// Only the app's own origins may be loaded in the main window: the fixed
/// development port on loopback, `tauri.localhost` over HTTP(S), and
/// `tauri://localhost`.
pub open spec fn main_window_origin_allowed(scheme: Seq<char>, host: Seq<char>, port: Option<u16>) -> bool {
    let s = lower_seq(scheme);
    let h = lower_seq(host);
    if s == "http"@ || s == "https"@ {
        h == "tauri.localhost"@ || (h == "127.0.0.1"@ && port == Some(17520u16))
    } else if s == "tauri"@ {
        h == "localhost"@
    } else {
        false
    }
}

/// Decides whether the main window may navigate to a URL, given its scheme,
/// host (empty when absent) and port.
pub fn is_main_window_navigation_allowed(scheme: &str, host: &str, port: Option<u16>) -> (r: bool)
    ensures
        r == main_window_origin_allowed(scheme@, host@, port),
{
    let s = lower_chars(&chars_of(scheme));
    let h = lower_chars(&chars_of(host));
    if chars_eq_str(&s, "http") || chars_eq_str(&s, "https") {
        chars_eq_str(&h, "tauri.localhost") || (chars_eq_str(&h, "127.0.0.1") && port == Some(
            17520u16,
        ))
    } else if chars_eq_str(&s, "tauri") {
        chars_eq_str(&h, "localhost")
    } else {
        false
    }
}

} // verus!
