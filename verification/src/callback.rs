//! The login callback: percent-decoding, parameters of the callback URL,
//! and merging the cookies that come back from the login web view.

use vstd::prelude::*;
use crate::outside::{utf8_lossy, utf8_lossy_text};
use crate::text::{
    chars_eq, chars_of, find_char, find_char_from, lemma_find_char_at,
    lemma_find_char_none, lemma_split_piece, push_range, push_str, ranges_of, ranges_within, split,
    split_bounds, string_of_range, trim, trim_range,
};
use crate::url::before_char;
use vstd::string::StringSliceAdditionalSpecFns;

verus! {

/// The user agent of the login web view: a desktop browser, so that the
/// login page keeps mouse events.
pub const LOGIN_WEBVIEW_USER_AGENT: &'static str = "Mozilla/5.0 (Windows NT 10.0; Win64; x64) AppleWebKit/537.36 (KHTML, like Gecko) Chrome/152.0.0.0 Safari/537.36";

// ---------------------------------------------------------------------------
// Percent-decoding
// ---------------------------------------------------------------------------

/// Value of an ASCII hexadecimal digit.
pub open spec fn hex_value(b: u8) -> Option<u8> {
    if 48 <= b <= 57 {
        Some((b - 48) as u8)
    } else if 97 <= b <= 102 {
        Some((b - 87) as u8)
    } else if 65 <= b <= 70 {
        Some((b - 55) as u8)
    } else {
        None
    }
}

/// `u8::from_str_radix` of a two-byte text in base 16: two hexadecimal
/// digits, or `+` and one digit.
pub open spec fn radix16_pair(a: u8, b: u8) -> Option<u8> {
    if a == 43 {
        hex_value(b)
    } else {
        match (hex_value(a), hex_value(b)) {
            (Some(x), Some(y)) => Some((16 * x + y) as u8),
            _ => None,
        }
    }
}

/// Bytes after percent-decoding: `%XY` becomes the byte `XY`, `+` a space.
pub open spec fn percent_decoded(b: Seq<u8>) -> Seq<u8>
    decreases b.len(),
{
    if b.len() == 0 {
        Seq::empty()
    } else if b[0] == 37 && 2 < b.len() && radix16_pair(b[1], b[2]) is Some {
        seq![radix16_pair(b[1], b[2])->0] + percent_decoded(b.skip(3))
    } else if b[0] == 43 {
        seq![32u8] + percent_decoded(b.drop_first())
    } else {
        seq![b[0]] + percent_decoded(b.drop_first())
    }
}

/// No `%` is followed, three bytes on, by the inside of a multi-byte
/// character: the two bytes after each `%` can be read as a text.
pub open spec fn percent_decodable(b: Seq<u8>) -> bool {
    forall|i: int|
        0 <= i && i + 3 < b.len() && #[trigger] b[i] == 37 ==> !vstd::utf8::is_continuation_byte(
            b[i + 3],
        )
}

/// The text a percent-encoded text stands for; invalid UTF-8 becomes
/// U+FFFD.
pub open spec fn percent_text(s: Seq<char>) -> Seq<char> {
    utf8_lossy(percent_decoded(vstd::utf8::encode_utf8(s)))
}

fn hex_digit_value(b: u8) -> (r: Option<u8>)
    ensures
        r == hex_value(b),
{
    if 48 <= b && b <= 57 {
        Some(b - 48)
    } else if 97 <= b && b <= 102 {
        Some(b - 87)
    } else if 65 <= b && b <= 70 {
        Some(b - 55)
    } else {
        None
    }
}

fn radix16_value(a: u8, b: u8) -> (r: Option<u8>)
    ensures
        r == radix16_pair(a, b),
{
    if a == 43 {
        hex_digit_value(b)
    } else {
        match (hex_digit_value(a), hex_digit_value(b)) {
            (Some(x), Some(y)) => Some(16 * x + y),
            _ => None,
        }
    }
}

/// Decodes `%XY` escapes and `+` for space; invalid UTF-8 in the result
/// becomes U+FFFD.
pub fn percent_decode(s: &str) -> (r: String)
    requires
        percent_decodable(s.spec_bytes()),
    ensures
        r@ == percent_text(s@),
{
    let bytes = s.as_bytes();
    let n = bytes.len();
    let mut out: Vec<u8> = Vec::new();
    let mut i: usize = 0;
    assert(bytes@.skip(0) =~= bytes@);
    while i < n
        invariant
            i <= n == bytes@.len(),
            percent_decoded(bytes@) == out@ + percent_decoded(bytes@.skip(i as int)),
        decreases n - i,
    {
        let ghost rest = bytes@.skip(i as int);
        if bytes[i] == 37 && n - i > 2 {
            if let Some(b) = radix16_value(bytes[i + 1], bytes[i + 2]) {
                proof {
                    assert(rest[1] == bytes@[i + 1] && rest[2] == bytes@[i + 2]);
                    assert(rest.skip(3) =~= bytes@.skip(i + 3));
                }
                out.push(b);
                i += 3;
                assert(percent_decoded(bytes@) =~= out@ + percent_decoded(bytes@.skip(i as int)));
                continue;
            }
        }
        assert(rest.drop_first() =~= bytes@.skip(i + 1));
        if bytes[i] == 43 {
            out.push(32);
        } else {
            out.push(bytes[i]);
        }
        i += 1;
        assert(percent_decoded(bytes@) =~= out@ + percent_decoded(bytes@.skip(i as int)));
    }
    assert(bytes@.skip(n as int) =~= Seq::<u8>::empty());
    assert(out@ =~= percent_decoded(bytes@));
    utf8_lossy_text(out.as_slice())
}

// ---------------------------------------------------------------------------
// Callback parameters
// ---------------------------------------------------------------------------

/// The name of a `name=value` pair (all of it when there is no `=`).
pub open spec fn pair_name(p: Seq<char>) -> Seq<char> {
    before_char(p, '=')
}

/// The value of a `name=value` pair (empty when there is no `=`).
pub open spec fn pair_value(p: Seq<char>) -> Seq<char> {
    match find_char(p, '=') {
        Some(i) => p.skip(i + 1),
        None => Seq::empty(),
    }
}

/// The decoded value of the first pair whose decoded name is `key`.
pub open spec fn lookup_pair(pairs: Seq<Seq<char>>, key: Seq<char>) -> Option<Seq<char>>
    decreases pairs.len(),
{
    if pairs.len() == 0 {
        None
    } else if percent_text(pair_name(pairs[0])) == key {
        Some(percent_text(pair_value(pairs[0])))
    } else {
        lookup_pair(pairs.drop_first(), key)
    }
}

/// The query after the first `?`, up to the fragment.
pub open spec fn main_query(url: Seq<char>) -> Option<Seq<char>> {
    match find_char(url, '?') {
        Some(i) => Some(before_char(url.skip(i + 1), '#')),
        None => None,
    }
}

/// The query inside the fragment (`#/route?query`).
pub open spec fn fragment_query(url: Seq<char>) -> Option<Seq<char>> {
    match find_char(url, '#') {
        Some(j) => {
            let frag = url.skip(j + 1);
            match find_char(frag, '?') {
                Some(k) => Some(frag.skip(k + 1)),
                None => None,
            }
        },
        None => None,
    }
}

pub open spec fn query_lookup(q: Option<Seq<char>>, key: Seq<char>) -> Option<Seq<char>> {
    match q {
        Some(q) => lookup_pair(split(q, '&'), key),
        None => None,
    }
}

/// A parameter of a login callback URL: looked up in the query, then in
/// the query inside the fragment.
pub open spec fn callback_param(url: Seq<char>, key: Seq<char>) -> Option<Seq<char>> {
    match query_lookup(main_query(url), key) {
        Some(v) => Some(v),
        None => query_lookup(fragment_query(url), key),
    }
}

/// A text that `percent_decode` accepts.
pub open spec fn decodable_text(s: Seq<char>) -> bool {
    percent_decodable(vstd::utf8::encode_utf8(s))
}

/// What a lookup of `key` decodes can be decoded: the name of each pair up
/// to the first that matches, and the value of that one.
pub open spec fn lookup_decodable(pairs: Seq<Seq<char>>, key: Seq<char>) -> bool
    decreases pairs.len(),
{
    if pairs.len() == 0 {
        true
    } else {
        decodable_text(pair_name(pairs[0])) && if percent_text(pair_name(pairs[0])) == key {
            decodable_text(pair_value(pairs[0]))
        } else {
            lookup_decodable(pairs.drop_first(), key)
        }
    }
}

pub open spec fn query_decodable(q: Option<Seq<char>>, key: Seq<char>) -> bool {
    match q {
        Some(q) => lookup_decodable(split(q, '&'), key),
        None => true,
    }
}

/// What looking up `key` in a callback URL decodes can be decoded: in the
/// query, and in the query inside the fragment when the first has no such
/// parameter.
pub open spec fn callback_decodable(url: Seq<char>, key: Seq<char>) -> bool {
    &&& query_decodable(main_query(url), key)
    &&& query_lookup(main_query(url), key) is None ==> query_decodable(fragment_query(url), key)
}

/// The decoded value of `key` among the `&`-separated pairs of `q`.
fn lookup_in(q: &Vec<char>, key: &str) -> (r: Option<String>)
    requires
        lookup_decodable(split(q@, '&'), key@),
    ensures
        match r {
            Some(v) => lookup_pair(split(q@, '&'), key@) == Some(v@),
            None => lookup_pair(split(q@, '&'), key@) is None,
        },
{
    let kc = chars_of(key);
    let bounds = split_bounds(q, '&');
    let ghost parts = split(q@, '&');
    let mut k: usize = 0;
    proof {
        lemma_split_piece(q@, '&', bounds@, 0);
        assert(parts.skip(0) =~= parts);
    }
    while k < bounds.len()
        invariant
            k <= bounds@.len() == parts.len(),
            parts == split(q@, '&'),
            kc@ == key@,
            lookup_decodable(parts.skip(k as int), key@),
            ranges_within(bounds@, q@.len() as int),
            ranges_of(q@, bounds@) == parts,
            lookup_pair(parts, key@) == lookup_pair(parts.skip(k as int), key@),
        decreases bounds@.len() - k,
    {
        let (a, b) = bounds[k];
        let ghost piece = q@.subrange(a as int, b as int);
        proof {
            lemma_split_piece(q@, '&', bounds@, k as int);
            assert(parts.skip(k as int)[0] == piece);
            assert(parts.skip(k as int).drop_first() =~= parts.skip(k + 1));
        }
        let eq = find_char_from(q, '=', a, b);
        let e = match eq {
            Some(e) => e,
            None => b,
        };
        proof {
            match eq {
                Some(e) => {
                    assert(piece[e - a] == '=');
                    assert forall|j: int| 0 <= j < e - a implies piece[j] != '=' by {
                        assert(piece[j] == q@[a + j]);
                    }
                    lemma_find_char_at(piece, '=', e - a);
                    assert(pair_name(piece) =~= q@.subrange(a as int, e as int));
                    assert(pair_value(piece) =~= q@.subrange(e + 1, b as int));
                },
                None => {
                    assert forall|j: int| 0 <= j < piece.len() implies piece[j] != '=' by {
                        assert(piece[j] == q@[a + j]);
                    }
                    lemma_find_char_none(piece, '=');
                    assert(pair_name(piece) =~= q@.subrange(a as int, e as int));
                },
            }
        }
        let name = string_of_range(q, a, e);
        let decoded = percent_decode(name.as_str());
        if chars_eq(&chars_of(decoded.as_str()), &kc) {
            let value = match eq {
                Some(e) => string_of_range(q, e + 1, b),
                None => String::new(),
            };
            proof {
                if eq is None {
                    assert(value@ =~= pair_value(piece));
                    assert(vstd::utf8::encode_utf8(value@) =~= Seq::<u8>::empty());
                }
            }
            return Some(percent_decode(value.as_str()));
        }
        k += 1;
    }
    assert(parts.skip(k as int) =~= Seq::<Seq<char>>::empty());
    None
}

/// A copy of `cs[lo..hi]`.
fn sub_chars(cs: &Vec<char>, lo: usize, hi: usize) -> (r: Vec<char>)
    requires
        lo <= hi <= cs@.len(),
    ensures
        r@ == cs@.subrange(lo as int, hi as int),
{
    let mut r: Vec<char> = Vec::new();
    let mut i = lo;
    while i < hi
        invariant
            lo <= i <= hi <= cs@.len(),
            r@ == cs@.subrange(lo as int, i as int),
        decreases hi - i,
    {
        r.push(cs[i]);
        i += 1;
        assert(r@ =~= cs@.subrange(lo as int, i as int));
    }
    r
}

/// The first `c` in `cs[lo..hi]`, as an absolute index.
fn first_char_in(cs: &Vec<char>, c: char, lo: usize, hi: usize) -> (r: Option<usize>)
    requires
        lo <= hi <= cs@.len(),
    ensures
        match r {
            Some(i) => lo <= i < hi && find_char(cs@.subrange(lo as int, hi as int), c) == Some(
                i - lo,
            ),
            None => find_char(cs@.subrange(lo as int, hi as int), c) is None,
        },
{
    let ghost s = cs@.subrange(lo as int, hi as int);
    match find_char_from(cs, c, lo, hi) {
        Some(i) => {
            proof {
                assert forall|j: int| 0 <= j < i - lo implies s[j] != c by {
                    assert(s[j] == cs@[lo + j]);
                }
                lemma_find_char_at(s, c, i - lo);
            }
            Some(i)
        },
        None => {
            proof {
                assert forall|j: int| 0 <= j < s.len() implies s[j] != c by {
                    assert(s[j] == cs@[lo + j]);
                }
                lemma_find_char_none(s, c);
            }
            None
        },
    }
}

/// The decoded value of `key` among the pairs of `cs[lo..hi]`.
fn lookup_range(cs: &Vec<char>, lo: usize, hi: usize, key: &str) -> (r: Option<String>)
    requires
        lo <= hi <= cs@.len(),
        query_decodable(Some(cs@.subrange(lo as int, hi as int)), key@),
    ensures
        match r {
            Some(v) => query_lookup(Some(cs@.subrange(lo as int, hi as int)), key@) == Some(v@),
            None => query_lookup(Some(cs@.subrange(lo as int, hi as int)), key@) is None,
        },
{
    let q = sub_chars(cs, lo, hi);
    lookup_in(&q, key)
}

/// A parameter of a login callback URL, percent-decoded: looked up in the
/// query first, then in the query inside the fragment.
pub fn extract_callback_param(url: &str, key: &str) -> (r: Option<String>)
    requires
        callback_decodable(url@, key@),
    ensures
        match r {
            Some(v) => callback_param(url@, key@) == Some(v@),
            None => callback_param(url@, key@) is None,
        },
{
    let cs = chars_of(url);
    let n = cs.len();
    assert(cs@.subrange(0, n as int) =~= cs@);
    if let Some(i) = first_char_in(&cs, '?', 0, n) {
        let end = match first_char_in(&cs, '#', i + 1, n) {
            Some(h) => h,
            None => n,
        };
        proof {
            assert(cs@.skip(i + 1) =~= cs@.subrange(i + 1, n as int));
            assert(before_char(cs@.skip(i + 1), '#') =~= cs@.subrange(i + 1, end as int));
        }
        if let Some(v) = lookup_range(&cs, i + 1, end, key) {
            return Some(v);
        }
    }
    if let Some(j) = first_char_in(&cs, '#', 0, n) {
        proof {
            assert(cs@.skip(j + 1) =~= cs@.subrange(j + 1, n as int));
        }
        if let Some(k) = first_char_in(&cs, '?', j + 1, n) {
            proof {
                assert(cs@.skip(j + 1).skip(k - j) =~= cs@.subrange(k + 1, n as int));
            }
            return lookup_range(&cs, k + 1, n, key);
        }
    }
    None
}

/// The cookie a login callback carries in its `ck` parameter.
pub fn extract_ck_from_url(url: &str) -> (r: Option<String>)
    requires
        callback_decodable(url@, "ck"@),
    ensures
        match r {
            Some(v) => callback_param(url@, "ck"@) == Some(v@),
            None => callback_param(url@, "ck"@) is None,
        },
{
    extract_callback_param(url, "ck")
}

/// The one-time code of a login callback: only when `ac` is
/// `access_token`, and only when the code is not blank.
pub fn extract_access_code_from_url(url: &str) -> (r: Option<String>)
    requires
        callback_decodable(url@, "ac"@),
        callback_param(url@, "ac"@) == Some("access_token"@) ==> callback_decodable(url@, "code"@),
    ensures
        match r {
            Some(v) => callback_param(url@, "ac"@) == Some("access_token"@)
                && callback_param(url@, "code"@) == Some(v@) && trim(v@).len() > 0,
            None => callback_param(url@, "ac"@) != Some("access_token"@) || match callback_param(
                url@,
                "code"@,
            ) {
                Some(c) => trim(c).len() == 0,
                None => true,
            },
        },
{
    let ac = extract_callback_param(url, "ac");
    let is_access = match &ac {
        Some(v) => chars_eq(&chars_of(v.as_str()), &chars_of("access_token")),
        None => false,
    };
    if !is_access {
        return None;
    }
    match extract_callback_param(url, "code") {
        Some(code) => {
            let t = crate::text::trimmed_str(code.as_str());
            if t.len() == 0 {
                None
            } else {
                Some(code)
            }
        },
        None => None,
    }
}

// ---------------------------------------------------------------------------
// Merging cookie headers
// ---------------------------------------------------------------------------

/// Name and value of one `;`-separated cookie item, both trimmed.
pub open spec fn cookie_item(item: Seq<char>) -> (Seq<char>, Seq<char>) {
    let t = trim(item);
    (trim(pair_name(t)), trim(pair_value(t)))
}

/// Index of the pair named `name`.
pub open spec fn key_index(pairs: Seq<(Seq<char>, Seq<char>)>, name: Seq<char>) -> Option<int>
    decreases pairs.len(),
{
    if pairs.len() == 0 {
        None
    } else if pairs[0].0 == name {
        Some(0)
    } else {
        match key_index(pairs.drop_first(), name) {
            Some(i) => Some(i + 1),
            None => None,
        }
    }
}

/// Sets `name` to `value`: in place when present, else at the end.
pub open spec fn upsert(pairs: Seq<(Seq<char>, Seq<char>)>, name: Seq<char>, value: Seq<char>) -> Seq<
    (Seq<char>, Seq<char>),
> {
    match key_index(pairs, name) {
        Some(i) => pairs.update(i, (name, value)),
        None => pairs.push((name, value)),
    }
}

/// Adds the items of a cookie header in order; items without a name are
/// skipped.
pub open spec fn merge_items(pairs: Seq<(Seq<char>, Seq<char>)>, items: Seq<Seq<char>>) -> Seq<
    (Seq<char>, Seq<char>),
>
    decreases items.len(),
{
    if items.len() == 0 {
        pairs
    } else {
        let (name, value) = cookie_item(items[0]);
        let next = if name.len() == 0 {
            pairs
        } else {
            upsert(pairs, name, value)
        };
        merge_items(next, items.drop_first())
    }
}

pub open spec fn opt_text(o: Option<&str>) -> Seq<char> {
    match o {
        Some(s) => s@,
        None => Seq::empty(),
    }
}

/// The pairs of both headers, the second overriding the first.
pub open spec fn merged_pairs(first: Seq<char>, second: Seq<char>) -> Seq<(Seq<char>, Seq<char>)> {
    merge_items(merge_items(Seq::empty(), split(first, ';')), split(second, ';'))
}

pub open spec fn pair_texts(pairs: Seq<(Seq<char>, Seq<char>)>) -> Seq<Seq<char>> {
    pairs.map_values(|p: (Seq<char>, Seq<char>)| p.0 + seq!['='] + p.1)
}

/// The merged header, `None` when neither holds a named item.
pub open spec fn merged_cookie_header(first: Seq<char>, second: Seq<char>) -> Option<Seq<char>> {
    let ps = merged_pairs(first, second);
    if ps.len() == 0 {
        None
    } else {
        Some(crate::text::join(pair_texts(ps), "; "@))
    }
}

pub open spec fn pairs_view(v: Seq<(String, String)>) -> Seq<(Seq<char>, Seq<char>)> {
    v.map_values(|p: (String, String)| (p.0@, p.1@))
}

proof fn lemma_key_index_at(pairs: Seq<(Seq<char>, Seq<char>)>, name: Seq<char>, i: int)
    requires
        0 <= i < pairs.len(),
        pairs[i].0 == name,
        forall|j: int| 0 <= j < i ==> pairs[j].0 != name,
    ensures
        key_index(pairs, name) == Some(i),
    decreases pairs.len(),
{
    if i > 0 {
        lemma_key_index_at(pairs.drop_first(), name, i - 1);
    }
}

proof fn lemma_key_index_none(pairs: Seq<(Seq<char>, Seq<char>)>, name: Seq<char>)
    requires
        forall|j: int| 0 <= j < pairs.len() ==> pairs[j].0 != name,
    ensures
        key_index(pairs, name) is None,
    decreases pairs.len(),
{
    if pairs.len() > 0 {
        lemma_key_index_none(pairs.drop_first(), name);
    }
}

/// Sets `name` to `value` in a pair list.
fn upsert_pair(pairs: &mut Vec<(String, String)>, name: String, value: String)
    ensures
        pairs_view(final(pairs)@) == upsert(pairs_view(old(pairs)@), name@, value@),
{
    let ghost v = pairs_view(pairs@);
    let mut j: usize = 0;
    while j < pairs.len()
        invariant
            j <= pairs@.len(),
            pairs@ == old(pairs)@,
            v == pairs_view(pairs@),
            forall|k: int| 0 <= k < j ==> v[k].0 != name@,
        decreases pairs@.len() - j,
    {
        if pairs[j].0 == name {
            proof {
                lemma_key_index_at(v, name@, j as int);
            }
            let ghost nv = name@;
            let ghost vv = value@;
            pairs.set(j, (name, value));
            assert(pairs_view(pairs@) =~= v.update(j as int, (nv, vv)));
            return;
        }
        j += 1;
    }
    proof {
        lemma_key_index_none(v, name@);
    }
    let ghost nv = name@;
    let ghost vv = value@;
    pairs.push((name, value));
    assert(pairs_view(pairs@) =~= v.push((nv, vv)));
}

/// Adds the items of one cookie header to a pair list.
fn merge_source(pairs: &mut Vec<(String, String)>, source: &str)
    ensures
        pairs_view(final(pairs)@) == merge_items(pairs_view(old(pairs)@), split(source@, ';')),
{
    let cs = chars_of(source);
    let bounds = split_bounds(&cs, ';');
    let ghost items = split(cs@, ';');
    let mut k: usize = 0;
    proof {
        lemma_split_piece(cs@, ';', bounds@, 0);
        assert(items.skip(0) =~= items);
    }
    while k < bounds.len()
        invariant
            k <= bounds@.len() == items.len(),
            items == split(cs@, ';'),
            cs@ == source@,
            ranges_within(bounds@, cs@.len() as int),
            ranges_of(cs@, bounds@) == items,
            merge_items(pairs_view(old(pairs)@), items) == merge_items(
                pairs_view(pairs@),
                items.skip(k as int),
            ),
        decreases bounds@.len() - k,
    {
        let (lo, hi) = bounds[k];
        let ghost item = cs@.subrange(lo as int, hi as int);
        proof {
            lemma_split_piece(cs@, ';', bounds@, k as int);
            assert(items.skip(k as int)[0] == item);
            assert(items.skip(k as int).drop_first() =~= items.skip(k + 1));
        }
        let (a, b) = trim_range(&cs, lo, hi);
        let ghost t = cs@.subrange(a as int, b as int);
        let eq = first_char_in(&cs, '=', a, b);
        let name_end = match eq {
            Some(e) => e,
            None => b,
        };
        let (na, nb) = trim_range(&cs, a, name_end);
        let (va, vb) = match eq {
            Some(e) => trim_range(&cs, e + 1, b),
            None => (b, b),
        };
        proof {
            assert(pair_name(t) =~= cs@.subrange(a as int, name_end as int));
            match eq {
                Some(e) => {
                    assert(pair_value(t) =~= cs@.subrange(e + 1, b as int));
                },
                None => {
                    assert(pair_value(t) =~= Seq::<char>::empty());
                    assert(cs@.subrange(b as int, b as int) =~= Seq::<char>::empty());
                    assert(trim(Seq::<char>::empty()) =~= Seq::<char>::empty());
                },
            }
            assert(cookie_item(item) == (cs@.subrange(na as int, nb as int), cs@.subrange(
                va as int,
                vb as int,
            )));
        }
        if na < nb {
            let name = string_of_range(&cs, na, nb);
            let value = string_of_range(&cs, va, vb);
            upsert_pair(pairs, name, value);
        }
        k += 1;
    }
    assert(items.skip(k as int) =~= Seq::<Seq<char>>::empty());
}

/// Merges the cookie header from the callback with the one from the web
/// view's cookie store: items keep their first position, a later value
/// replaces an earlier one of the same name, unnamed items are dropped.
/// `None` when no named item is left.
pub fn merge_cookie_headers(first: Option<&str>, second: Option<&str>) -> (r: Option<String>)
    ensures
        match r {
            Some(h) => merged_cookie_header(opt_text(first), opt_text(second)) == Some(h@),
            None => merged_cookie_header(opt_text(first), opt_text(second)) is None,
        },
{
    let mut pairs: Vec<(String, String)> = Vec::new();
    assert(pairs_view(pairs@) =~= Seq::<(Seq<char>, Seq<char>)>::empty());
    proof {
        reveal_strlit("");
        assert(""@ =~= Seq::<char>::empty());
    }
    let f: &str = match first {
        Some(s) => s,
        None => "",
    };
    let g: &str = match second {
        Some(s) => s,
        None => "",
    };
    assert(f@ == opt_text(first));
    assert(g@ == opt_text(second));
    merge_source(&mut pairs, f);
    merge_source(&mut pairs, g);
    if pairs.len() == 0 {
        return None;
    }
    let ghost ps = pairs_view(pairs@);
    let mut out = String::new();
    let mut k: usize = 0;
    assert(pair_texts(ps).take(0) =~= Seq::<Seq<char>>::empty());
    while k < pairs.len()
        invariant
            k <= pairs@.len(),
            ps == pairs_view(pairs@),
            out@ == crate::text::join(pair_texts(ps).take(k as int), "; "@),
        decreases pairs@.len() - k,
    {
        let mut item = String::new();
        push_str(&mut item, pairs[k].0.as_str());
        crate::text::push_char(&mut item, '=');
        push_str(&mut item, pairs[k].1.as_str());
        let piece = chars_of(item.as_str());
        assert(piece@ == pair_texts(ps)[k as int]);
        crate::text::push_joined(&mut out, k, "; ", &piece, Ghost(pair_texts(ps).take(k as int)));
        assert(pair_texts(ps).take(k as int).push(piece@) =~= pair_texts(ps).take(k + 1));
        k += 1;
    }
    assert(pair_texts(ps).take(k as int) =~= pair_texts(ps));
    Some(out)
}

} // verus!
