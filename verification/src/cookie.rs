//! Cookie header manipulation for the logged-in session.
//!
//! A cookie header is read as the `;`-separated pieces of `str::split`,
//! each trimmed; empty pieces are dropped and the kept ones are joined
//! again with `"; "`.

use vstd::prelude::*;
use vstd::string::StringSliceAdditionalSpecFns;
use crate::text::{string_of_range, hex_min2, hex_upper, hex_upper_char, push_char, push_hex_min2, push_str, range_eq_str, lemma_join_push, push_range, ranges_of, ranges_within, str_views, 
    chars_of, eq_ic, find_char, join, lemma_find_char_at, lemma_find_char_none,
    lemma_split_piece, push_joined_range, range_eq_ic, split, split_bounds, trim, trim_range,
    find_char_from,
};

verus! {

/// The name of a cookie piece: the text before the first `=`, trimmed, or
/// the whole piece when it has no `=`.
pub open spec fn cookie_key(p: Seq<char>) -> Seq<char> {
    match find_char(p, '=') {
        Some(i) => trim(p.take(i)),
        None => p,
    }
}

/// `name` matches one of `names` up to ASCII case.
pub open spec fn named(key: Seq<char>, names: Seq<Seq<char>>) -> bool {
    exists|j: int| 0 <= j < names.len() && eq_ic(key, #[trigger] names[j])
}

/// The trimmed, non-empty pieces whose name is not among `names`.
pub open spec fn without_names(parts: Seq<Seq<char>>, names: Seq<Seq<char>>) -> Seq<Seq<char>>
    decreases parts.len(),
{
    if parts.len() == 0 {
        Seq::empty()
    } else {
        let rest = without_names(parts.drop_last(), names);
        let p = trim(parts.last());
        if p.len() == 0 || named(cookie_key(p), names) {
            rest
        } else {
            rest.push(p)
        }
    }
}

/// No piece kept by `without_names` is named by `names`.
pub proof fn lemma_kept_pieces_unnamed(parts: Seq<Seq<char>>, names: Seq<Seq<char>>)
    ensures
        forall|k: int|
            0 <= k < without_names(parts, names).len() ==> !named(
                cookie_key(#[trigger] without_names(parts, names)[k]),
                names,
            ),
    decreases parts.len(),
{
    if parts.len() > 0 {
        lemma_kept_pieces_unnamed(parts.drop_last(), names);
        let rest = without_names(parts.drop_last(), names);
        let out = without_names(parts, names);
        assert forall|k: int| 0 <= k < out.len() implies !named(cookie_key(#[trigger] out[k]), names) by {
            if k < rest.len() {
                assert(out[k] == rest[k]);
            }
        }
    }
}

/// The header `remove_cookie_values` produces.
pub open spec fn removed_header(cookie: Seq<char>, names: Seq<Seq<char>>) -> Seq<char> {
    join(without_names(split(cookie, ';'), names), "; "@)
}

/// Bounds of the name of the piece `cs[a..b]`.
fn key_bounds(cs: &Vec<char>, a: usize, b: usize) -> (r: (usize, usize))
    requires
        a <= b <= cs@.len(),
    ensures
        r.0 <= r.1 <= cs@.len(),
        cs@.subrange(r.0 as int, r.1 as int) == cookie_key(cs@.subrange(a as int, b as int)),
{
    let ghost p = cs@.subrange(a as int, b as int);
    match find_char_from(cs, '=', a, b) {
        Some(i) => {
            proof {
                lemma_find_char_at(p, '=', i - a);
                assert(p.take(i - a) =~= cs@.subrange(a as int, i as int));
            }
            trim_range(cs, a, i)
        },
        None => {
            proof {
                lemma_find_char_none(p, '=');
            }
            (a, b)
        },
    }
}

fn is_named(cs: &Vec<char>, a: usize, b: usize, names: &[&str]) -> (r: bool)
    requires
        a <= b <= cs@.len(),
    ensures
        r == named(cs@.subrange(a as int, b as int), str_views(names@)),
{
    let ghost views = str_views(names@);
    let mut j: usize = 0;
    while j < names.len()
        invariant
            a <= b <= cs@.len(),
            j <= names@.len(),
            views == str_views(names@),
            forall|i: int| 0 <= i < j ==> !eq_ic(cs@.subrange(a as int, b as int), #[trigger] views[i]),
        decreases names@.len() - j,
    {
        if range_eq_ic(cs, a, b, names[j]) {
            assert(views[j as int] == names@[j as int]@);
            return true;
        }
        j += 1;
    }
    false
}

/// Drops the pieces named in `names`, so an authorization-code exchange
/// only carries the fresh WebView session.
pub fn remove_cookie_values(cookie: &str, names: &[&str]) -> (r: String)
    ensures
        r@ == removed_header(cookie@, str_views(names@)),
{
    let ghost nv = str_views(names@);
    let cs = chars_of(cookie);
    let pieces = split_bounds(&cs, ';');
    let ghost parts = split(cs@, ';');
    let mut out = String::new();
    let mut count: usize = 0;
    let ghost mut kept: Seq<Seq<char>> = Seq::empty();
    let mut k: usize = 0;
    proof {
        lemma_split_piece(cs@, ';', pieces@, 0);
        assert(parts.take(0) =~= Seq::<Seq<char>>::empty());
    }
    while k < pieces.len()
        invariant
            k <= pieces@.len() == parts.len(),
            parts == split(cs@, ';'),
            nv == str_views(names@),
            ranges_within(pieces@, cs@.len() as int),
            ranges_of(cs@, pieces@) == parts,
            kept == without_names(parts.take(k as int), nv),
            count == kept.len(),
            count <= k,
            out@ == join(kept, "; "@),
        decreases pieces@.len() - k,
    {
        let (lo, hi) = pieces[k];
        proof {
            lemma_split_piece(cs@, ';', pieces@, k as int);
            assert(parts.take(k + 1).drop_last() =~= parts.take(k as int));
            assert(parts.take(k + 1).last() == parts[k as int]);
        }
        let (a, b) = trim_range(&cs, lo, hi);
        let ghost p = cs@.subrange(a as int, b as int);
        assert(p == trim(parts[k as int]));
        let ghost old_kept = kept;
        if a < b {
            let (ka, kb) = key_bounds(&cs, a, b);
            let hit = is_named(&cs, ka, kb, names);
            if !hit {
                push_joined_range(&mut out, count, "; ", &cs, a, b, Ghost(kept));
                proof {
                    kept = kept.push(p);
                }
                count += 1;
            }
        }
        assert(kept == if p.len() == 0 || named(cookie_key(p), nv) { old_kept } else { old_kept.push(p) });
        proof {
            let t = parts.take(k + 1);
            assert(t.len() > 0);
            assert(without_names(t, nv) == {
                let rest = without_names(t.drop_last(), nv);
                let q = trim(t.last());
                if q.len() == 0 || named(cookie_key(q), nv) {
                    rest
                } else {
                    rest.push(q)
                }
            });
            assert(kept == without_names(t, nv));
        }
        k += 1;
    }
    proof {
        assert(parts.take(k as int) =~= parts);
    }
    out
}

/// Drops every `ddid` piece from a cookie header.
pub fn cookie_without_ddid(cookie: &str) -> (r: String)
    ensures
        r@ == removed_header(cookie@, seq!["ddid"@]),
{
    let names = ["ddid"];
    let r = remove_cookie_values(cookie, &names);
    assert(str_views(names@) =~= seq!["ddid"@]);
    r
}

/// The cookie header sent with an API request. Whatever the path demands,
/// only the login cookie is sent; `ddid` is never forwarded.
pub fn cookie_for_request(cookie: &str, needs_ddid: bool) -> (r: String)
    ensures
        r@ == removed_header(cookie@, seq!["ddid"@]),
{
    cookie_without_ddid(cookie)
}

// ---------------------------------------------------------------------------
// Overriding one field
// ---------------------------------------------------------------------------

/// `name=value`.
pub open spec fn assignment(name: Seq<char>, value: Seq<char>) -> Seq<char> {
    name + "="@ + value
}

/// Walks the pieces, replacing the first piece named `name` (up to ASCII
/// case) by `name=value` and dropping later ones; the flag records whether
/// a replacement happened.
pub open spec fn merged_entries(parts: Seq<Seq<char>>, name: Seq<char>, value: Seq<char>) -> (
    Seq<Seq<char>>,
    bool,
)
    decreases parts.len(),
{
    if parts.len() == 0 {
        (Seq::empty(), false)
    } else {
        let (es, done) = merged_entries(parts.drop_last(), name, value);
        let p = trim(parts.last());
        if p.len() == 0 {
            (es, done)
        } else if eq_ic(cookie_key(p), name) {
            if done {
                (es, done)
            } else {
                (es.push(assignment(name, value)), true)
            }
        } else {
            (es.push(p), done)
        }
    }
}

/// The header `merge_cookie_value` produces: the field set once, in place of
/// its first occurrence or appended when absent.
pub open spec fn merged_header(cookie: Seq<char>, name: Seq<char>, value: Seq<char>) -> Seq<char> {
    let (es, done) = merged_entries(split(cookie, ';'), name, value);
    join(if done { es } else { es.push(assignment(name, value)) }, "; "@)
}

fn push_assignment(out: &mut String, count: usize, name: &str, value: &str, Ghost(
    parts,
): Ghost<Seq<Seq<char>>>)
    requires
        count == parts.len(),
        old(out)@ == join(parts, "; "@),
    ensures
        final(out)@ == join(parts.push(assignment(name@, value@)), "; "@),
{
    proof {
        lemma_join_push(parts, "; "@, assignment(name@, value@));
    }
    if count > 0 {
        push_str(out, "; ");
    }
    push_str(out, name);
    push_str(out, "=");
    push_str(out, value);
    assert(out@ =~= join(parts.push(assignment(name@, value@)), "; "@));
}

/// Overrides one field of a cookie header, keeping the other session and
/// verification fields the WebView brought back.
pub fn merge_cookie_value(cookie: &str, name: &str, value: &str) -> (r: String)
    ensures
        r@ == merged_header(cookie@, name@, value@),
{
    let cs = chars_of(cookie);
    let pieces = split_bounds(&cs, ';');
    let ghost parts = split(cs@, ';');
    let mut out = String::new();
    let mut count: usize = 0;
    let mut replaced = false;
    let ghost mut es: Seq<Seq<char>> = Seq::empty();
    let mut k: usize = 0;
    proof {
        lemma_split_piece(cs@, ';', pieces@, 0);
        assert(parts.take(0) =~= Seq::<Seq<char>>::empty());
    }
    while k < pieces.len()
        invariant
            k <= pieces@.len() == parts.len(),
            parts == split(cs@, ';'),
            cs@ == cookie@,
            ranges_within(pieces@, cs@.len() as int),
            ranges_of(cs@, pieces@) == parts,
            (es, replaced) == merged_entries(parts.take(k as int), name@, value@),
            count == es.len(),
            count <= k,
            out@ == join(es, "; "@),
        decreases pieces@.len() - k,
    {
        let (lo, hi) = pieces[k];
        proof {
            lemma_split_piece(cs@, ';', pieces@, k as int);
            assert(parts.take(k + 1).drop_last() =~= parts.take(k as int));
            assert(parts.take(k + 1).last() == parts[k as int]);
        }
        let (a, b) = trim_range(&cs, lo, hi);
        let ghost p = cs@.subrange(a as int, b as int);
        if a < b {
            let (ka, kb) = key_bounds(&cs, a, b);
            let names = [name];
            let hit = is_named(&cs, ka, kb, &names);
            proof {
                assert(str_views(names@) =~= seq![name@]);
                if eq_ic(cookie_key(p), name@) {
                    assert(eq_ic(cookie_key(p), str_views(names@)[0]));
                }
            }
            if hit {
                if !replaced {
                    push_assignment(&mut out, count, name, value, Ghost(es));
                    proof {
                        es = es.push(assignment(name@, value@));
                    }
                    count += 1;
                    replaced = true;
                }
            } else {
                push_joined_range(&mut out, count, "; ", &cs, a, b, Ghost(es));
                proof {
                    es = es.push(p);
                }
                count += 1;
            }
        }
        proof {
            let t = parts.take(k + 1);
            assert(t.len() > 0);
            assert(trim(t.last()) == p);
            assert((es, replaced) == merged_entries(t, name@, value@));
        }
        k += 1;
    }
    proof {
        assert(parts.take(k as int) =~= parts);
    }
    if !replaced {
        push_assignment(&mut out, count, name, value, Ghost(es));
    }
    out
}

// ---------------------------------------------------------------------------
// Encoding the account fields
// ---------------------------------------------------------------------------

/// The bytes the client's cookie interceptor leaves unescaped.
pub open spec fn unreserved(b: u8) -> bool {
    (65 <= b <= 90) || (97 <= b <= 122) || (48 <= b <= 57) || b == 45 || b == 95 || b == 46
        || b == 126
}

pub open spec fn encode_cookie_byte(b: u8) -> Seq<char> {
    if unreserved(b) {
        seq![b as char]
    } else if b == 32 {
        seq!['+']
    } else {
        seq!['%', hex_upper((b / 16) as int), hex_upper((b % 16) as int)]
    }
}

/// The escaping of a UTF-8 byte string: unreserved bytes kept, spaces as `+`,
/// everything else as `%XX`.
pub open spec fn encode_cookie_bytes(bs: Seq<u8>) -> Seq<char>
    decreases bs.len(),
{
    if bs.len() == 0 {
        Seq::empty()
    } else {
        encode_cookie_bytes(bs.drop_last()) + encode_cookie_byte(bs.last())
    }
}

/// Encodes an account field the way the official cookie interceptor does.
pub fn encode_login_cookie_value(value: &str) -> (r: String)
    ensures
        r@ == encode_cookie_bytes(value.spec_bytes()),
{
    let bytes = value.as_bytes();
    let mut out = String::new();
    let mut i: usize = 0;
    assert(bytes@.take(0) =~= Seq::<u8>::empty());
    while i < bytes.len()
        invariant
            i <= bytes@.len(),
            out@ == encode_cookie_bytes(bytes@.take(i as int)),
        decreases bytes@.len() - i,
    {
        let b = bytes[i];
        let ghost before = out@;
        if (65 <= b && b <= 90) || (97 <= b && b <= 122) || (48 <= b && b <= 57) || b == 45 || b
            == 95 || b == 46 || b == 126 {
            push_char(&mut out, b as char);
        } else if b == 32 {
            push_char(&mut out, '+');
        } else {
            push_char(&mut out, '%');
            push_char(&mut out, hex_upper_char((b / 16) as u32));
            push_char(&mut out, hex_upper_char((b % 16) as u32));
        }
        proof {
            assert(bytes@.take(i + 1).drop_last() =~= bytes@.take(i as int));
            assert(out@ =~= before + encode_cookie_byte(b));
        }
        i += 1;
    }
    assert(bytes@.take(i as int) =~= bytes@);
    out
}

// ---------------------------------------------------------------------------
// Sanitising a stored cookie
// ---------------------------------------------------------------------------

/// `replace('\r', "").replace('\n', " ")`.
pub open spec fn flatten_newlines(s: Seq<char>) -> Seq<char>
    decreases s.len(),
{
    if s.len() == 0 {
        Seq::empty()
    } else {
        flatten_newlines(s.drop_last()) + if s.last() == '\r' {
            Seq::empty()
        } else if s.last() == '\n' {
            seq![' ']
        } else {
            seq![s.last()]
        }
    }
}

/// ASCII characters are kept; any other character becomes `%` followed by
/// its code point in upper-case hexadecimal (at least two digits).
pub open spec fn escape_non_ascii(s: Seq<char>) -> Seq<char>
    decreases s.len(),
{
    if s.len() == 0 {
        Seq::empty()
    } else {
        let c = s.last();
        escape_non_ascii(s.drop_last()) + if (c as u32) < 128 && c != '\r' && c != '\n' {
            seq![c]
        } else {
            seq!['%'] + hex_min2(c as u32 as nat)
        }
    }
}

/// A cookie made of ASCII characters other than line breaks.
pub open spec fn plain_ascii_cookie(cookie: Seq<char>) -> bool {
    forall|i: int| 0 <= i < cookie.len() ==> (#[trigger] cookie[i] as u32) < 128 && cookie[i] != '\r' && cookie[i] != '\n'
}

proof fn lemma_plain_flatten(s: Seq<char>)
    requires
        plain_ascii_cookie(s),
    ensures
        flatten_newlines(s) == s,
    decreases s.len(),
{
    if s.len() > 0 {
        assert(plain_ascii_cookie(s.drop_last())) by {
            assert forall|i: int| 0 <= i < s.drop_last().len() implies (#[trigger] s.drop_last()[i] as u32) < 128
                && s.drop_last()[i] != '\r' && s.drop_last()[i] != '\n' by {
                assert(s.drop_last()[i] == s[i]);
            }
        }
        lemma_plain_flatten(s.drop_last());
        assert(s.last() == s[s.len() - 1]);
        assert(s.drop_last() + seq![s.last()] =~= s);
    }
}

proof fn lemma_plain_escape(s: Seq<char>)
    requires
        plain_ascii_cookie(s),
    ensures
        escape_non_ascii(s) == s,
    decreases s.len(),
{
    if s.len() > 0 {
        assert(plain_ascii_cookie(s.drop_last())) by {
            assert forall|i: int| 0 <= i < s.drop_last().len() implies (#[trigger] s.drop_last()[i] as u32) < 128
                && s.drop_last()[i] != '\r' && s.drop_last()[i] != '\n' by {
                assert(s.drop_last()[i] == s[i]);
            }
        }
        lemma_plain_escape(s.drop_last());
        assert(s.last() == s[s.len() - 1]);
        assert(s.drop_last() + seq![s.last()] =~= s);
    }
}

/// A cookie of plain ASCII without surrounding blanks is stored as it is.
pub proof fn law_plain_cookie_is_stored_unchanged(cookie: Seq<char>)
    requires
        plain_ascii_cookie(cookie),
        trim(cookie) == cookie,
    ensures
        sanitized_cookie(cookie) == cookie,
{
    lemma_plain_flatten(cookie);
    lemma_plain_escape(cookie);
}

/// The header a raw cookie is stored as: newlines flattened, trimmed, and
/// non-ASCII characters escaped so it is a valid HTTP header value.
pub open spec fn sanitized_cookie(cookie: Seq<char>) -> Seq<char> {
    escape_non_ascii(trim(flatten_newlines(cookie)))
}

/// Flattens newlines, trims and escapes non-ASCII characters of a cookie.
pub fn sanitize_cookie(cookie: &str) -> (r: String)
    ensures
        r@ == sanitized_cookie(cookie@),
{
    let cs = chars_of(cookie);
    let mut flat: Vec<char> = Vec::new();
    let mut i: usize = 0;
    assert(cs@.take(0) =~= Seq::<char>::empty());
    while i < cs.len()
        invariant
            i <= cs@.len(),
            flat@ == flatten_newlines(cs@.take(i as int)),
        decreases cs@.len() - i,
    {
        let c = cs[i];
        let ghost before = flat@;
        if c == '\r' {
        } else if c == '\n' {
            flat.push(' ');
        } else {
            flat.push(c);
        }
        proof {
            assert(cs@.take(i + 1).drop_last() =~= cs@.take(i as int));
            assert(cs@.take(i + 1).last() == c);
            assert(flat@ =~= before + if c == '\r' {
                Seq::empty()
            } else if c == '\n' {
                seq![' ']
            } else {
                seq![c]
            });
        }
        i += 1;
    }
    assert(cs@.take(i as int) =~= cs@);
    let (a, b) = trim_range(&flat, 0, flat.len());
    assert(flat@.subrange(0, flat@.len() as int) =~= flat@);
    let ghost t = flat@.subrange(a as int, b as int);
    let mut out = String::new();
    let mut j: usize = a;
    assert(t.take(0) =~= Seq::<char>::empty());
    while j < b
        invariant
            a <= j <= b <= flat@.len(),
            t == flat@.subrange(a as int, b as int),
            out@ == escape_non_ascii(t.take(j - a)),
        decreases b - j,
    {
        let c = flat[j];
        let ghost before = out@;
        let v = c as u32;
        if v < 128 && c != '\r' && c != '\n' {
            push_char(&mut out, c);
        } else {
            push_char(&mut out, '%');
            push_hex_min2(&mut out, v);
        }
        proof {
            assert(t.take(j + 1 - a).drop_last() =~= t.take(j - a));
            assert(t.take(j + 1 - a).last() == c);
            assert(out@ =~= before + if v < 128 && c != '\r' && c != '\n' {
                seq![c]
            } else {
                seq!['%'] + hex_min2(v as nat)
            });
        }
        j += 1;
    }
    assert(t.take(b - a) =~= t);
    out
}

// ---------------------------------------------------------------------------
// Reading fields
// ---------------------------------------------------------------------------

/// A piece `SESSID=value` with a real session value (not blank, not the
/// `deleted`/`expired` placeholders).
pub open spec fn live_session_piece(item: Seq<char>) -> bool {
    let t = trim(item);
    match find_char(t, '=') {
        Some(i) => {
            let v = t.skip(i + 1);
            &&& t.take(i) == "SESSID"@
            &&& trim(v).len() > 0
            &&& !eq_ic(v, "deleted"@)
            &&& !eq_ic(v, "expired"@)
        },
        None => false,
    }
}

pub open spec fn has_live_session(cookie: Seq<char>) -> bool {
    exists|k: int| 0 <= k < split(cookie, ';').len() && live_session_piece(
        #[trigger] split(cookie, ';')[k],
    )
}

/// Bounds of the key and value of `splitn(2, '=')` on the trimmed piece.
fn piece_fields(cs: &Vec<char>, lo: usize, hi: usize) -> (r: (usize, usize, Option<usize>))
    requires
        lo <= hi <= cs@.len(),
    ensures
        lo <= r.0 <= r.1 <= hi,
        cs@.subrange(r.0 as int, r.1 as int) == trim(cs@.subrange(lo as int, hi as int)),
        ({
            let t = trim(cs@.subrange(lo as int, hi as int));
            match r.2 {
                Some(i) => r.0 <= i < r.1 && find_char(t, '=') == Some(i - r.0),
                None => find_char(t, '=') == None::<int>,
            }
        }),
{
    let (a, b) = trim_range(cs, lo, hi);
    let ghost t = cs@.subrange(a as int, b as int);
    match find_char_from(cs, '=', a, b) {
        Some(i) => {
            proof {
                lemma_find_char_at(t, '=', i - a);
            }
            (a, b, Some(i))
        },
        None => {
            proof {
                lemma_find_char_none(t, '=');
            }
            (a, b, None)
        },
    }
}

/// Whether the cookie carries a real `SESSID` session.
pub fn has_valid_session_cookie(cookie: &str) -> (r: bool)
    ensures
        r == has_live_session(cookie@),
{
    let cs = chars_of(cookie);
    let pieces = split_bounds(&cs, ';');
    let ghost parts = split(cs@, ';');
    let mut k: usize = 0;
    proof {
        lemma_split_piece(cs@, ';', pieces@, 0);
    }
    while k < pieces.len()
        invariant
            k <= pieces@.len() == parts.len(),
            parts == split(cs@, ';'),
            cs@ == cookie@,
            ranges_within(pieces@, cs@.len() as int),
            ranges_of(cs@, pieces@) == parts,
            forall|j: int| 0 <= j < k ==> !live_session_piece(#[trigger] parts[j]),
        decreases pieces@.len() - k,
    {
        let (lo, hi) = pieces[k];
        proof {
            lemma_split_piece(cs@, ';', pieces@, k as int);
        }
        let (a, b, eq) = piece_fields(&cs, lo, hi);
        let ghost t = cs@.subrange(a as int, b as int);
        if let Some(i) = eq {
            proof {
                assert(t.take(i - a) =~= cs@.subrange(a as int, i as int));
                assert(t.skip(i - a + 1) =~= cs@.subrange(i + 1, b as int));
            }
            if range_eq_str(&cs, a, i, "SESSID") {
                let (va, vb) = trim_range(&cs, i + 1, b);
                if va < vb && !range_eq_ic(&cs, i + 1, b, "deleted") && !range_eq_ic(
                    &cs,
                    i + 1,
                    b,
                    "expired",
                ) {
                    assert(live_session_piece(parts[k as int]));
                    assert(cs@ == cookie@);
                    assert(live_session_piece(split(cookie@, ';')[k as int]));
                    return true;
                }
            }
        }
        k += 1;
    }
    assert(cs@ == cookie@);
    false
}

/// The `uid` field of one piece: `Some(value)` when the trimmed piece reads
/// `uid=value`.
pub open spec fn uid_piece(item: Seq<char>) -> Option<Seq<char>> {
    let t = trim(item);
    match find_char(t, '=') {
        Some(i) => if t.take(i) == "uid"@ {
            Some(trim(t.skip(i + 1)))
        } else {
            None
        },
        None => None,
    }
}

/// The first `uid` field with a non-empty value.
pub open spec fn first_uid(parts: Seq<Seq<char>>) -> Option<Seq<char>>
    decreases parts.len(),
{
    if parts.len() == 0 {
        None
    } else {
        match uid_piece(parts[0]) {
            Some(u) => if u.len() > 0 {
                Some(u)
            } else {
                first_uid(parts.drop_first())
            },
            None => first_uid(parts.drop_first()),
        }
    }
}

/// The first `uid` field, even when its value is empty.
pub open spec fn first_uid_field(parts: Seq<Seq<char>>) -> Option<Seq<char>>
    decreases parts.len(),
{
    if parts.len() == 0 {
        None
    } else {
        match uid_piece(parts[0]) {
            Some(u) => Some(u),
            None => first_uid_field(parts.drop_first()),
        }
    }
}

/// Reads `uid=` from piece `k` of a cookie.
fn piece_uid(cs: &Vec<char>, lo: usize, hi: usize) -> (r: Option<(usize, usize)>)
    requires
        lo <= hi <= cs@.len(),
    ensures
        match r {
            Some((a, b)) => a <= b <= cs@.len() && uid_piece(cs@.subrange(lo as int, hi as int))
                == Some(cs@.subrange(a as int, b as int)),
            None => uid_piece(cs@.subrange(lo as int, hi as int)) == None::<Seq<char>>,
        },
{
    let (a, b, eq) = piece_fields(cs, lo, hi);
    let ghost t = cs@.subrange(a as int, b as int);
    match eq {
        Some(i) => {
            proof {
                assert(t.take(i - a) =~= cs@.subrange(a as int, i as int));
                assert(t.skip(i - a + 1) =~= cs@.subrange(i + 1, b as int));
            }
            if range_eq_str(cs, a, i, "uid") {
                Some(trim_range(cs, i + 1, b))
            } else {
                None
            }
        },
        None => None,
    }
}

/// The logged-in user id: the first non-empty `uid` field of the cookie.
pub fn cookie_uid(cookie: &str) -> (r: Option<String>)
    ensures
        match r {
            Some(s) => first_uid(split(cookie@, ';')) == Some(s@),
            None => first_uid(split(cookie@, ';')) == None::<Seq<char>>,
        },
{
    let cs = chars_of(cookie);
    let pieces = split_bounds(&cs, ';');
    let ghost parts = split(cs@, ';');
    let mut k: usize = 0;
    proof {
        lemma_split_piece(cs@, ';', pieces@, 0);
        assert(parts.skip(0) =~= parts);
    }
    while k < pieces.len()
        invariant
            k <= pieces@.len() == parts.len(),
            parts == split(cs@, ';'),
            cs@ == cookie@,
            ranges_within(pieces@, cs@.len() as int),
            ranges_of(cs@, pieces@) == parts,
            first_uid(parts) == first_uid(parts.skip(k as int)),
        decreases pieces@.len() - k,
    {
        let (lo, hi) = pieces[k];
        proof {
            lemma_split_piece(cs@, ';', pieces@, k as int);
            assert(parts.skip(k as int)[0] == parts[k as int]);
            assert(parts.skip(k as int).drop_first() =~= parts.skip(k + 1));
        }
        if let Some((a, b)) = piece_uid(&cs, lo, hi) {
            if a < b {
                let u = string_of_range(&cs, a, b);
                assert(first_uid(parts.skip(k as int)) == Some(u@));
                return Some(u);
            }
        }
        k += 1;
    }
    assert(parts.skip(k as int) =~= Seq::<Seq<char>>::empty());
    None
}

/// The first `uid` field of the cookie, possibly empty.
pub fn cookie_uid_field(cookie: &str) -> (r: Option<String>)
    ensures
        match r {
            Some(s) => first_uid_field(split(cookie@, ';')) == Some(s@),
            None => first_uid_field(split(cookie@, ';')) == None::<Seq<char>>,
        },
{
    let cs = chars_of(cookie);
    let pieces = split_bounds(&cs, ';');
    let ghost parts = split(cs@, ';');
    let mut k: usize = 0;
    proof {
        lemma_split_piece(cs@, ';', pieces@, 0);
        assert(parts.skip(0) =~= parts);
    }
    while k < pieces.len()
        invariant
            k <= pieces@.len() == parts.len(),
            parts == split(cs@, ';'),
            cs@ == cookie@,
            ranges_within(pieces@, cs@.len() as int),
            ranges_of(cs@, pieces@) == parts,
            first_uid_field(parts) == first_uid_field(parts.skip(k as int)),
        decreases pieces@.len() - k,
    {
        let (lo, hi) = pieces[k];
        proof {
            lemma_split_piece(cs@, ';', pieces@, k as int);
            assert(parts.skip(k as int)[0] == parts[k as int]);
            assert(parts.skip(k as int).drop_first() =~= parts.skip(k + 1));
        }
        if let Some((a, b)) = piece_uid(&cs, lo, hi) {
            let u = string_of_range(&cs, a, b);
            assert(first_uid_field(parts.skip(k as int)) == Some(u@));
            return Some(u);
        }
        k += 1;
    }
    assert(parts.skip(k as int) =~= Seq::<Seq<char>>::empty());
    None
}

} // verus!
