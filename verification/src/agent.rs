//! Device metadata read from a Coolapk user agent.
//!
//! Reply details often carry the author's `useragent` while the fields
//! that should describe the device come back empty. The user agent holds
//! the Android version (`Android 16;`), the build id (` Build/BP2A...`), a
//! fallback model (the field before ` Build/`) and, in newer clients, a
//! `(#Build; maker; model; build; rom_family; rom_version)` group.

use vstd::prelude::*;
use crate::text::{
    chars_of, find_char, find_char_from, find_from, find_seq_from, lemma_find_char_at,
    lemma_find_char_none, lemma_find_from_bounds, lemma_split_piece, occurs_at, push_char,
    push_range, push_str, range_eq_str, split, split_bounds, trim, trimmed,
};
use crate::url::before_char;

verus! {

// ---------------------------------------------------------------------------
// Model
// ---------------------------------------------------------------------------

/// `split(p).nth(1)`: the text after the first `p`, up to the next `p`.
pub open spec fn second_piece(s: Seq<char>, p: Seq<char>) -> Option<Seq<char>> {
    match find_from(s, p, 0) {
        Some(i) => {
            let start = i + p.len();
            match find_from(s, p, start) {
                Some(j) => Some(s.subrange(start, j)),
                None => Some(s.skip(start)),
            }
        },
        None => None,
    }
}

/// `split(p).next()`: the text before the first `p`.
pub open spec fn before_first(s: Seq<char>, p: Seq<char>) -> Seq<char> {
    match find_from(s, p, 0) {
        Some(i) => s.take(i),
        None => s,
    }
}

/// The last position at or before `i` where `p` occurs.
pub open spec fn rfind_at_most(s: Seq<char>, p: Seq<char>, i: int) -> Option<int>
    decreases i + 1,
{
    if i < 0 {
        None
    } else if occurs_at(s, p, i) {
        Some(i)
    } else {
        rfind_at_most(s, p, i - 1)
    }
}

/// `rsplit(p).next()`: the text after the last `p`.
pub open spec fn after_last(s: Seq<char>, p: Seq<char>) -> Seq<char> {
    match rfind_at_most(s, p, s.len() - p.len()) {
        Some(i) => s.skip(i + p.len()),
        None => s,
    }
}

/// The text before the first `a` or `b`.
pub open spec fn upto_either(s: Seq<char>, a: char, b: char) -> Seq<char>
    decreases s.len(),
{
    if s.len() == 0 || s[0] == a || s[0] == b {
        Seq::empty()
    } else {
        seq![s[0]] + upto_either(s.drop_first(), a, b)
    }
}

/// `[a, b]`, empty ones left out, joined with `sep`.
pub open spec fn join_present(a: Seq<char>, b: Seq<char>, sep: Seq<char>) -> Seq<char> {
    if a.len() == 0 {
        b
    } else if b.len() == 0 {
        a
    } else {
        a + sep + b
    }
}

/// Each piece trimmed.
pub open spec fn trimmed_all(parts: Seq<Seq<char>>) -> Seq<Seq<char>> {
    parts.map_values(|f: Seq<char>| trim(f))
}

/// Field `k`, or empty when there are fewer fields.
pub open spec fn field(fs: Seq<Seq<char>>, k: int) -> Seq<char> {
    if 0 <= k < fs.len() {
        fs[k]
    } else {
        Seq::empty()
    }
}

pub open spec fn android_version(ua: Seq<char>) -> Seq<char> {
    match second_piece(ua, "Android "@) {
        Some(x) => trim(before_char(x, ';')),
        None => Seq::empty(),
    }
}

pub open spec fn build_id(ua: Seq<char>) -> Seq<char> {
    match second_piece(ua, " Build/"@) {
        Some(x) => trim(upto_either(x, ')', ' ')),
        None => Seq::empty(),
    }
}

pub open spec fn fallback_model(ua: Seq<char>) -> Seq<char> {
    trim(after_last(before_first(ua, " Build/"@), "; "@))
}

/// The trimmed fields of the `(#Build; ...)` group.
pub open spec fn build_fields(ua: Seq<char>) -> Seq<Seq<char>> {
    match second_piece(ua, "(#Build; "@) {
        Some(x) => trimmed_all(split(before_char(x, ')'), ';')),
        None => Seq::empty(),
    }
}

/// Maker and model (the `#Build` model, else the fallback model).
pub open spec fn device_title(ua: Seq<char>) -> Seq<char> {
    let fs = build_fields(ua);
    let model = if field(fs, 1).len() > 0 {
        field(fs, 1)
    } else {
        fallback_model(ua)
    };
    join_present(field(fs, 0), model, " "@)
}

/// `Android <version>` and the ROM family and version, joined with ` · `.
pub open spec fn device_rom(ua: Seq<char>) -> Seq<char> {
    let av = android_version(ua);
    let fs = build_fields(ua);
    let rom = join_present(before_char(field(fs, 3), '_'), field(fs, 4), " "@);
    let android = if av.len() > 0 {
        "Android "@ + av
    } else {
        Seq::empty()
    };
    join_present(android, rom, " · "@)
}

// ---------------------------------------------------------------------------
// Character-vector helpers
// ---------------------------------------------------------------------------

/// A copy of `cs[lo..hi]`.
fn slice_chars(cs: &Vec<char>, lo: usize, hi: usize) -> (r: Vec<char>)
    requires
        lo <= hi <= cs@.len(),
    ensures
        r@ == cs@.subrange(lo as int, hi as int),
{
    let mut r: Vec<char> = Vec::new();
    let mut i = lo;
    while i < hi
        invariant
            lo <= i <= hi <= cs@.len(),
            r@ == cs@.subrange(lo as int, i as int),
        decreases hi - i,
    {
        r.push(cs[i]);
        i += 1;
        assert(r@ =~= cs@.subrange(lo as int, i as int));
    }
    r
}

fn second_piece_chars(cs: &Vec<char>, p: &str) -> (r: Option<Vec<char>>)
    requires
        p@.len() > 0,
    ensures
        match r {
            Some(v) => second_piece(cs@, p@) == Some(v@),
            None => second_piece(cs@, p@) is None,
        },
{
    let pc = chars_of(p);
    match find_seq_from(cs, &pc, 0) {
        Some(i) => {
            proof {
                lemma_find_from_bounds(cs@, pc@, 0);
            }
            let n = cs.len();
            let start = i + pc.len();
            match find_seq_from(cs, &pc, start) {
                Some(j) => {
                    proof {
                        lemma_find_from_bounds(cs@, pc@, start as int);
                    }
                    Some(slice_chars(cs, start, j))
                },
                None => {
                    let v = slice_chars(cs, start, cs.len());
                    assert(v@ =~= cs@.skip(start as int));
                    Some(v)
                },
            }
        },
        None => None,
    }
}

fn before_first_chars(cs: &Vec<char>, p: &str) -> (r: Vec<char>)
    ensures
        r@ == before_first(cs@, p@),
{
    let pc = chars_of(p);
    match find_seq_from(cs, &pc, 0) {
        Some(i) => {
            proof {
                lemma_find_from_bounds(cs@, p@, 0);
            }
            slice_chars(cs, 0, i)
        },
        None => {
            let v = slice_chars(cs, 0, cs.len());
            assert(v@ =~= cs@);
            v
        },
    }
}

fn before_char_chars(cs: &Vec<char>, c: char) -> (r: Vec<char>)
    ensures
        r@ == before_char(cs@, c),
{
    match find_char_from(cs, c, 0, cs.len()) {
        Some(i) => {
            proof {
                lemma_find_char_at(cs@, c, i as int);
            }
            slice_chars(cs, 0, i)
        },
        None => {
            proof {
                lemma_find_char_none(cs@, c);
            }
            let v = slice_chars(cs, 0, cs.len());
            assert(v@ =~= cs@);
            v
        },
    }
}

fn after_last_chars(cs: &Vec<char>, p: &str) -> (r: Vec<char>)
    ensures
        r@ == after_last(cs@, p@),
{
    let n = cs.len();
    let pc = chars_of(p);
    let m = pc.len();
    if m > n {
        assert(rfind_at_most(cs@, p@, n - m) == None::<int>);
        let v = slice_chars(cs, 0, n);
        assert(v@ =~= cs@);
        return v;
    }
    let mut k = n - m;
    loop
        invariant
            m == p@.len() <= n == cs@.len(),
            k <= n - m,
            rfind_at_most(cs@, p@, n - m) == rfind_at_most(cs@, p@, k as int),
        decreases k,
    {
        if range_eq_str(cs, k, k + m, p) {
            let v = slice_chars(cs, k + m, n);
            assert(v@ =~= cs@.skip(k + m));
            return v;
        }
        if k == 0 {
            assert(rfind_at_most(cs@, p@, -1) == None::<int>);
            let v = slice_chars(cs, 0, n);
            assert(v@ =~= cs@);
            return v;
        }
        k -= 1;
    }
}

fn upto_either_chars(cs: &Vec<char>, a: char, b: char) -> (r: Vec<char>)
    ensures
        r@ == upto_either(cs@, a, b),
{
    let n = cs.len();
    let mut i: usize = 0;
    assert(cs@.skip(0) =~= cs@);
    while i < n && cs[i] != a && cs[i] != b
        invariant
            i <= n == cs@.len(),
            upto_either(cs@, a, b) == cs@.take(i as int) + upto_either(cs@.skip(i as int), a, b),
        decreases n - i,
    {
        proof {
            let rest = cs@.skip(i as int);
            assert(rest.drop_first() =~= cs@.skip(i + 1));
            assert(cs@.take(i + 1) =~= cs@.take(i as int) + seq![rest[0]]);
        }
        i += 1;
    }
    let r = slice_chars(cs, 0, i);
    assert(upto_either(cs@.skip(i as int), a, b) =~= Seq::<char>::empty());
    assert(r@ =~= cs@.take(i as int));
    r
}

fn trim_all(cs: &Vec<char>) -> (r: Vec<char>)
    ensures
        r@ == trim(cs@),
{
    assert(cs@.subrange(0, cs@.len() as int) =~= cs@);
    trimmed(cs, 0, cs.len())
}

/// Appends `join_present(a, b, sep)`.
fn join_present_string(a: &Vec<char>, b: &Vec<char>, sep: &str) -> (r: String)
    ensures
        r@ == join_present(a@, b@, sep@),
{
    let mut out = String::new();
    if a.len() == 0 {
        push_range(&mut out, b, 0, b.len());
        assert(out@ =~= b@);
    } else if b.len() == 0 {
        push_range(&mut out, a, 0, a.len());
        assert(out@ =~= a@);
    } else {
        push_range(&mut out, a, 0, a.len());
        push_str(&mut out, sep);
        push_range(&mut out, b, 0, b.len());
        assert(out@ =~= a@ + sep@ + b@);
    }
    out
}

/// The trimmed fields of the `(#Build; ...)` group.
#[verifier::rlimit(30)]
fn build_fields_chars(cs: &Vec<char>) -> (r: Vec<Vec<char>>)
    ensures
        crate::text::views(r@) == build_fields(cs@),
{
    proof {
        reveal_strlit("(#Build; ");
    }
    let mut fields: Vec<Vec<char>> = Vec::new();
    let x = match second_piece_chars(cs, "(#Build; ") {
        Some(x) => x,
        None => {
            assert(crate::text::views(fields@) =~= Seq::<Seq<char>>::empty());
            return fields;
        },
    };
    let y = before_char_chars(&x, ')');
    let bounds = split_bounds(&y, ';');
    let ghost parts = split(y@, ';');
    let mut k: usize = 0;
    proof {
        lemma_split_piece(y@, ';', bounds@, 0);
    }
    assert(crate::text::views(fields@) =~= trimmed_all(parts).take(0));
    while k < bounds.len()
        invariant
            k <= bounds@.len() == parts.len(),
            parts == split(y@, ';'),
            crate::text::ranges_within(bounds@, y@.len() as int),
            crate::text::ranges_of(y@, bounds@) == parts,
            crate::text::views(fields@) == trimmed_all(parts).take(k as int),
        decreases bounds@.len() - k,
    {
        let (lo, hi) = bounds[k];
        proof {
            lemma_split_piece(y@, ';', bounds@, k as int);
        }
        let f = trimmed(&y, lo, hi);
        let ghost before = fields@;
        let ghost fv = f@;
        assert(fv == trimmed_all(parts)[k as int]);
        fields.push(f);
        proof {
            assert(fields@ == before.push(f));
            assert(crate::text::views(fields@) =~= crate::text::views(before).push(fv));
            assert(trimmed_all(parts).take(k + 1) =~= trimmed_all(parts).take(k as int).push(fv));
        }
        k += 1;
    }
    assert(trimmed_all(parts).take(k as int) =~= trimmed_all(parts));
    fields
}

/// Field `k` of a field list, or empty.
fn field_chars(fields: &Vec<Vec<char>>, k: usize) -> (r: Vec<char>)
    ensures
        r@ == field(crate::text::views(fields@), k as int),
{
    if k < fields.len() {
        let f = &fields[k];
        slice_chars(f, 0, f.len())
    } else {
        Vec::new()
    }
}

/// The device title, build id and ROM description a user agent carries.
///
/// For `Dalvik/2.1.0 (Linux; U; Android 16; 2210132C Build/BP2A.250605.031.A3)
/// (#Build; Xiaomi; 2210132C; BP2A.250605.031.A3; HyperOS_3.0; 3.0.310.0)`
/// that is `Xiaomi 2210132C`, `BP2A.250605.031.A3` and
/// `Android 16 · HyperOS 3.0.310.0`.
pub fn parse_reply_user_agent(user_agent: &str) -> (r: (String, String, String))
    ensures
        r.0@ == device_title(user_agent@),
        r.1@ == build_id(user_agent@),
        r.2@ == device_rom(user_agent@),
{
    proof {
        reveal_strlit("Android ");
        reveal_strlit(" Build/");
    }
    let cs = chars_of(user_agent);
    let av: Vec<char> = match second_piece_chars(&cs, "Android ") {
        Some(x) => trim_all(&before_char_chars(&x, ';')),
        None => Vec::new(),
    };
    let build: Vec<char> = match second_piece_chars(&cs, " Build/") {
        Some(x) => trim_all(&upto_either_chars(&x, ')', ' ')),
        None => Vec::new(),
    };
    let fallback = trim_all(&after_last_chars(&before_first_chars(&cs, " Build/"), "; "));
    let fields = build_fields_chars(&cs);
    let maker = field_chars(&fields, 0);
    let model_field = field_chars(&fields, 1);
    let model = if model_field.len() > 0 {
        model_field
    } else {
        fallback
    };
    let title = join_present_string(&maker, &model, " ");
    let family = before_char_chars(&field_chars(&fields, 3), '_');
    let version = field_chars(&fields, 4);
    let rom = chars_of(join_present_string(&family, &version, " ").as_str());
    let mut android: Vec<char> = Vec::new();
    if av.len() > 0 {
        android = chars_of("Android ");
        let mut i: usize = 0;
        let ghost head = android@;
        while i < av.len()
            invariant
                i <= av@.len(),
                android@ == head + av@.take(i as int),
            decreases av@.len() - i,
        {
            android.push(av[i]);
            i += 1;
            assert(android@ =~= head + av@.take(i as int));
        }
        assert(av@.take(i as int) =~= av@);
    } else {
        assert(android@ =~= Seq::<char>::empty());
    }
    let device_rom_text = join_present_string(&android, &rom, " · ");
    let mut build_text = String::new();
    push_range(&mut build_text, &build, 0, build.len());
    assert(build_text@ =~= build@);
    (title, build_text, device_rom_text)
}

} // verus!
