//! Character-level helpers shared by the rest of the crate.
//!
//! Strings are modelled by their `Seq<char>` view. The spec functions here
//! describe the std string operations the client relies on (trimming,
//! ASCII case folding, splitting, joining); the exec functions compute them
//! over character vectors.

use vstd::prelude::*;

verus! {

// ---------------------------------------------------------------------------
// Character classes
// ---------------------------------------------------------------------------

/// Unicode `White_Space`, the class `str::trim` removes.
pub open spec fn is_white(c: char) -> bool {
    ||| c == ' '
    ||| ('\t' <= c && c <= '\r')
    ||| c == '\u{85}'
    ||| c == '\u{a0}'
    ||| c == '\u{1680}'
    ||| ('\u{2000}' <= c && c <= '\u{200a}')
    ||| c == '\u{2028}'
    ||| c == '\u{2029}'
    ||| c == '\u{202f}'
    ||| c == '\u{205f}'
    ||| c == '\u{3000}'
}

/// Unicode general category `Cc`, the class `char::is_control` accepts.
pub open spec fn is_control(c: char) -> bool {
    c <= '\u{1f}' || ('\u{7f}' <= c && c <= '\u{9f}')
}

pub open spec fn is_ascii_upper(c: char) -> bool {
    'A' <= c && c <= 'Z'
}

pub open spec fn is_ascii_lower(c: char) -> bool {
    'a' <= c && c <= 'z'
}

pub open spec fn is_ascii_digit(c: char) -> bool {
    '0' <= c && c <= '9'
}

pub open spec fn is_ascii_alnum(c: char) -> bool {
    is_ascii_upper(c) || is_ascii_lower(c) || is_ascii_digit(c)
}

/// `char::to_ascii_lowercase`.
pub open spec fn lower(c: char) -> char {
    if is_ascii_upper(c) {
        ((c as u32) + 32) as char
    } else {
        c
    }
}

/// `char::to_ascii_uppercase`.
pub open spec fn upper(c: char) -> char {
    if is_ascii_lower(c) {
        ((c as u32) - 32) as char
    } else {
        c
    }
}

/// `str::to_ascii_lowercase`.
pub open spec fn lower_seq(s: Seq<char>) -> Seq<char> {
    s.map_values(|c: char| lower(c))
}

/// `str::to_ascii_uppercase`.
pub open spec fn upper_seq(s: Seq<char>) -> Seq<char> {
    s.map_values(|c: char| upper(c))
}

/// `str::eq_ignore_ascii_case`.
pub open spec fn eq_ic(a: Seq<char>, b: Seq<char>) -> bool {
    lower_seq(a) == lower_seq(b)
}

pub fn is_white_char(c: char) -> (r: bool)
    ensures
        r == is_white(c),
{
    c == ' ' || ('\t' <= c && c <= '\r') || c == '\u{85}' || c == '\u{a0}' || c == '\u{1680}'
        || ('\u{2000}' <= c && c <= '\u{200a}') || c == '\u{2028}' || c == '\u{2029}'
        || c == '\u{202f}' || c == '\u{205f}' || c == '\u{3000}'
}

pub fn is_control_char(c: char) -> (r: bool)
    ensures
        r == is_control(c),
{
    c <= '\u{1f}' || ('\u{7f}' <= c && c <= '\u{9f}')
}

pub fn is_alnum_char(c: char) -> (r: bool)
    ensures
        r == is_ascii_alnum(c),
{
    ('A' <= c && c <= 'Z') || ('a' <= c && c <= 'z') || ('0' <= c && c <= '9')
}

pub fn lower_char(c: char) -> (r: char)
    ensures
        r == lower(c),
{
    if 'A' <= c && c <= 'Z' {
        let v: u32 = c as u32;
        proof {
            assert(65 <= v <= 90);
        }
        let b: u8 = (v + 32) as u8;
        let r = b as char;
        assert(r as u32 == v + 32);
        r
    } else {
        c
    }
}

pub fn upper_char(c: char) -> (r: char)
    ensures
        r == upper(c),
{
    if 'a' <= c && c <= 'z' {
        let v: u32 = c as u32;
        proof {
            assert(97 <= v <= 122);
        }
        let b: u8 = (v - 32) as u8;
        let r = b as char;
        assert(r as u32 == v - 32);
        r
    } else {
        c
    }
}

// ---------------------------------------------------------------------------
// Sequence shapes
// ---------------------------------------------------------------------------

pub open spec fn starts_with(s: Seq<char>, p: Seq<char>) -> bool {
    p.len() <= s.len() && s.subrange(0, p.len() as int) == p
}

pub open spec fn ends_with(s: Seq<char>, p: Seq<char>) -> bool {
    p.len() <= s.len() && s.subrange(s.len() - p.len(), s.len() as int) == p
}

pub open spec fn occurs_at(s: Seq<char>, p: Seq<char>, i: int) -> bool {
    0 <= i && i + p.len() <= s.len() && s.subrange(i, i + p.len()) == p
}

pub open spec fn contains(s: Seq<char>, p: Seq<char>) -> bool {
    exists|i: int| occurs_at(s, p, i)
}

/// `str::trim_start`.
pub open spec fn trim_start(s: Seq<char>) -> Seq<char>
    decreases s.len(),
{
    if s.len() > 0 && is_white(s[0]) {
        trim_start(s.drop_first())
    } else {
        s
    }
}

/// `str::trim_end`.
pub open spec fn trim_end(s: Seq<char>) -> Seq<char>
    decreases s.len(),
{
    if s.len() > 0 && is_white(s.last()) {
        trim_end(s.drop_last())
    } else {
        s
    }
}

/// `str::trim`.
pub open spec fn trim(s: Seq<char>) -> Seq<char> {
    trim_end(trim_start(s))
}

/// `str::trim_start_matches(c)` for a single character.
pub open spec fn strip_leading(s: Seq<char>, c: char) -> Seq<char>
    decreases s.len(),
{
    if s.len() > 0 && s[0] == c {
        strip_leading(s.drop_first(), c)
    } else {
        s
    }
}

/// `str::trim_end_matches(c)` for a single character.
pub open spec fn strip_trailing(s: Seq<char>, c: char) -> Seq<char>
    decreases s.len(),
{
    if s.len() > 0 && s.last() == c {
        strip_trailing(s.drop_last(), c)
    } else {
        s
    }
}

/// Position of the first `c` in `s`, if any.
pub open spec fn find_char(s: Seq<char>, c: char) -> Option<int>
    decreases s.len(),
{
    if s.len() == 0 {
        None
    } else if s[0] == c {
        Some(0)
    } else {
        match find_char(s.drop_first(), c) {
            Some(i) => Some(i + 1),
            None => None,
        }
    }
}

/// `str::split(c)`: the pieces between the occurrences of `c`.
pub open spec fn split(s: Seq<char>, c: char) -> Seq<Seq<char>>
    decreases s.len(),
{
    match find_char(s, c) {
        Some(i) => {
            if 0 <= i < s.len() {
                seq![s.take(i)] + split(s.skip(i + 1), c)
            } else {
                seq![s]
            }
        },
        None => seq![s],
    }
}

/// `[..].join(sep)`.
pub open spec fn join(parts: Seq<Seq<char>>, sep: Seq<char>) -> Seq<char>
    decreases parts.len(),
{
    if parts.len() == 0 {
        Seq::empty()
    } else if parts.len() == 1 {
        parts[0]
    } else {
        join(parts.drop_last(), sep) + sep + parts.last()
    }
}

/// The pieces of `cs` that a list of bounds delimits.
pub open spec fn ranges_of(cs: Seq<char>, b: Seq<(usize, usize)>) -> Seq<Seq<char>> {
    b.map_values(|p: (usize, usize)| cs.subrange(p.0 as int, p.1 as int))
}

/// Every bound pair is ordered and within `n`.
pub open spec fn ranges_within(b: Seq<(usize, usize)>, n: int) -> bool {
    forall|k: int| 0 <= k < b.len() ==> #[trigger] b[k].0 <= b[k].1 <= n
}

/// The views of a sequence of string slices.
pub open spec fn str_views(v: Seq<&str>) -> Seq<Seq<char>> {
    v.map_values(|x: &str| x@)
}

/// The views of a vector of character vectors.
pub open spec fn views(v: Seq<Vec<char>>) -> Seq<Seq<char>> {
    v.map_values(|x: Vec<char>| x@)
}

// ---------------------------------------------------------------------------
// Lemmas
// ---------------------------------------------------------------------------

/// The first occurrence of `c` characterises `find_char`.
pub proof fn lemma_find_char_at(s: Seq<char>, c: char, i: int)
    requires
        0 <= i < s.len(),
        s[i] == c,
        forall|j: int| 0 <= j < i ==> s[j] != c,
    ensures
        find_char(s, c) == Some(i),
    decreases s.len(),
{
    if i > 0 {
        lemma_find_char_at(s.drop_first(), c, i - 1);
    }
}

pub proof fn lemma_find_char_none(s: Seq<char>, c: char)
    requires
        forall|j: int| 0 <= j < s.len() ==> s[j] != c,
    ensures
        find_char(s, c) == None::<int>,
    decreases s.len(),
{
    if s.len() > 0 {
        lemma_find_char_none(s.drop_first(), c);
    }
}

pub proof fn lemma_join_push(parts: Seq<Seq<char>>, sep: Seq<char>, p: Seq<char>)
    ensures
        join(parts.push(p), sep) == if parts.len() == 0 { p } else { join(parts, sep) + sep + p },
{
    assert(parts.push(p).drop_last() =~= parts);
    if parts.len() == 0 {
        assert(parts.push(p) =~= seq![p]);
    }
}

pub proof fn lemma_trim_start_stops(s: Seq<char>)
    requires
        s.len() == 0 || !is_white(s[0]),
    ensures
        trim_start(s) == s,
{
}

pub proof fn lemma_trim_end_stops(s: Seq<char>)
    requires
        s.len() == 0 || !is_white(s.last()),
    ensures
        trim_end(s) == s,
{
}

// ---------------------------------------------------------------------------
// Exec helpers
// ---------------------------------------------------------------------------

/// Appends one character to a string (`String::push`).
#[verifier::external_body]
pub(crate) fn push_char(s: &mut String, c: char)
    ensures
        final(s)@ == old(s)@.push(c),
{
    s.push(c);
}

/// The characters of a string slice, in order.
pub fn chars_of(s: &str) -> (out: Vec<char>)
    ensures
        out@ == s@,
{
    let mut out: Vec<char> = Vec::new();
    for c in it: s.chars()
        invariant
            out@ == it.seq().take(it.index() as int),
    {
        out.push(c);
    }
    out
}

/// Appends `cs[lo..hi]` to `s`.
pub fn push_range(s: &mut String, cs: &Vec<char>, lo: usize, hi: usize)
    requires
        lo <= hi <= cs@.len(),
    ensures
        final(s)@ == old(s)@ + cs@.subrange(lo as int, hi as int),
{
    let mut i = lo;
    while i < hi
        invariant
            lo <= i <= hi <= cs@.len(),
            s@ == old(s)@ + cs@.subrange(lo as int, i as int),
        decreases hi - i,
    {
        push_char(s, cs[i]);
        i += 1;
        assert(s@ =~= old(s)@ + cs@.subrange(lo as int, i as int));
    }
}

/// A string holding `cs[lo..hi]`.
pub fn string_of_range(cs: &Vec<char>, lo: usize, hi: usize) -> (r: String)
    requires
        lo <= hi <= cs@.len(),
    ensures
        r@ == cs@.subrange(lo as int, hi as int),
{
    let mut r = String::new();
    push_range(&mut r, cs, lo, hi);
    assert(r@ =~= cs@.subrange(lo as int, hi as int));
    r
}

/// A string holding all of `cs`.
pub fn string_of(cs: &Vec<char>) -> (r: String)
    ensures
        r@ == cs@,
{
    let r = string_of_range(cs, 0, cs.len());
    assert(cs@.subrange(0, cs@.len() as int) =~= cs@);
    r
}

/// Appends a string slice.
pub fn push_str(s: &mut String, t: &str)
    ensures
        final(s)@ == old(s)@ + t@,
{
    let cs = chars_of(t);
    push_range(s, &cs, 0, cs.len());
    assert(cs@.subrange(0, cs@.len() as int) =~= t@);
}

/// The bounds of `trim(cs[lo..hi])` inside `cs`.
pub fn trim_range(cs: &Vec<char>, lo: usize, hi: usize) -> (r: (usize, usize))
    requires
        lo <= hi <= cs@.len(),
    ensures
        lo <= r.0 <= r.1 <= hi,
        cs@.subrange(r.0 as int, r.1 as int) == trim(cs@.subrange(lo as int, hi as int)),
{
    let mut a = lo;
    while a < hi && is_white_char(cs[a])
        invariant
            lo <= a <= hi <= cs@.len(),
            trim_start(cs@.subrange(lo as int, hi as int)) == trim_start(
                cs@.subrange(a as int, hi as int),
            ),
        decreases hi - a,
    {
        assert(cs@.subrange(a as int, hi as int).drop_first() =~= cs@.subrange(
            a + 1,
            hi as int,
        ));
        a += 1;
    }
    let mut b = hi;
    while b > a && is_white_char(cs[b - 1])
        invariant
            lo <= a <= b <= hi <= cs@.len(),
            trim_end(cs@.subrange(a as int, hi as int)) == trim_end(
                cs@.subrange(a as int, b as int),
            ),
        decreases b - a,
    {
        assert(cs@.subrange(a as int, b as int).drop_last() =~= cs@.subrange(
            a as int,
            b - 1,
        ));
        b -= 1;
    }
    (a, b)
}

/// A trimmed copy of `cs[lo..hi]`.
pub fn trimmed(cs: &Vec<char>, lo: usize, hi: usize) -> (r: Vec<char>)
    requires
        lo <= hi <= cs@.len(),
    ensures
        r@ == trim(cs@.subrange(lo as int, hi as int)),
{
    let (a, b) = trim_range(cs, lo, hi);
    let mut r: Vec<char> = Vec::new();
    let mut i = a;
    while i < b
        invariant
            a <= i <= b <= cs@.len(),
            r@ == cs@.subrange(a as int, i as int),
        decreases b - i,
    {
        r.push(cs[i]);
        i += 1;
        assert(r@ =~= cs@.subrange(a as int, i as int));
    }
    r
}

/// The trimmed characters of a string slice.
pub fn trimmed_str(s: &str) -> (r: Vec<char>)
    ensures
        r@ == trim(s@),
{
    let cs = chars_of(s);
    assert(cs@.subrange(0, cs@.len() as int) =~= cs@);
    trimmed(&cs, 0, cs.len())
}

/// Index of the first `c` at or after `from` and before `hi`.
pub fn find_char_from(cs: &Vec<char>, c: char, from: usize, hi: usize) -> (r: Option<usize>)
    requires
        from <= hi <= cs@.len(),
    ensures
        match r {
            Some(i) => from <= i < hi && cs@[i as int] == c && forall|j: int|
                from <= j < i ==> cs@[j] != c,
            None => forall|j: int| from <= j < hi ==> cs@[j] != c,
        },
{
    let mut i = from;
    while i < hi
        invariant
            from <= i <= hi <= cs@.len(),
            forall|j: int| from <= j < i ==> cs@[j] != c,
        decreases hi - i,
    {
        if cs[i] == c {
            return Some(i);
        }
        i += 1;
    }
    None
}

/// `str::split(c)`, each piece given by its bounds in `cs`.
pub fn split_bounds(cs: &Vec<char>, c: char) -> (r: Vec<(usize, usize)>)
    ensures
        r@.len() >= 1,
        ranges_within(r@, cs@.len() as int),
        ranges_of(cs@, r@) == split(cs@, c),
{
    let mut r: Vec<(usize, usize)> = Vec::new();
    let mut start: usize = 0;
    let n = cs.len();
    proof {
        assert(cs@.skip(0) =~= cs@);
        assert(ranges_of(cs@, r@) =~= Seq::<
            Seq<char>,
        >::empty());
    }
    loop
        invariant
            start <= n == cs@.len(),
            ranges_within(r@, cs@.len() as int),
            split(cs@, c) == ranges_of(cs@, r@)
                + split(cs@.skip(start as int), c),
        decreases n - start,
    {
        let ghost rest = cs@.skip(start as int);
        let ghost m_old = ranges_of(cs@, r@);
        let ghost r_old = r@;
        match find_char_from(cs, c, start, n) {
            Some(i) => {
                let ghost piece = cs@.subrange(start as int, i as int);
                proof {
                    lemma_find_char_at(rest, c, i - start);
                    assert(rest.take(i - start) =~= piece);
                    assert(rest.skip(i - start + 1) =~= cs@.skip(i + 1));
                    assert(split(rest, c) == seq![piece] + split(cs@.skip(i + 1), c));
                }
                r.push((start, i));
                proof {
                    let m_new = ranges_of(cs@, r@);
                    assert(m_new =~= m_old.push(piece));
                    assert(r@ =~= r_old.push((start, i)));
                    assert forall|k: int| 0 <= k < r@.len() implies #[trigger] r@[k].0 <= r@[k].1
                        <= cs@.len() by {
                        if k < r_old.len() {
                            assert(r@[k] == r_old[k]);
                        }
                    }
                    assert(m_old + (seq![piece] + split(cs@.skip(i + 1), c)) =~= m_new + split(
                        cs@.skip(i + 1),
                        c,
                    ));
                }
                start = i + 1;
            },
            None => {
                let ghost piece = cs@.subrange(start as int, n as int);
                proof {
                    lemma_find_char_none(rest, c);
                    assert(rest =~= piece);
                    assert(split(rest, c) == seq![piece]);
                }
                r.push((start, n));
                proof {
                    let m_new = ranges_of(cs@, r@);
                    assert(m_new =~= m_old.push(piece));
                    assert(r@ =~= r_old.push((start, n)));
                    assert forall|k: int| 0 <= k < r@.len() implies #[trigger] r@[k].0 <= r@[k].1
                        <= cs@.len() by {
                        if k < r_old.len() {
                            assert(r@[k] == r_old[k]);
                        }
                    }
                    assert(m_old + seq![piece] =~= m_new);
                }
                return r;
            },
        }
    }
}

/// Appends `part` to a joined string, placing `sep` before every part but the first.
pub fn push_joined(out: &mut String, count: usize, sep: &str, part: &Vec<char>, Ghost(
    parts,
): Ghost<Seq<Seq<char>>>)
    requires
        count == parts.len(),
        old(out)@ == join(parts, sep@),
    ensures
        final(out)@ == join(parts.push(part@), sep@),
{
    proof {
        lemma_join_push(parts, sep@, part@);
    }
    if count > 0 {
        push_str(out, sep);
    }
    push_range(out, part, 0, part.len());
    assert(part@.subrange(0, part@.len() as int) =~= part@);
}

/// `s[lo..hi]` starts with `p`.
pub fn range_starts_with(cs: &Vec<char>, lo: usize, hi: usize, p: &Vec<char>) -> (r: bool)
    requires
        lo <= hi <= cs@.len(),
    ensures
        r == starts_with(cs@.subrange(lo as int, hi as int), p@),
{
    if p.len() > hi - lo {
        return false;
    }
    let mut i: usize = 0;
    while i < p.len()
        invariant
            lo <= hi <= cs@.len(),
            p@.len() <= hi - lo,
            i <= p@.len(),
            forall|j: int| 0 <= j < i ==> cs@[lo + j] == p@[j],
        decreases p@.len() - i,
    {
        if cs[lo + i] != p[i] {
            assert(cs@.subrange(lo as int, hi as int).subrange(0, p@.len() as int)[i as int]
                != p@[i as int]);
            return false;
        }
        i += 1;
    }
    assert(cs@.subrange(lo as int, hi as int).subrange(0, p@.len() as int) =~= p@);
    true
}

/// `s` starts with the string slice `p`.
pub fn chars_start_with(cs: &Vec<char>, p: &str) -> (r: bool)
    ensures
        r == starts_with(cs@, p@),
{
    let pc = chars_of(p);
    assert(cs@.subrange(0, cs@.len() as int) =~= cs@);
    range_starts_with(cs, 0, cs.len(), &pc)
}

/// `s` ends with the string slice `p`.
pub fn chars_end_with(cs: &Vec<char>, p: &str) -> (r: bool)
    ensures
        r == ends_with(cs@, p@),
{
    let pc = chars_of(p);
    if pc.len() > cs.len() {
        return false;
    }
    let lo = cs.len() - pc.len();
    let r = range_starts_with(cs, lo, cs.len(), &pc);
    assert(cs@.subrange(lo as int, cs@.len() as int).subrange(0, pc@.len() as int)
        =~= cs@.subrange(lo as int, cs@.len() as int));
    r
}

/// Two character sequences are equal.
pub fn chars_eq(a: &Vec<char>, b: &Vec<char>) -> (r: bool)
    ensures
        r == (a@ == b@),
{
    if a.len() != b.len() {
        return false;
    }
    let mut i: usize = 0;
    while i < a.len()
        invariant
            a@.len() == b@.len(),
            i <= a@.len(),
            forall|j: int| 0 <= j < i ==> a@[j] == b@[j],
        decreases a@.len() - i,
    {
        if a[i] != b[i] {
            return false;
        }
        i += 1;
    }
    assert(a@ =~= b@);
    true
}

/// The characters equal the string slice `p`.
pub fn chars_eq_str(cs: &Vec<char>, p: &str) -> (r: bool)
    ensures
        r == (cs@ == p@),
{
    let pc = chars_of(p);
    chars_eq(cs, &pc)
}

/// `cs[lo..hi]` equals `p` up to ASCII case.
pub fn range_eq_ic(cs: &Vec<char>, lo: usize, hi: usize, p: &str) -> (r: bool)
    requires
        lo <= hi <= cs@.len(),
    ensures
        r == eq_ic(cs@.subrange(lo as int, hi as int), p@),
{
    let pc = chars_of(p);
    let ghost a = cs@.subrange(lo as int, hi as int);
    if pc.len() != hi - lo {
        proof {
            if eq_ic(a, p@) {
                assert(lower_seq(a).len() == lower_seq(p@).len());
            }
        }
        return false;
    }
    let mut i: usize = 0;
    while i < pc.len()
        invariant
            lo <= hi <= cs@.len(),
            pc@ == p@,
            a == cs@.subrange(lo as int, hi as int),
            pc@.len() == hi - lo,
            i <= pc@.len(),
            forall|j: int| 0 <= j < i ==> lower(cs@[lo + j]) == lower(pc@[j]),
        decreases pc@.len() - i,
    {
        if lower_char(cs[lo + i]) != lower_char(pc[i]) {
            proof {
                if eq_ic(a, p@) {
                    assert(lower_seq(a)[i as int] == lower_seq(p@)[i as int]);
                }
            }
            return false;
        }
        i += 1;
    }
    assert(lower_seq(a) =~= lower_seq(p@));
    true
}

/// Appends `cs[lo..hi]` as the next part of a joined string.
pub fn push_joined_range(
    out: &mut String,
    count: usize,
    sep: &str,
    cs: &Vec<char>,
    lo: usize,
    hi: usize,
    Ghost(parts): Ghost<Seq<Seq<char>>>,
)
    requires
        lo <= hi <= cs@.len(),
        count == parts.len(),
        old(out)@ == join(parts, sep@),
    ensures
        final(out)@ == join(parts.push(cs@.subrange(lo as int, hi as int)), sep@),
{
    proof {
        lemma_join_push(parts, sep@, cs@.subrange(lo as int, hi as int));
    }
    if count > 0 {
        push_str(out, sep);
    }
    push_range(out, cs, lo, hi);
}

/// Piece `k` of `split_bounds` is piece `k` of `split`.
pub proof fn lemma_split_piece(cs: Seq<char>, c: char, bounds: Seq<(usize, usize)>, k: int)
    requires
        ranges_of(cs, bounds) == split(cs, c),
        0 <= k < bounds.len(),
    ensures
        cs.subrange(bounds[k].0 as int, bounds[k].1 as int) == split(cs, c)[k],
        split(cs, c).len() == bounds.len(),
{
    assert(ranges_of(cs, bounds)[k] == cs.subrange(bounds[k].0 as int, bounds[k].1 as int));
}

/// `cs[lo..hi]` equals the string slice `p`.
pub fn range_eq_str(cs: &Vec<char>, lo: usize, hi: usize, p: &str) -> (r: bool)
    requires
        lo <= hi <= cs@.len(),
    ensures
        r == (cs@.subrange(lo as int, hi as int) == p@),
{
    let pc = chars_of(p);
    if pc.len() != hi - lo {
        proof {
            if cs@.subrange(lo as int, hi as int) == p@ {
                assert(cs@.subrange(lo as int, hi as int).len() == p@.len());
            }
        }
        return false;
    }
    let r = range_starts_with(cs, lo, hi, &pc);
    assert(cs@.subrange(lo as int, hi as int).subrange(0, pc@.len() as int) =~= cs@.subrange(
        lo as int,
        hi as int,
    ));
    r
}

/// Upper-case hexadecimal digit of `d < 16`.
pub open spec fn hex_upper(d: int) -> char {
    if d < 10 {
        (48 + d) as char
    } else {
        (55 + d) as char
    }
}

/// Lower-case hexadecimal digit of `d < 16`.
pub open spec fn hex_lower(d: int) -> char {
    if d < 10 {
        (48 + d) as char
    } else {
        (87 + d) as char
    }
}

/// `format!("{:X}", n)`: upper-case hexadecimal without leading zeros.
pub open spec fn hex_digits(n: nat) -> Seq<char>
    decreases n,
{
    if n < 16 {
        seq![hex_upper(n as int)]
    } else {
        hex_digits(n / 16).push(hex_upper((n % 16) as int))
    }
}

/// `format!("{:02X}", n)`.
pub open spec fn hex_min2(n: nat) -> Seq<char> {
    if n < 16 {
        seq!['0', hex_upper(n as int)]
    } else {
        hex_digits(n)
    }
}

pub fn hex_upper_char(d: u32) -> (c: char)
    requires
        d < 16,
    ensures
        c == hex_upper(d as int),
{
    if d < 10 {
        let b: u8 = (48 + d) as u8;
        b as char
    } else {
        let b: u8 = (55 + d) as u8;
        b as char
    }
}

pub fn hex_lower_char(d: u32) -> (c: char)
    requires
        d < 16,
    ensures
        c == hex_lower(d as int),
{
    if d < 10 {
        let b: u8 = (48 + d) as u8;
        b as char
    } else {
        let b: u8 = (87 + d) as u8;
        b as char
    }
}

/// Appends `format!("{:X}", n)`.
pub fn push_hex_digits(out: &mut String, n: u32)
    ensures
        final(out)@ == old(out)@ + hex_digits(n as nat),
    decreases n,
{
    if n >= 16 {
        push_hex_digits(out, n / 16);
    }
    push_char(out, hex_upper_char(n % 16));
    proof {
        if n >= 16 {
            assert(hex_digits(n as nat) == hex_digits((n / 16) as nat).push(
                hex_upper((n % 16) as int),
            ));
        }
    }
    assert(out@ =~= old(out)@ + hex_digits(n as nat));
}

/// Appends `format!("{:02X}", n)`.
pub fn push_hex_min2(out: &mut String, n: u32)
    ensures
        final(out)@ == old(out)@ + hex_min2(n as nat),
{
    if n < 16 {
        push_char(out, '0');
        push_char(out, hex_upper_char(n));
        assert(out@ =~= old(out)@ + hex_min2(n as nat));
    } else {
        push_hex_digits(out, n);
    }
}

/// Decimal digits of `n` (`u64::to_string`).
pub open spec fn dec(n: nat) -> Seq<char>
    decreases n,
{
    if n < 10 {
        seq![(48 + n) as char]
    } else {
        dec(n / 10).push((48 + n % 10) as char)
    }
}

/// `i64::to_string`.
pub open spec fn dec_int(i: int) -> Seq<char> {
    if i < 0 {
        seq!['-'] + dec((-i) as nat)
    } else {
        dec(i as nat)
    }
}

/// Appends the decimal digits of `n`.
pub fn push_dec(out: &mut String, n: u64)
    ensures
        final(out)@ == old(out)@ + dec(n as nat),
    decreases n,
{
    if n >= 10 {
        push_dec(out, n / 10);
    }
    let d: u8 = (n % 10) as u8;
    push_char(out, (48 + d) as char);
    assert(out@ =~= old(out)@ + dec(n as nat));
}

/// `u64::to_string`.
pub fn u64_to_string(n: u64) -> (r: String)
    ensures
        r@ == dec(n as nat),
{
    let mut out = String::new();
    push_dec(&mut out, n);
    assert(out@ =~= dec(n as nat));
    out
}

/// `i64::to_string`.
pub fn i64_to_string(i: i64) -> (r: String)
    ensures
        r@ == dec_int(i as int),
{
    let mut out = String::new();
    if i < 0 {
        push_char(&mut out, '-');
        let m: u64 = if i == i64::MIN {
            9223372036854775808u64
        } else {
            (-i) as u64
        };
        push_dec(&mut out, m);
    } else {
        push_dec(&mut out, i as u64);
    }
    assert(out@ =~= dec_int(i as int));
    out
}

/// The views of a list of `(name, value)` parameters.
pub open spec fn params_view(v: Seq<(&str, String)>) -> Seq<(Seq<char>, Seq<char>)> {
    v.map_values(|p: (&str, String)| (p.0@, p.1@))
}

/// Bounds of `strip_leading(cs[lo..hi], c)`.
pub fn strip_leading_range(cs: &Vec<char>, lo: usize, hi: usize, c: char) -> (r: usize)
    requires
        lo <= hi <= cs@.len(),
    ensures
        lo <= r <= hi,
        cs@.subrange(r as int, hi as int) == strip_leading(cs@.subrange(lo as int, hi as int), c),
{
    let mut a = lo;
    while a < hi && cs[a] == c
        invariant
            lo <= a <= hi <= cs@.len(),
            strip_leading(cs@.subrange(lo as int, hi as int), c) == strip_leading(
                cs@.subrange(a as int, hi as int),
                c,
            ),
        decreases hi - a,
    {
        assert(cs@.subrange(a as int, hi as int).drop_first() =~= cs@.subrange(a + 1, hi as int));
        a += 1;
    }
    a
}

/// Bounds of `strip_trailing(cs[lo..hi], c)`.
pub fn strip_trailing_range(cs: &Vec<char>, lo: usize, hi: usize, c: char) -> (r: usize)
    requires
        lo <= hi <= cs@.len(),
    ensures
        lo <= r <= hi,
        cs@.subrange(lo as int, r as int) == strip_trailing(cs@.subrange(lo as int, hi as int), c),
{
    let mut b = hi;
    while b > lo && cs[b - 1] == c
        invariant
            lo <= b <= hi <= cs@.len(),
            strip_trailing(cs@.subrange(lo as int, hi as int), c) == strip_trailing(
                cs@.subrange(lo as int, b as int),
                c,
            ),
        decreases b - lo,
    {
        assert(cs@.subrange(lo as int, b as int).drop_last() =~= cs@.subrange(lo as int, b - 1));
        b -= 1;
    }
    b
}

/// First occurrence of `p` in `s` at or after `from` (`str::find` on `s[from..]`).
pub open spec fn find_from(s: Seq<char>, p: Seq<char>, from: int) -> Option<int>
    decreases s.len() + 1 - from,
{
    if from < 0 || from + p.len() > s.len() {
        None
    } else if s.subrange(from, from + p.len()) == p {
        Some(from)
    } else {
        find_from(s, p, from + 1)
    }
}

/// First index at or after `from` holding `c`.
pub open spec fn find_char_from_spec(s: Seq<char>, c: char, from: int) -> Option<int>
    decreases s.len() + 1 - from,
{
    if from < 0 || from >= s.len() {
        None
    } else if s[from] == c {
        Some(from)
    } else {
        find_char_from_spec(s, c, from + 1)
    }
}

pub proof fn lemma_find_from_bounds(s: Seq<char>, p: Seq<char>, from: int)
    ensures
        match find_from(s, p, from) {
            Some(i) => from <= i && i + p.len() <= s.len() && s.subrange(i, i + p.len()) == p,
            None => true,
        },
    decreases s.len() + 1 - from,
{
    if !(from < 0 || from + p.len() > s.len()) && s.subrange(from, from + p.len()) != p {
        lemma_find_from_bounds(s, p, from + 1);
    }
}

pub proof fn lemma_find_char_from_bounds(s: Seq<char>, c: char, from: int)
    ensures
        match find_char_from_spec(s, c, from) {
            Some(i) => from <= i < s.len() && s[i] == c,
            None => true,
        },
    decreases s.len() + 1 - from,
{
    if !(from < 0 || from >= s.len()) && s[from] != c {
        lemma_find_char_from_bounds(s, c, from + 1);
    }
}

/// `str::find` of `p` in `cs[from..]`, as an absolute index.
pub fn find_seq_from(cs: &Vec<char>, p: &Vec<char>, from: usize) -> (r: Option<usize>)
    ensures
        match r {
            Some(i) => find_from(cs@, p@, from as int) == Some(i as int),
            None => find_from(cs@, p@, from as int) == None::<int>,
        },
{
    let n = cs.len();
    let m = p.len();
    if m > n || from > n - m {
        return None;
    }
    if m == 0 {
        assert(cs@.subrange(from as int, from as int) =~= p@);
        return Some(from);
    }
    let mut i = from;
    loop
        invariant
            n == cs@.len(),
            m == p@.len(),
            0 < m <= n,
            from <= i,
            find_from(cs@, p@, from as int) == find_from(cs@, p@, i as int),
        decreases n + 1 - i,
    {
        if i > n - m {
            return None;
        }
        assert(i + m <= n);
        if range_starts_with(cs, i, i + m, p) {
            assert(cs@.subrange(i as int, (i + m) as int).subrange(0, m as int) =~= cs@.subrange(
                i as int,
                (i + m) as int,
            ));
            return Some(i);
        }
        assert(cs@.subrange(i as int, (i + m) as int).subrange(0, m as int) =~= cs@.subrange(
            i as int,
            (i + m) as int,
        ));
        i += 1;
    }
}

/// `str::find(c)` in `cs[from..]`, as an absolute index.
pub fn find_char_seq_from(cs: &Vec<char>, c: char, from: usize) -> (r: Option<usize>)
    ensures
        match r {
            Some(i) => find_char_from_spec(cs@, c, from as int) == Some(i as int),
            None => find_char_from_spec(cs@, c, from as int) == None::<int>,
        },
{
    let n = cs.len();
    let mut i = from;
    while i < n
        invariant
            n == cs@.len(),
            from <= i,
            find_char_from_spec(cs@, c, from as int) == find_char_from_spec(cs@, c, i as int),
        decreases n - i,
    {
        if cs[i] == c {
            return Some(i);
        }
        i += 1;
    }
    None
}

/// The ASCII-lowercased characters.
pub fn lower_chars(cs: &Vec<char>) -> (r: Vec<char>)
    ensures
        r@ == lower_seq(cs@),
{
    let mut r: Vec<char> = Vec::new();
    let mut i: usize = 0;
    while i < cs.len()
        invariant
            i <= cs@.len(),
            r@ == lower_seq(cs@.take(i as int)),
        decreases cs@.len() - i,
    {
        r.push(lower_char(cs[i]));
        i += 1;
        assert(r@ =~= lower_seq(cs@.take(i as int)));
    }
    assert(cs@.take(i as int) =~= cs@);
    r
}

/// Number of UTF-8 bytes of a character sequence (`str::len`).
pub open spec fn utf8_len(s: Seq<char>) -> nat {
    vstd::utf8::encode_utf8(s).len()
}

pub proof fn lemma_encode_utf8_concat(a: Seq<char>, b: Seq<char>)
    ensures
        vstd::utf8::encode_utf8(a + b) == vstd::utf8::encode_utf8(a) + vstd::utf8::encode_utf8(b),
    decreases a.len(),
{
    if a.len() == 0 {
        assert(a + b =~= b);
        assert(vstd::utf8::encode_utf8(a) =~= Seq::<u8>::empty());
        assert(vstd::utf8::encode_utf8(a + b) =~= vstd::utf8::encode_utf8(a)
            + vstd::utf8::encode_utf8(b));
    } else {
        lemma_encode_utf8_concat(a.drop_first(), b);
        assert((a + b).drop_first() =~= a.drop_first() + b);
        assert((a + b)[0] == a[0]);
        assert(vstd::utf8::encode_utf8(a + b) =~= vstd::utf8::encode_utf8(a)
            + vstd::utf8::encode_utf8(b));
    }
}

/// Number of UTF-8 bytes of one character.
pub fn char_utf8_len(c: char) -> (r: usize)
    ensures
        r == vstd::utf8::encode_scalar(c as u32).len(),
        1 <= r <= 4,
{
    let v = c as u32;
    if v <= 0x7f {
        1
    } else if v <= 0x7ff {
        2
    } else if v <= 0xffff {
        proof {
            vstd::utf8::char_is_scalar(c);
        }
        3
    } else {
        4
    }
}

/// `str::len` of `cs[lo..hi]`, capped: `Some(n)` when the byte length `n`
/// is at most `cap`, else `None`.
pub fn utf8_len_capped(cs: &Vec<char>, lo: usize, hi: usize, cap: usize) -> (r: Option<usize>)
    requires
        lo <= hi <= cs@.len(),
    ensures
        match r {
            Some(n) => n == utf8_len(cs@.subrange(lo as int, hi as int)) && n <= cap,
            None => utf8_len(cs@.subrange(lo as int, hi as int)) > cap,
        },
{
    let mut total: usize = 0;
    let mut i = lo;
    assert(cs@.subrange(lo as int, lo as int) =~= Seq::<char>::empty());
    while i < hi
        invariant
            lo <= i <= hi <= cs@.len(),
            total == utf8_len(cs@.subrange(lo as int, i as int)),
            total <= cap,
        decreases hi - i,
    {
        let w = char_utf8_len(cs[i]);
        proof {
            let a = cs@.subrange(lo as int, i as int);
            let b = seq![cs@[i as int]];
            lemma_encode_utf8_concat(a, b);
            assert(cs@.subrange(lo as int, i + 1) =~= a + b);
            assert(b.drop_first() =~= Seq::<char>::empty());
            assert(vstd::utf8::encode_utf8(b.drop_first()) =~= Seq::<u8>::empty());
            assert(vstd::utf8::encode_utf8(b) =~= vstd::utf8::encode_scalar(cs@[i as int] as u32));
        }
        if w > cap - total {
            proof {
                let a = cs@.subrange(lo as int, i + 1);
                let b = cs@.subrange(i + 1, hi as int);
                lemma_encode_utf8_concat(a, b);
                assert(cs@.subrange(lo as int, hi as int) =~= a + b);
            }
            return None;
        }
        total = total + w;
        i += 1;
    }
    Some(total)
}

pub proof fn lemma_find_from_none(s: Seq<char>, p: Seq<char>, from: int)
    requires
        0 <= from,
        find_from(s, p, from) == None::<int>,
    ensures
        forall|i: int| from <= i ==> !occurs_at(s, p, i),
    decreases s.len() + 1 - from,
{
    if !(from + p.len() > s.len()) {
        lemma_find_from_none(s, p, from + 1);
    }
}

/// `str::contains` for a character sequence.
pub fn chars_contain(cs: &Vec<char>, p: &str) -> (r: bool)
    ensures
        r == contains(cs@, p@),
{
    let pc = chars_of(p);
    match find_seq_from(cs, &pc, 0) {
        Some(i) => {
            proof {
                lemma_find_from_bounds(cs@, pc@, 0);
                assert(occurs_at(cs@, p@, i as int));
            }
            true
        },
        None => {
            proof {
                lemma_find_from_none(cs@, pc@, 0);
            }
            false
        },
    }
}

} // verus!
